//! Colors, styles and their ANSI escape sequences.

use vstd::prelude::*;
use crate::text::{decimal, push_decimal};
use vstd::string::StringExecFns;
use ratatui::buffer::Buffer;
use crate::term::{Area, CellModel, buffer_area, buffer_bounds, buffer_cells, cell_at};

verus! {

/// A terminal color, as the frame buffer stores it.
#[derive(Clone, Copy, PartialEq, Eq, Structural)]
pub enum Color {
    Reset,
    Black,
    Red,
    Green,
    Yellow,
    Blue,
    Magenta,
    Cyan,
    Gray,
    DarkGray,
    LightRed,
    LightGreen,
    LightYellow,
    LightBlue,
    LightMagenta,
    LightCyan,
    White,
    Rgb(u8, u8, u8),
    Indexed(u8),
}

/// Bold text.
pub const BOLD: u16 = 1;

/// Dim text.
pub const DIM: u16 = 2;

/// Italic text.
pub const ITALIC: u16 = 4;

/// Underlined text.
pub const UNDERLINED: u16 = 8;

/// Reversed colors.
pub const REVERSED: u16 = 64;

/// Colors and modifiers; an absent color leaves the one beneath.
#[derive(Clone, Copy, PartialEq, Eq, Structural)]
pub struct Style {
    pub fg: Option<Color>,
    pub bg: Option<Color>,
    pub modifiers: u16,
}

/// The style with no colors and no modifiers.
pub open spec fn plain() -> Style {
    Style { fg: None, bg: None, modifiers: 0 }
}

/// A Select Graphic Rendition sequence with one parameter.
pub open spec fn sgr(n: nat) -> Seq<char> {
    "\x1b["@ + decimal(n) + "m"@
}

/// The escape sequence that selects color `c` for the foreground, or for the
/// background when `bg`: named colors by their ANSI numbers (30–37 and 90–97,
/// 40–47 and 100–107 for the background), the rest by 256-color index or RGB.
pub open spec fn color_code(c: Color, bg: bool) -> Seq<char> {
    let base: nat = if bg {
        40
    } else {
        30
    };
    let bright: nat = if bg {
        100
    } else {
        90
    };
    match c {
        Color::Reset => if bg {
            "\x1b[49m"@
        } else {
            "\x1b[39m"@
        },
        Color::Black => sgr(base),
        Color::Red => sgr(base + 1),
        Color::Green => sgr(base + 2),
        Color::Yellow => sgr(base + 3),
        Color::Blue => sgr(base + 4),
        Color::Magenta => sgr(base + 5),
        Color::Cyan => sgr(base + 6),
        Color::Gray => sgr(base + 7),
        Color::DarkGray => sgr(bright),
        Color::LightRed => sgr(bright + 1),
        Color::LightGreen => sgr(bright + 2),
        Color::LightYellow => sgr(bright + 3),
        Color::LightBlue => sgr(bright + 4),
        Color::LightMagenta => sgr(bright + 5),
        Color::LightCyan => sgr(bright + 6),
        Color::White => sgr(bright + 7),
        Color::Indexed(i) => (if bg {
            "\x1b[48;5;"@
        } else {
            "\x1b[38;5;"@
        }) + decimal(i as nat) + "m"@,
        Color::Rgb(r, g, b) => (if bg {
            "\x1b[48;2;"@
        } else {
            "\x1b[38;2;"@
        }) + decimal(r as nat) + ";"@ + decimal(g as nat) + ";"@ + decimal(b as nat) + "m"@,
    }
}

/// The code of a color where there is one.
pub open spec fn opt_color_code(c: Option<Color>, bg: bool) -> Seq<char> {
    match c {
        Some(k) => color_code(k, bg),
        None => Seq::empty(),
    }
}

/// `code` when `on`.
pub open spec fn flag_code(on: bool, code: Seq<char>) -> Seq<char> {
    if on {
        code
    } else {
        Seq::empty()
    }
}

/// The escape sequences of a style: foreground, background, then bold, dim,
/// italic, underlined and reversed.
pub open spec fn style_code(s: Style) -> Seq<char> {
    opt_color_code(s.fg, false) + opt_color_code(s.bg, true) + flag_code(
        s.modifiers & BOLD == BOLD,
        "\x1b[1m"@,
    ) + flag_code(s.modifiers & DIM == DIM, "\x1b[2m"@) + flag_code(
        s.modifiers & ITALIC == ITALIC,
        "\x1b[3m"@,
    ) + flag_code(s.modifiers & UNDERLINED == UNDERLINED, "\x1b[4m"@) + flag_code(
        s.modifiers & REVERSED == REVERSED,
        "\x1b[7m"@,
    )
}

fn push_sgr(out: &mut String, n: u8)
    ensures
        final(out)@ == old(out)@ + sgr(n as nat),
{
    out.append("\x1b[");
    push_decimal(out, n as u128);
    out.append("m");
}

/// A named color: one of the sixteen ANSI colors or the terminal's default.
pub open spec fn is_named(c: Color) -> bool {
    !(c is Rgb) && !(c is Indexed)
}

proof fn lemma_decimal_len(n: nat)
    ensures
        decimal(n).len() >= 1,
        n >= 10 ==> decimal(n).len() >= 2,
    decreases n,
{
    if n >= 10 {
        lemma_decimal_len(n / 10);
    }
}

/// Different numbers have different decimal representations.
pub proof fn lemma_decimal_injective(n: nat, m: nat)
    requires
        decimal(n) == decimal(m),
    ensures
        n == m,
    decreases n,
{
    lemma_decimal_len(n);
    lemma_decimal_len(m);
    if n < 10 && m < 10 {
        assert(decimal(n)[0] == crate::text::digit_char(n));
        assert(decimal(m)[0] == crate::text::digit_char(m));
        lemma_digit_code(n);
        lemma_digit_code(m);
    } else if n >= 10 && m >= 10 {
        let dn = decimal(n);
        let dm = decimal(m);
        assert(dn.last() == crate::text::digit_char(n % 10));
        assert(dm.last() == crate::text::digit_char(m % 10));
        lemma_digit_code(n % 10);
        lemma_digit_code(m % 10);
        assert(dn.drop_last() =~= decimal(n / 10));
        assert(dm.drop_last() =~= decimal(m / 10));
        lemma_decimal_injective(n / 10, m / 10);
        assert(n == 10 * (n / 10) + n % 10) by (nonlinear_arith);
        assert(m == 10 * (m / 10) + m % 10) by (nonlinear_arith);
    }
}

/// Different parameters give different one-parameter sequences.
pub proof fn lemma_sgr_injective()
    ensures
        forall|n: nat, m: nat| #[trigger] sgr(n) == #[trigger] sgr(m) ==> n == m,
{
    reveal_strlit("\x1b[");
    reveal_strlit("m");
    assert forall|n: nat, m: nat| #[trigger] sgr(n) == #[trigger] sgr(m) implies n == m by {
        let a = sgr(n);
        let b = sgr(m);
        assert(decimal(n) =~= a.subrange(2, a.len() - 1));
        assert(decimal(m) =~= b.subrange(2, b.len() - 1));
        lemma_decimal_injective(n, m);
    }
}

/// Each named color is selected by its standard ANSI number: 30 to 37 for
/// black, red, green, yellow, blue, magenta, cyan and gray, 90 to 97 for
/// their bright forms (dark gray to white), 39 for the default; ten more
/// for the background.
pub proof fn lemma_named_color_numbers(bg: bool)
    ensures
        ({
            let off: nat = if bg {
                10
            } else {
                0
            };
            &&& color_code(Color::Black, bg) == sgr(30 + off)
            &&& color_code(Color::Red, bg) == sgr(31 + off)
            &&& color_code(Color::Green, bg) == sgr(32 + off)
            &&& color_code(Color::Yellow, bg) == sgr(33 + off)
            &&& color_code(Color::Blue, bg) == sgr(34 + off)
            &&& color_code(Color::Magenta, bg) == sgr(35 + off)
            &&& color_code(Color::Cyan, bg) == sgr(36 + off)
            &&& color_code(Color::Gray, bg) == sgr(37 + off)
            &&& color_code(Color::DarkGray, bg) == sgr(90 + off)
            &&& color_code(Color::LightRed, bg) == sgr(91 + off)
            &&& color_code(Color::LightGreen, bg) == sgr(92 + off)
            &&& color_code(Color::LightYellow, bg) == sgr(93 + off)
            &&& color_code(Color::LightBlue, bg) == sgr(94 + off)
            &&& color_code(Color::LightMagenta, bg) == sgr(95 + off)
            &&& color_code(Color::LightCyan, bg) == sgr(96 + off)
            &&& color_code(Color::White, bg) == sgr(97 + off)
            &&& color_code(Color::Reset, bg) == sgr(39 + off)
        }),
{
    reveal_strlit("\x1b[39m");
    reveal_strlit("\x1b[49m");
    reveal_strlit("\x1b[");
    reveal_strlit("m");
    let off: nat = if bg {
        10
    } else {
        0
    };
    let d = decimal(39 + off);
    assert(decimal(3 + off / 10) == seq![crate::text::digit_char(3 + off / 10)]);
    assert(d =~= seq![crate::text::digit_char(3 + off / 10), crate::text::digit_char(9)]);
    assert(color_code(Color::Reset, bg) =~= sgr(39 + off));
}

/// A named color's background sequence is its foreground one with the
/// number ten higher.
pub proof fn lemma_background_is_ten_higher(c: Color)
    requires
        is_named(c),
    ensures
        exists|n: nat| #![trigger sgr(n)] color_code(c, false) == sgr(n) && color_code(c, true) == sgr(n + 10),
{
    lemma_named_color_numbers(false);
    lemma_named_color_numbers(true);
    match c {
        Color::Black => assert(color_code(c, false) == sgr(30) && color_code(c, true) == sgr(30nat + 10)),
        Color::Red => assert(color_code(c, false) == sgr(31) && color_code(c, true) == sgr(31nat + 10)),
        Color::Green => assert(color_code(c, false) == sgr(32) && color_code(c, true) == sgr(32nat + 10)),
        Color::Yellow => assert(color_code(c, false) == sgr(33) && color_code(c, true) == sgr(33nat + 10)),
        Color::Blue => assert(color_code(c, false) == sgr(34) && color_code(c, true) == sgr(34nat + 10)),
        Color::Magenta => assert(color_code(c, false) == sgr(35) && color_code(c, true) == sgr(35nat + 10)),
        Color::Cyan => assert(color_code(c, false) == sgr(36) && color_code(c, true) == sgr(36nat + 10)),
        Color::Gray => assert(color_code(c, false) == sgr(37) && color_code(c, true) == sgr(37nat + 10)),
        Color::DarkGray => assert(color_code(c, false) == sgr(90) && color_code(c, true) == sgr(90nat + 10)),
        Color::LightRed => assert(color_code(c, false) == sgr(91) && color_code(c, true) == sgr(91nat + 10)),
        Color::LightGreen => assert(color_code(c, false) == sgr(92) && color_code(c, true) == sgr(92nat + 10)),
        Color::LightYellow => assert(color_code(c, false) == sgr(93) && color_code(c, true) == sgr(93nat + 10)),
        Color::LightBlue => assert(color_code(c, false) == sgr(94) && color_code(c, true) == sgr(94nat + 10)),
        Color::LightMagenta => assert(color_code(c, false) == sgr(95) && color_code(c, true) == sgr(95nat + 10)),
        Color::LightCyan => assert(color_code(c, false) == sgr(96) && color_code(c, true) == sgr(96nat + 10)),
        Color::White => assert(color_code(c, false) == sgr(97) && color_code(c, true) == sgr(97nat + 10)),
        Color::Reset => assert(color_code(c, false) == sgr(39) && color_code(c, true) == sgr(39nat + 10)),
        _ => {},
    }
}

/// Numeric parameters in decimal, separated by `;`.
pub open spec fn params_text(ps: Seq<nat>) -> Seq<char>
    decreases ps.len(),
{
    if ps.len() == 0 {
        Seq::empty()
    } else if ps.len() == 1 {
        decimal(ps[0])
    } else {
        decimal(ps[0]) + ";"@ + params_text(ps.drop_first())
    }
}

/// A Select Graphic Rendition sequence with the parameters `ps`.
pub open spec fn sgr_params(ps: Seq<nat>) -> Seq<char> {
    "\x1b["@ + params_text(ps) + "m"@
}

/// Colors are selected by the standard SGR parameters: a named color by its
/// number alone, a 256-color index by `38;5;i` (`48;5;i` for the
/// background), an RGB triple by `38;2;r;g;b` (`48;2;r;g;b`).
pub proof fn lemma_color_parameters(c: Color, bg: bool)
    ensures
        ({
            let ext: nat = if bg {
                48
            } else {
                38
            };
            match c {
                Color::Rgb(r, g, b) => color_code(c, bg) == sgr_params(seq![ext, 2, r as nat, g as nat, b as nat]),
                Color::Indexed(i) => color_code(c, bg) == sgr_params(seq![ext, 5, i as nat]),
                _ => exists|n: nat| #![trigger sgr(n)] color_code(c, bg) == sgr(n) && sgr(n) == sgr_params(seq![n]),
            }
        }),
{
    reveal_strlit("\x1b[48;5;");
    reveal_strlit("\x1b[38;5;");
    reveal_strlit("\x1b[48;2;");
    reveal_strlit("\x1b[38;2;");
    reveal_strlit("\x1b[");
    reveal_strlit(";");
    reveal_strlit("m");
    reveal_with_fuel(params_text, 6);
    let ext: nat = if bg {
        48
    } else {
        38
    };
    assert(decimal(ext / 10) =~= seq![crate::text::digit_char(ext / 10)]);
    assert(decimal(ext) =~= seq![crate::text::digit_char(ext / 10), crate::text::digit_char(ext % 10)]);
    assert(decimal(2) =~= seq![crate::text::digit_char(2)]);
    assert(decimal(5) =~= seq![crate::text::digit_char(5)]);
    match c {
        Color::Rgb(r, g, b) => {
            let ps = seq![ext, 2, r as nat, g as nat, b as nat];
            assert(ps.drop_first() =~= seq![2, r as nat, g as nat, b as nat]);
            assert(ps.drop_first().drop_first() =~= seq![r as nat, g as nat, b as nat]);
            assert(ps.drop_first().drop_first().drop_first() =~= seq![g as nat, b as nat]);
            assert(ps.drop_first().drop_first().drop_first().drop_first() =~= seq![b as nat]);
            assert(color_code(c, bg) =~= sgr_params(ps));
        },
        Color::Indexed(i) => {
            let ps = seq![ext, 5, i as nat];
            assert(ps.drop_first() =~= seq![5, i as nat]);
            assert(ps.drop_first().drop_first() =~= seq![i as nat]);
            assert(color_code(c, bg) =~= sgr_params(ps));
        },
        _ => {
            lemma_named_color_numbers(bg);
            lemma_background_is_ten_higher(c);
            let n = choose|n: nat| #![trigger sgr(n)] color_code(c, false) == sgr(n) && color_code(c, true) == sgr(n + 10);
            let m: nat = if bg { n + 10 } else { n };
            assert(sgr(m) =~= sgr_params(seq![m]));
        },
    }
}

/// No two different named colors are selected by the same sequence, for
/// the foreground or for the background.
pub proof fn lemma_named_colors_distinct(c1: Color, c2: Color, bg: bool)
    requires
        is_named(c1),
        is_named(c2),
        c1 != c2,
    ensures
        color_code(c1, bg) != color_code(c2, bg),
{
    lemma_named_color_numbers(bg);
    lemma_sgr_injective();
}

/// Appends the escape sequence that selects `c` for the foreground, or for
/// the background when `bg`.
pub fn emit_color(out: &mut String, c: Color, bg: bool)
    ensures
        final(out)@ == old(out)@ + color_code(c, bg),
{
    let (base, bright, prefix_256, prefix_rgb) = if bg {
        (40u8, 100u8, "\x1b[48;5;", "\x1b[48;2;")
    } else {
        (30u8, 90u8, "\x1b[38;5;", "\x1b[38;2;")
    };
    match c {
        Color::Reset => out.append(
            if bg {
                "\x1b[49m"
            } else {
                "\x1b[39m"
            },
        ),
        Color::Black => push_sgr(out, base),
        Color::Red => push_sgr(out, base + 1),
        Color::Green => push_sgr(out, base + 2),
        Color::Yellow => push_sgr(out, base + 3),
        Color::Blue => push_sgr(out, base + 4),
        Color::Magenta => push_sgr(out, base + 5),
        Color::Cyan => push_sgr(out, base + 6),
        Color::Gray => push_sgr(out, base + 7),
        Color::DarkGray => push_sgr(out, bright),
        Color::LightRed => push_sgr(out, bright + 1),
        Color::LightGreen => push_sgr(out, bright + 2),
        Color::LightYellow => push_sgr(out, bright + 3),
        Color::LightBlue => push_sgr(out, bright + 4),
        Color::LightMagenta => push_sgr(out, bright + 5),
        Color::LightCyan => push_sgr(out, bright + 6),
        Color::White => push_sgr(out, bright + 7),
        Color::Indexed(i) => {
            out.append(prefix_256);
            push_decimal(out, i as u128);
            out.append("m");
        },
        Color::Rgb(r, g, b) => {
            out.append(prefix_rgb);
            push_decimal(out, r as u128);
            out.append(";");
            push_decimal(out, g as u128);
            out.append(";");
            push_decimal(out, b as u128);
            out.append("m");
        },
    }
}

fn push_flag(out: &mut String, on: bool, code: &str)
    ensures
        final(out)@ == old(out)@ + flag_code(on, code@),
{
    if on {
        out.append(code);
    } else {
        assert(out@ =~= old(out)@ + flag_code(on, code@));
    }
}

fn push_color(out: &mut String, c: Option<Color>, bg: bool)
    ensures
        final(out)@ == old(out)@ + opt_color_code(c, bg),
{
    match c {
        Some(k) => emit_color(out, k, bg),
        None => {
            assert(out@ =~= old(out)@ + opt_color_code(c, bg));
        },
    }
}

/// Appends the escape sequences of a style.
pub fn emit_style(out: &mut String, s: Style)
    ensures
        final(out)@ == old(out)@ + style_code(s),
{
    let ghost start = out@;
    let m = s.modifiers;
    push_color(out, s.fg, false);
    let ghost p = opt_color_code(s.fg, false);
    push_color(out, s.bg, true);
    proof {
        vstd::seq_lib::lemma_concat_associative(start, p, opt_color_code(s.bg, true));
        p = p + opt_color_code(s.bg, true);
    }
    push_flag(out, m & BOLD == BOLD, "\x1b[1m");
    proof {
        let q = flag_code(m & BOLD == BOLD, "\x1b[1m"@);
        vstd::seq_lib::lemma_concat_associative(start, p, q);
        p = p + q;
    }
    push_flag(out, m & DIM == DIM, "\x1b[2m");
    proof {
        let q = flag_code(m & DIM == DIM, "\x1b[2m"@);
        vstd::seq_lib::lemma_concat_associative(start, p, q);
        p = p + q;
    }
    push_flag(out, m & ITALIC == ITALIC, "\x1b[3m");
    proof {
        let q = flag_code(m & ITALIC == ITALIC, "\x1b[3m"@);
        vstd::seq_lib::lemma_concat_associative(start, p, q);
        p = p + q;
    }
    push_flag(out, m & UNDERLINED == UNDERLINED, "\x1b[4m");
    proof {
        let q = flag_code(m & UNDERLINED == UNDERLINED, "\x1b[4m"@);
        vstd::seq_lib::lemma_concat_associative(start, p, q);
        p = p + q;
    }
    push_flag(out, m & REVERSED == REVERSED, "\x1b[7m");
    proof {
        let q = flag_code(m & REVERSED == REVERSED, "\x1b[7m"@);
        vstd::seq_lib::lemma_concat_associative(start, p, q);
        p = p + q;
    }
    assert(p == style_code(s));
}

/// An uppercase hexadecimal digit.
pub open spec fn hex_digit(d: nat) -> char {
    if d < 10 {
        (48 + d) as char
    } else {
        (55 + d) as char
    }
}

/// A byte as two uppercase hexadecimal digits.
pub open spec fn hex_byte(b: u8) -> Seq<char> {
    seq![hex_digit((b / 16) as nat), hex_digit((b % 16) as nat)]
}

/// The name by which the frame buffer reports a color: the variant's name,
/// `#RRGGBB` in uppercase hexadecimal, or the 256-color index in decimal.
pub open spec fn color_name(c: Color) -> Seq<char> {
    match c {
        Color::Reset => "Reset"@,
        Color::Black => "Black"@,
        Color::Red => "Red"@,
        Color::Green => "Green"@,
        Color::Yellow => "Yellow"@,
        Color::Blue => "Blue"@,
        Color::Magenta => "Magenta"@,
        Color::Cyan => "Cyan"@,
        Color::Gray => "Gray"@,
        Color::DarkGray => "DarkGray"@,
        Color::LightRed => "LightRed"@,
        Color::LightGreen => "LightGreen"@,
        Color::LightYellow => "LightYellow"@,
        Color::LightBlue => "LightBlue"@,
        Color::LightMagenta => "LightMagenta"@,
        Color::LightCyan => "LightCyan"@,
        Color::White => "White"@,
        Color::Rgb(r, g, b) => seq!['#'] + hex_byte(r) + hex_byte(g) + hex_byte(b),
        Color::Indexed(i) => decimal(i as nat),
    }
}


fn hex_char(d: u8) -> (c: char)
    requires
        d < 16,
    ensures
        c == hex_digit(d as nat),
{
    if d < 10 {
        (48u8 + d) as char
    } else {
        (55u8 + d) as char
    }
}

fn push_hex_byte(out: &mut String, b: u8)
    ensures
        final(out)@ == old(out)@ + hex_byte(b),
{
    out.push(hex_char(b / 16));
    out.push(hex_char(b % 16));
    assert(out@ =~= old(out)@ + hex_byte(b));
}

/// The name by which the frame buffer reports color `c`.
pub fn color_name_string(c: Color) -> (s: String)
    ensures
        s@ == color_name(c),
{
    match c {
        Color::Reset => String::from_str("Reset"),
        Color::Black => String::from_str("Black"),
        Color::Red => String::from_str("Red"),
        Color::Green => String::from_str("Green"),
        Color::Yellow => String::from_str("Yellow"),
        Color::Blue => String::from_str("Blue"),
        Color::Magenta => String::from_str("Magenta"),
        Color::Cyan => String::from_str("Cyan"),
        Color::Gray => String::from_str("Gray"),
        Color::DarkGray => String::from_str("DarkGray"),
        Color::LightRed => String::from_str("LightRed"),
        Color::LightGreen => String::from_str("LightGreen"),
        Color::LightYellow => String::from_str("LightYellow"),
        Color::LightBlue => String::from_str("LightBlue"),
        Color::LightMagenta => String::from_str("LightMagenta"),
        Color::LightCyan => String::from_str("LightCyan"),
        Color::White => String::from_str("White"),
        Color::Rgb(r, g, b) => {
            let mut s = String::new();
            s.push('#');
            push_hex_byte(&mut s, r);
            push_hex_byte(&mut s, g);
            push_hex_byte(&mut s, b);
            assert(s@ =~= color_name(c));
            s
        },
        Color::Indexed(i) => {
            let mut s = String::new();
            push_decimal(&mut s, i as u128);
            assert(s@ =~= color_name(c));
            s
        },
    }
}

fn hex_value(ch: char) -> (r: Option<u8>)
    ensures
        r matches Some(v) ==> v < 16 && hex_digit(v as nat) == ch,
        forall|d: nat| d < 16 && hex_digit(d) == ch ==> r == Some(d as u8),
{
    if '0' <= ch && ch <= '9' {
        Some((ch as u32 - 48) as u8)
    } else if 'A' <= ch && ch <= 'F' {
        Some((ch as u32 - 55) as u8)
    } else {
        None
    }
}

proof fn lemma_digit_code(d: nat)
    requires
        d < 10,
    ensures
        crate::text::digit_char(d) as int == 48 + d,
{
}

proof fn lemma_digits_injective()
    ensures
        forall|a: nat, b: nat|
            a < 10 && b < 10 && #[trigger] crate::text::digit_char(a) == #[trigger] crate::text::digit_char(b)
                ==> a == b,
{
    assert forall|a: nat, b: nat|
        a < 10 && b < 10 && #[trigger] crate::text::digit_char(a) == #[trigger] crate::text::digit_char(b)
        implies a == b by {
        lemma_digit_code(a);
        lemma_digit_code(b);
    }
}

fn decimal_value(ch: char) -> (r: Option<u8>)
    ensures
        r matches Some(v) ==> v < 10 && crate::text::digit_char(v as nat) == ch,
        forall|d: nat| d < 10 && crate::text::digit_char(d) == ch ==> r == Some(d as u8),
{
    if '0' <= ch && ch <= '9' {
        Some((ch as u32 - 48) as u8)
    } else {
        None
    }
}

proof fn lemma_decimal_byte(v: nat)
    requires
        v <= 255,
    ensures
        v < 10 ==> decimal(v) == seq![crate::text::digit_char(v)],
        10 <= v < 100 ==> decimal(v) == seq![
            crate::text::digit_char(v / 10),
            crate::text::digit_char(v % 10),
        ],
        100 <= v ==> decimal(v) == seq![
            crate::text::digit_char(v / 100),
            crate::text::digit_char((v / 10) % 10),
            crate::text::digit_char(v % 10),
        ],
{
    if v >= 10 {
        assert(decimal(v) == decimal(v / 10).push(crate::text::digit_char(v % 10)));
        if v >= 100 {
            assert(v / 10 >= 10);
            assert((v / 10) / 10 == v / 100);
            assert(decimal(v / 10) == decimal(v / 100).push(crate::text::digit_char((v / 10) % 10)));
        }
    }
}

fn parse_byte_decimal(name: &String) -> (r: Option<u8>)
    ensures
        r matches Some(v) ==> decimal(v as nat) == name@,
        forall|v: u8| decimal(v as nat) == name@ ==> r == Some(v),
{
    let text = name.as_str();
    let n = text.unicode_len();
    proof {
        assert forall|v: u8| decimal(v as nat) == name@ implies 1 <= name@.len() <= 3 by {
            lemma_decimal_byte(v as nat);
        }
    }
    if n == 0 || n > 3 {
        return None;
    }
    let mut value: u32 = 0;
    let mut i: usize = 0;
    let mut digits: Vec<u8> = Vec::new();
    while i < n
        invariant
            n == name@.len(),
            text@ == name@,
            n <= 3,
            i <= n,
            digits@.len() == i,
            forall|k: int|
                #![trigger digits@[k]]
                0 <= k < i ==> digits@[k] < 10 && crate::text::digit_char(digits@[k] as nat) == name@[k],
        decreases n - i,
    {
        let ch = text.get_char(i);
        match decimal_value(ch) {
            Some(d) => {
                let ghost before = digits@;
                assert(ch == name@[i as int]);
                assert(crate::text::digit_char(d as nat) == ch);
                assert(d < 10);
                digits.push(d);
                assert(digits@[i as int] == d);
                assert forall|k: int| 0 <= k < i + 1 implies digits@[k] < 10
                    && crate::text::digit_char(digits@[k] as nat) == name@[k] by {
                    if k < i {
                        assert(digits@[k] == before[k]);
                    } else {
                        assert(k == i);
                        assert(digits@[k] == d);
                        assert(name@[k] == ch);
                    }
                }
            },
            None => {
                proof {
                    assert forall|v: u8| decimal(v as nat) != name@ by {
                        lemma_decimal_byte(v as nat);
                        if decimal(v as nat) == name@ {
                            let vv = v as nat;
                            if vv < 10 {
                                assert(name@[i as int] == crate::text::digit_char(vv));
                            } else if vv < 100 {
                                if i == 0 {
                                    assert(name@[0] == crate::text::digit_char(vv / 10));
                                } else {
                                    assert(name@[1] == crate::text::digit_char(vv % 10));
                                }
                            } else {
                                if i == 0 {
                                    assert(name@[0] == crate::text::digit_char(vv / 100));
                                } else if i == 1 {
                                    assert(name@[1] == crate::text::digit_char((vv / 10) % 10));
                                } else {
                                    assert(name@[2] == crate::text::digit_char(vv % 10));
                                }
                            }
                        }
                    }
                }
                return None;
            },
        }
        i = i + 1;
    }
    let v: u32 = if n == 1 {
        digits[0] as u32
    } else if n == 2 {
        digits[0] as u32 * 10 + digits[1] as u32
    } else {
        digits[0] as u32 * 100 + digits[1] as u32 * 10 + digits[2] as u32
    };
    if (n > 1 && digits[0] == 0) || v > 255 {
        proof {
            lemma_digits_injective();
            assert forall|w: u8| decimal(w as nat) != name@ by {
                lemma_decimal_byte(w as nat);
                if decimal(w as nat) == name@ {
                    let ww = w as nat;
                    if n == 2 {
                        assert(crate::text::digit_char(digits@[0] as nat) == crate::text::digit_char(ww / 10));
                        assert(crate::text::digit_char(digits@[1] as nat) == crate::text::digit_char(ww % 10));
                    } else if n == 3 {
                        assert(crate::text::digit_char(digits@[0] as nat) == crate::text::digit_char(ww / 100));
                        assert(crate::text::digit_char(digits@[1] as nat) == crate::text::digit_char((ww / 10) % 10));
                        assert(crate::text::digit_char(digits@[2] as nat) == crate::text::digit_char(ww % 10));
                    }
                }
            }
        }
        return None;
    }
    let b = v as u8;
    proof {
        lemma_digits_injective();
        lemma_decimal_byte(b as nat);
        assert(decimal(b as nat) =~= name@);
        assert forall|w: u8| decimal(w as nat) == name@ implies w == b by {
            lemma_decimal_byte(w as nat);
            let ww = w as nat;
            if n == 1 {
                assert(crate::text::digit_char(digits@[0] as nat) == crate::text::digit_char(ww));
            } else if n == 2 {
                assert(crate::text::digit_char(digits@[0] as nat) == crate::text::digit_char(ww / 10));
                assert(crate::text::digit_char(digits@[1] as nat) == crate::text::digit_char(ww % 10));
            } else {
                assert(crate::text::digit_char(digits@[0] as nat) == crate::text::digit_char(ww / 100));
                assert(crate::text::digit_char(digits@[1] as nat) == crate::text::digit_char((ww / 10) % 10));
                assert(crate::text::digit_char(digits@[2] as nat) == crate::text::digit_char(ww % 10));
            }
        }
    }
    Some(b)
}

proof fn lemma_hex_injective()
    ensures
        forall|a: nat, b: nat|
            a < 16 && b < 16 && #[trigger] hex_digit(a) == #[trigger] hex_digit(b) ==> a == b,
{
    assert forall|a: nat, b: nat|
        a < 16 && b < 16 && #[trigger] hex_digit(a) == #[trigger] hex_digit(b) implies a == b by {
        let ca = hex_digit(a) as int;
        let cb = hex_digit(b) as int;
        assert(ca == if a < 10 { 48 + a } else { 55 + a });
        assert(cb == if b < 10 { 48 + b } else { 55 + b });
    }
}

proof fn lemma_hex_byte(hi: nat, lo: nat)
    requires
        hi < 16,
        lo < 16,
    ensures
        (16 * hi + lo) <= 255,
        hex_byte((16 * hi + lo) as u8) == seq![hex_digit(hi), hex_digit(lo)],
{
    let v = 16 * hi + lo;
    assert(v / 16 == hi && v % 16 == lo) by (nonlinear_arith)
        requires
            v == 16 * hi + lo,
            hi < 16,
            lo < 16,
    ;
}

fn hex_pair(text: &str, at: usize) -> (r: Option<u8>)
    requires
        at + 1 < text@.len(),
        at < 6,
    ensures
        r matches Some(v) ==> hex_byte(v) == text@.subrange(at as int, at + 2),
        forall|v: u8| hex_byte(v) == text@.subrange(at as int, at + 2) ==> r == Some(v),
{
    let hi = hex_value(text.get_char(at));
    let lo = hex_value(text.get_char(at + 1));
    proof {
        lemma_hex_injective();
        assert forall|v: u8| hex_byte(v) == text@.subrange(at as int, at + 2) implies hi == Some(
            (v / 16) as u8,
        ) && lo == Some((v % 16) as u8) by {
            assert(hex_byte(v)[0] == text@[at as int]);
            assert(hex_byte(v)[1] == text@[at + 1]);
        }
    }
    match (hi, lo) {
        (Some(h), Some(l)) => {
            let v = h * 16 + l;
            proof {
                lemma_hex_byte(h as nat, l as nat);
                assert(hex_byte(v) =~= text@.subrange(at as int, at + 2));
                assert forall|w: u8| hex_byte(w) == text@.subrange(at as int, at + 2) implies w == v by {
                    assert(w / 16 == h && w % 16 == l);
                }
            }
            Some(v)
        },
        _ => None,
    }
}

fn parse_rgb_name(name: &String) -> (r: Option<(u8, u8, u8)>)
    ensures
        r matches Some((x, y, z)) ==> color_name(Color::Rgb(x, y, z)) == name@,
        forall|x: u8, y: u8, z: u8|
            color_name(Color::Rgb(x, y, z)) == name@ ==> r == Some((x, y, z)),
{
    let text = name.as_str();
    let n = text.unicode_len();
    if n != 7 || text.get_char(0) != '#' {
        proof {
            assert forall|x: u8, y: u8, z: u8| color_name(Color::Rgb(x, y, z)) != name@ by {
                let s = color_name(Color::Rgb(x, y, z));
                assert(s.len() == 7);
                assert(s[0] == '#');
            }
        }
        return None;
    }
    let x = hex_pair(text, 1);
    let y = hex_pair(text, 3);
    let z = hex_pair(text, 5);
    proof {
        assert forall|a: u8, b: u8, c: u8| color_name(Color::Rgb(a, b, c)) == name@ implies x == Some(
            a,
        ) && y == Some(b) && z == Some(c) by {
            let s = color_name(Color::Rgb(a, b, c));
            assert(hex_byte(a) =~= s.subrange(1, 3));
            assert(hex_byte(b) =~= s.subrange(3, 5));
            assert(hex_byte(c) =~= s.subrange(5, 7));
        }
    }
    match (x, y, z) {
        (Some(a), Some(b), Some(c)) => {
            assert(color_name(Color::Rgb(a, b, c)) =~= name@);
            Some((a, b, c))
        },
        _ => None,
    }
}

proof fn lemma_decimal_byte_facts(v: u8)
    ensures
        1 <= decimal(v as nat).len() <= 3,
        48 <= decimal(v as nat)[0] as int <= 57,
{
    let n = v as nat;
    lemma_decimal_byte(n);
    if n < 10 {
        lemma_digit_code(n);
    } else if n < 100 {
        lemma_digit_code(n / 10);
    } else {
        lemma_digit_code(n / 100);
    }
}

/// Different colors have different names.
pub proof fn lemma_color_name_injective(c1: Color, c2: Color)
    requires
        color_name(c1) == color_name(c2),
    ensures
        c1 == c2,
{
    reveal_strlit("Reset");
    reveal_strlit("Black");
    reveal_strlit("Red");
    reveal_strlit("Green");
    reveal_strlit("Yellow");
    reveal_strlit("Blue");
    reveal_strlit("Magenta");
    reveal_strlit("Cyan");
    reveal_strlit("Gray");
    reveal_strlit("DarkGray");
    reveal_strlit("LightRed");
    reveal_strlit("LightGreen");
    reveal_strlit("LightYellow");
    reveal_strlit("LightBlue");
    reveal_strlit("LightMagenta");
    reveal_strlit("LightCyan");
    reveal_strlit("White");
    let s = color_name(c1);
    let k0 = s[0];
    let k5 = s[5];
    assert("Reset"@[0] == 'R' && "Black"@[0] == 'B' && "Green"@[0] == 'G' && "White"@[0] == 'W');
    assert("Blue"@[0] == 'B' && "Cyan"@[0] == 'C' && "Gray"@[0] == 'G');
    assert("DarkGray"@[0] == 'D' && "LightRed"@[0] == 'L' && "Red"@[0] == 'R');
    assert("LightBlue"@[5] == 'B' && "LightCyan"@[5] == 'C' && "Magenta"@[0] == 'M');
    if let Color::Indexed(i) = c1 {
        lemma_decimal_byte_facts(i);
    }
    if let Color::Indexed(i) = c2 {
        lemma_decimal_byte_facts(i);
    }
    if c1 is Rgb {
        assert(color_name(c1)[0] == '#' && color_name(c1).len() == 7);
    }
    if c2 is Rgb {
        assert(color_name(c2)[0] == '#' && color_name(c2).len() == 7);
    }
    assert(color_name(c1).len() == color_name(c2).len());
    assert(color_name(c1)[0] == color_name(c2)[0]);
    assert(color_name(c1)[5] == color_name(c2)[5]);
    match (c1, c2) {
        (Color::Rgb(r1, g1, b1), Color::Rgb(r2, g2, b2)) => {
            lemma_hex_injective();
            assert(s.subrange(1, 3) =~= hex_byte(r1) && s.subrange(1, 3) =~= hex_byte(r2));
            assert(s.subrange(3, 5) =~= hex_byte(g1) && s.subrange(3, 5) =~= hex_byte(g2));
            assert(s.subrange(5, 7) =~= hex_byte(b1) && s.subrange(5, 7) =~= hex_byte(b2));
            assert(hex_byte(r1)[0] == hex_byte(r2)[0] && hex_byte(r1)[1] == hex_byte(r2)[1]);
            assert(hex_byte(g1)[0] == hex_byte(g2)[0] && hex_byte(g1)[1] == hex_byte(g2)[1]);
            assert(hex_byte(b1)[0] == hex_byte(b2)[0] && hex_byte(b1)[1] == hex_byte(b2)[1]);
        },
        (Color::Indexed(i1), Color::Indexed(i2)) => {
            lemma_digits_injective();
            lemma_decimal_byte(i1 as nat);
            lemma_decimal_byte(i2 as nat);
            let a = i1 as nat;
            let b = i2 as nat;
            if a < 10 {
                assert(s[0] == crate::text::digit_char(a));
            }
            if 10 <= a < 100 {
                assert(s[0] == crate::text::digit_char(a / 10));
                assert(s[1] == crate::text::digit_char(a % 10));
            }
            if 100 <= a {
                assert(s[0] == crate::text::digit_char(a / 100));
                assert(s[1] == crate::text::digit_char((a / 10) % 10));
                assert(s[2] == crate::text::digit_char(a % 10));
            }
        },
        _ => {},
    }
}

fn named(name: &String, c: Color) -> (b: bool)
    ensures
        b == (color_name(c) == name@),
{
    name.eq(&color_name_string(c))
}

/// The color that the frame buffer reports by `name`, if `name` is the
/// name of a color.
pub fn parse_color_name(name: &String) -> (r: Option<Color>)
    ensures
        r matches Some(c) ==> color_name(c) == name@,
        forall|c: Color| color_name(c) == name@ ==> r == Some(c),
{
    proof {
        assert forall|c1: Color, c2: Color| color_name(c1) == color_name(c2) implies c1 == c2 by {
            lemma_color_name_injective(c1, c2);
        }
    }
    if named(name, Color::Reset) {
        return Some(Color::Reset);
    }
    if named(name, Color::Black) {
        return Some(Color::Black);
    }
    if named(name, Color::Red) {
        return Some(Color::Red);
    }
    if named(name, Color::Green) {
        return Some(Color::Green);
    }
    if named(name, Color::Yellow) {
        return Some(Color::Yellow);
    }
    if named(name, Color::Blue) {
        return Some(Color::Blue);
    }
    if named(name, Color::Magenta) {
        return Some(Color::Magenta);
    }
    if named(name, Color::Cyan) {
        return Some(Color::Cyan);
    }
    if named(name, Color::Gray) {
        return Some(Color::Gray);
    }
    if named(name, Color::DarkGray) {
        return Some(Color::DarkGray);
    }
    if named(name, Color::LightRed) {
        return Some(Color::LightRed);
    }
    if named(name, Color::LightGreen) {
        return Some(Color::LightGreen);
    }
    if named(name, Color::LightYellow) {
        return Some(Color::LightYellow);
    }
    if named(name, Color::LightBlue) {
        return Some(Color::LightBlue);
    }
    if named(name, Color::LightMagenta) {
        return Some(Color::LightMagenta);
    }
    if named(name, Color::LightCyan) {
        return Some(Color::LightCyan);
    }
    if named(name, Color::White) {
        return Some(Color::White);
    }
    if let Some((x, y, z)) = parse_rgb_name(name) {
        return Some(Color::Rgb(x, y, z));
    }
    match parse_byte_decimal(name) {
        Some(i) => Some(Color::Indexed(i)),
        None => None,
    }
}

/// The style of a cell: both colors set, its modifiers added.
pub open spec fn cell_style(c: CellModel) -> Style {
    Style { fg: Some(c.fg), bg: Some(c.bg), modifiers: c.modifiers }
}

/// The text written so far and the style last selected.
pub type Emitted = (Seq<char>, Option<Style>);

/// Writes the cell at `p`, if the buffer has one there: a reset and the
/// cell's style where it differs from the last one selected, then its symbol.
pub open spec fn cell_step(acc: Emitted, cells: Map<(u16, u16), CellModel>, p: (u16, u16)) -> Emitted {
    if cells.dom().contains(p) {
        let c = cells[p];
        let st = cell_style(c);
        if acc.1 != Some(st) {
            (acc.0 + "\x1b[0m"@ + style_code(st) + c.symbol, Some(st))
        } else {
            (acc.0 + c.symbol, acc.1)
        }
    } else {
        acc
    }
}

/// Writes the first `n` cells of row `y`, from column 0.
pub open spec fn row_run(cells: Map<(u16, u16), CellModel>, y: u16, n: nat, start: Emitted) -> Emitted
    decreases n,
{
    if n == 0 {
        start
    } else {
        cell_step(row_run(cells, y, (n - 1) as nat, start), cells, ((n - 1) as u16, y))
    }
}

/// Writes the first `n` rows, each after a move to its first column.
pub open spec fn rows_run(cells: Map<(u16, u16), CellModel>, width: u16, n: nat) -> Emitted
    decreases n,
{
    if n == 0 {
        ("\x1b[H"@, None)
    } else {
        let a = rows_run(cells, width, (n - 1) as nat);
        row_run(cells, (n - 1) as u16, width as nat, (a.0 + "\x1b["@ + decimal(n) + ";1H"@, a.1))
    }
}

/// The text that draws a buffer on the terminal: home, then row after row
/// each cell's symbol, a style change written only where the style differs
/// from the previous cell's, and a final reset.
pub open spec fn frame_text(bounds: Area, cells: Map<(u16, u16), CellModel>) -> Seq<char> {
    rows_run(cells, bounds.width, bounds.height as nat).0 + "\x1b[0m"@
}

fn parsed_color(name: &String, Ghost(c): Ghost<Color>) -> (r: Color)
    requires
        name@ == color_name(c),
    ensures
        r == c,
{
    match parse_color_name(name) {
        Some(k) => k,
        None => Color::Reset,
    }
}

/// The escape sequences that draw `buf` on the terminal.
pub fn flush(buf: &Buffer) -> (out: String)
    ensures
        out@ == frame_text(buffer_bounds(*buf), buffer_cells(*buf)),
{
    let ghost cells = buffer_cells(*buf);
    let area = buffer_area(buf);
    let mut out = String::new();
    out.append("\x1b[H");
    let mut last_style: Option<Style> = None;
    let mut y: u16 = 0;
    while y < area.height
        invariant
            cells == buffer_cells(*buf),
            area == buffer_bounds(*buf),
            y <= area.height,
            (out@, last_style) == rows_run(cells, area.width, y as nat),
        decreases area.height - y,
    {
        let ghost before = rows_run(cells, area.width, y as nat);
        out.append("\x1b[");
        push_decimal(&mut out, y as u128 + 1);
        out.append(";1H");
        let ghost start: Emitted = (out@, last_style);
        assert(start == (before.0 + "\x1b["@ + decimal(y as nat + 1) + ";1H"@, before.1));
        let mut x: u16 = 0;
        while x < area.width
            invariant
                cells == buffer_cells(*buf),
                area == buffer_bounds(*buf),
                y < area.height,
                x <= area.width,
                (out@, last_style) == row_run(cells, y, x as nat, start),
            decreases area.width - x,
        {
            match cell_at(buf, x, y) {
                None => {},
                Some(cell) => {
                    let ghost m = cells[(x, y)];
                    let fg = parsed_color(&cell.fg, Ghost(m.fg));
                    let bg = parsed_color(&cell.bg, Ghost(m.bg));
                    let style = Style { fg: Some(fg), bg: Some(bg), modifiers: cell.modifiers };
                    assert(style == cell_style(m));
                    if last_style != Some(style) {
                        out.append("\x1b[0m");
                        emit_style(&mut out, style);
                        last_style = Some(style);
                    }
                    out.append(cell.symbol.as_str());
                },
            }
            x = x + 1;
        }
        y = y + 1;
    }
    out.append("\x1b[0m");
    out
}

} // verus!
