//! The plugin's configuration: the scrollback depth profiles and the size of
//! the float.
//!
//! `profiles` is a comma-separated list whose items are `viewport` (the
//! visible area only) or a positive number of lines; items of another form
//! are skipped, and where none is left the default list
//! `viewport,200,2000` applies. `size` is `WIDTHxHEIGHT`, each a percentage
//! (`90%`) or a count of cells (`200`); a width given as a percentage is
//! centred horizontally. The `color_*` keys set the theme's colors, each
//! a hex string `#rrggbb` or `rrggbb`.

use vstd::prelude::*;
use vstd::string::StrSliceExecFns;
use crate::text::{decimal, push_decimal};
use crate::render::Color;

verus! {

/// How much scrollback a capture takes.
#[derive(Clone, Copy, PartialEq, Eq, Structural, Debug)]
pub enum Profile {
    /// The visible area of the pane only.
    Viewport,
    /// At most this many of the last lines, scrollback included.
    Lines(usize),
}

/// One dimension of the float.
#[derive(Clone, Copy, PartialEq, Eq, Structural, Debug)]
pub enum Dim {
    /// A percentage of the screen, 1 to 100.
    Percent(usize),
    /// A count of cells, at least 1.
    Cells(usize),
}

/// Where the float goes and how large it is; `x` is `None` where the host's
/// placement is kept.
#[derive(Clone, Copy, PartialEq, Eq, Structural, Debug)]
pub struct FloatSize {
    pub x: Option<Dim>,
    pub width: Dim,
    pub height: Dim,
}

pub open spec fn is_digit(c: char) -> bool {
    '0' <= c <= '9'
}

pub open spec fn all_digits(t: Seq<char>) -> bool {
    forall|i: int| 0 <= i < t.len() ==> #[trigger] is_digit(t[i])
}

/// The number written by the decimal digits `t`.
pub open spec fn digits_value(t: Seq<char>) -> nat
    decreases t.len(),
{
    if t.len() == 0 {
        0
    } else {
        digits_value(t.drop_last()) * 10 + ((t.last() as int) - ('0' as int)) as nat
    }
}

/// The number `t` writes, where it is a non-empty run of decimal digits
/// whose value fits in a `usize`.
pub open spec fn number(t: Seq<char>) -> Option<usize> {
    if t.len() > 0 && all_digits(t) && digits_value(t) <= usize::MAX {
        Some(digits_value(t) as usize)
    } else {
        None
    }
}

/// The index of the first `sep` in `s`, or its length where there is none.
pub open spec fn sep_index(s: Seq<char>, sep: char) -> nat
    decreases s.len(),
{
    if s.len() == 0 {
        0
    } else if s[0] == sep {
        0
    } else {
        1 + sep_index(s.drop_first(), sep)
    }
}

/// The profile an item of the list names, if any.
pub open spec fn item_profile(t: Seq<char>) -> Option<Profile> {
    if t == "viewport"@ {
        Some(Profile::Viewport)
    } else {
        match number(t) {
            Some(n) => if n > 0 {
                Some(Profile::Lines(n))
            } else {
                None
            },
            None => None,
        }
    }
}

/// The profiles a comma-separated list names, in its order.
pub open spec fn profiles_in(s: Seq<char>) -> Seq<Profile>
    decreases s.len(),
{
    let c = sep_index(s, ',');
    let head = match item_profile(s.subrange(0, c as int)) {
        Some(p) => seq![p],
        None => Seq::empty(),
    };
    if c < s.len() {
        head + profiles_in(s.subrange(c + 1 as int, s.len() as int))
    } else {
        head
    }
}

/// The profiles used where none is configured.
pub open spec fn default_profiles() -> Seq<Profile> {
    seq![Profile::Viewport, Profile::Lines(200), Profile::Lines(2000)]
}

/// The profiles of the configuration: those the `profiles` value names,
/// else the default ones.
pub open spec fn configured_profiles(config: Option<Seq<char>>) -> Seq<Profile> {
    match config {
        Some(s) => if profiles_in(s).len() > 0 {
            profiles_in(s)
        } else {
            default_profiles()
        },
        None => default_profiles(),
    }
}

/// The footer's name of a profile.
pub open spec fn profile_label(p: Profile) -> Seq<char> {
    match p {
        Profile::Viewport => "[viewport]"@,
        Profile::Lines(n) => "["@ + decimal(n as nat) + "]"@,
    }
}

/// Whether a capture for this profile asks for the lines above the viewport.
pub open spec fn wants_full(p: Profile) -> bool {
    p is Lines
}

/// One dimension: a percentage from 1 to 100, or a positive count of cells.
pub open spec fn dim_of(t: Seq<char>) -> Option<Dim> {
    if t.len() > 0 && t.last() == '%' {
        match number(t.drop_last()) {
            Some(n) => if 0 < n <= 100 {
                Some(Dim::Percent(n))
            } else {
                None
            },
            None => None,
        }
    } else {
        match number(t) {
            Some(n) => if n > 0 {
                Some(Dim::Cells(n))
            } else {
                None
            },
            None => None,
        }
    }
}

/// The left edge that centres a float of this width, where it is a percentage.
pub open spec fn centred_x(width: Dim) -> Option<Dim> {
    match width {
        Dim::Percent(p) => Some(Dim::Percent(((100 - p) / 2) as usize)),
        Dim::Cells(_) => None,
    }
}

/// The float a `WIDTHxHEIGHT` value asks for, where both parts are valid.
pub open spec fn size_of(s: Seq<char>) -> Option<FloatSize> {
    let c = sep_index(s, 'x');
    if c < s.len() {
        match (dim_of(s.subrange(0, c as int)), dim_of(s.subrange(c + 1 as int, s.len() as int))) {
            (Some(w), Some(h)) => Some(FloatSize { x: centred_x(w), width: w, height: h }),
            _ => None,
        }
    } else {
        None
    }
}

/// The float of the configuration: none where `size` is missing or invalid.
pub open spec fn configured_size(config: Option<Seq<char>>) -> Option<FloatSize> {
    match config {
        Some(s) => size_of(s),
        None => None,
    }
}

/// A prefix of a run of digits writes at most what the whole run writes.
proof fn lemma_prefix_value_le(t: Seq<char>, k: int)
    requires
        0 <= k <= t.len(),
        all_digits(t),
    ensures
        digits_value(t.subrange(0, k)) <= digits_value(t),
    decreases t.len(),
{
    if k < t.len() {
        let d = t.drop_last();
        assert(all_digits(d)) by {
            assert forall|i: int| 0 <= i < d.len() implies #[trigger] is_digit(d[i]) by {
                assert(is_digit(t[i]));
            }
        }
        lemma_prefix_value_le(d, k);
        assert(d.subrange(0, k) =~= t.subrange(0, k));
    } else {
        assert(t.subrange(0, k) =~= t);
    }
}

/// `sep_index` is the position of the first separator.
proof fn lemma_sep_index(u: Seq<char>, sep: char, c: int)
    requires
        0 <= c <= u.len(),
        forall|k: int| 0 <= k < c ==> u[k] != sep,
        c == u.len() || u[c] == sep,
    ensures
        sep_index(u, sep) == c,
    decreases c,
{
    if c > 0 {
        lemma_sep_index(u.drop_first(), sep, c - 1);
    }
}

/// The number written by the characters `from..to` of `s`.
fn parse_number(s: &str, from: usize, to: usize) -> (r: Option<usize>)
    requires
        from <= to <= s@.len(),
    ensures
        r == number(s@.subrange(from as int, to as int)),
{
    let ghost t = s@.subrange(from as int, to as int);
    if from == to {
        return None;
    }
    let mut value: usize = 0;
    let mut i = from;
    while i < to
        invariant
            from <= i <= to <= s@.len(),
            t == s@.subrange(from as int, to as int),
            all_digits(s@.subrange(from as int, i as int)),
            value == digits_value(s@.subrange(from as int, i as int)),
        decreases to - i,
    {
        let ghost before = s@.subrange(from as int, i as int);
        let ghost after = s@.subrange(from as int, i + 1);
        assert(after.drop_last() =~= before);
        let c = s.get_char(i);
        if !('0' <= c && c <= '9') {
            assert(!is_digit(t[i - from]));
            return None;
        }
        let d = (c as u32 - '0' as u32) as usize;
        assert(d == (after.last() as int) - ('0' as int));
        let next = match value.checked_mul(10) {
            Some(v) => v.checked_add(d),
            None => None,
        };
        match next {
            Some(v) => {
                value = v;
            },
            None => {
                assert(digits_value(after) > usize::MAX);
                proof {
                    if all_digits(t) {
                        assert(t.subrange(0, i + 1 - from) =~= after);
                        lemma_prefix_value_le(t, i + 1 - from);
                    }
                }
                return None;
            },
        }
        assert(all_digits(after)) by {
            assert forall|k: int| 0 <= k < after.len() implies #[trigger] is_digit(after[k]) by {
                if k < before.len() {
                    assert(after[k] == before[k]);
                }
            }
        }
        i = i + 1;
    }
    assert(s@.subrange(from as int, i as int) =~= t);
    Some(value)
}

/// The index of the first `sep` in `s` at or after `from`, or its length.
fn find_sep(s: &str, from: usize, sep: char) -> (j: usize)
    requires
        from <= s@.len(),
    ensures
        from <= j <= s@.len(),
        sep_index(s@.subrange(from as int, s@.len() as int), sep) == j - from,
{
    let len = s.unicode_len();
    let mut j = from;
    while j < len && s.get_char(j) != sep
        invariant
            from <= j <= len == s@.len(),
            forall|k: int| from <= k < j ==> s@[k] != sep,
        decreases len - j,
    {
        j = j + 1;
    }
    proof {
        let u = s@.subrange(from as int, s@.len() as int);
        lemma_sep_index(u, sep, j - from);
    }
    j
}

fn item_profile_of(s: &str, from: usize, to: usize) -> (r: Option<Profile>)
    requires
        from <= to <= s@.len(),
    ensures
        r == item_profile(s@.subrange(from as int, to as int)),
{
    let item = s.substring_char(from, to);
    let viewport = "viewport";
    proof {
        reveal_strlit("viewport");
    }
    if item.unicode_len() == viewport.unicode_len() {
        let mut k: usize = 0;
        let mut same = true;
        while k < item.unicode_len()
            invariant
                item@.len() == viewport@.len() == 8,
                k <= item@.len(),
                same == (item@.subrange(0, k as int) =~= viewport@.subrange(0, k as int)),
            decreases item@.len() - k,
        {
            if item.get_char(k) != viewport.get_char(k) {
                same = false;
            }
            proof {
                assert(item@.subrange(0, k + 1).drop_last() =~= item@.subrange(0, k as int));
                assert(viewport@.subrange(0, k + 1).drop_last() =~= viewport@.subrange(0, k as int));
                if !(item@.subrange(0, k as int) =~= viewport@.subrange(0, k as int)) {
                    assert(!(item@.subrange(0, k + 1) =~= viewport@.subrange(0, k + 1))) by {
                        if item@.subrange(0, k + 1) =~= viewport@.subrange(0, k + 1) {
                            assert(item@.subrange(0, k + 1).drop_last() == viewport@.subrange(
                                0,
                                k + 1,
                            ).drop_last());
                        }
                    }
                }
                if item@[k as int] != viewport@[k as int] {
                    assert(item@.subrange(0, k + 1)[k as int] != viewport@.subrange(0, k + 1)[k as int]);
                }
            }
            k = k + 1;
        }
        assert(item@.subrange(0, 8) =~= item@);
        assert(viewport@.subrange(0, 8) =~= viewport@);
        if same {
            return Some(Profile::Viewport);
        }
    }
    match parse_number(s, from, to) {
        Some(n) => if n > 0 {
            Some(Profile::Lines(n))
        } else {
            None
        },
        None => None,
    }
}

/// The profiles a comma-separated list names, in its order.
pub fn parse_profiles(s: &str) -> (r: Vec<Profile>)
    ensures
        r@ == profiles_in(s@),
{
    let len = s.unicode_len();
    let mut out: Vec<Profile> = Vec::new();
    let mut start: usize = 0;
    assert(s@.subrange(0, len as int) =~= s@);
    loop
        invariant
            start <= len == s@.len(),
            profiles_in(s@) == out@ + profiles_in(s@.subrange(start as int, len as int)),
        decreases len - start,
    {
        let j = find_sep(s, start, ',');
        let ghost u = s@.subrange(start as int, len as int);
        assert(u.subrange(0, j - start) =~= s@.subrange(start as int, j as int));
        let item = item_profile_of(s, start, j);
        let ghost before = out@;
        if let Some(p) = item {
            out.push(p);
        }
        if j == len {
            assert(out@ =~= before + profiles_in(u));
            return out;
        }
        proof {
            assert(u.subrange(j - start + 1, u.len() as int) =~= s@.subrange(j + 1, len as int));
            assert(out@ + profiles_in(s@.subrange(j + 1, len as int)) =~= before + profiles_in(u));
        }
        start = j + 1;
    }
}

fn default_profile_list() -> (r: Vec<Profile>)
    ensures
        r@ == default_profiles(),
{
    let mut r: Vec<Profile> = Vec::new();
    r.push(Profile::Viewport);
    r.push(Profile::Lines(200));
    r.push(Profile::Lines(2000));
    assert(r@ =~= default_profiles());
    r
}

fn dim_between(s: &str, from: usize, to: usize) -> (r: Option<Dim>)
    requires
        from <= to <= s@.len(),
    ensures
        r == dim_of(s@.subrange(from as int, to as int)),
{
    let ghost t = s@.subrange(from as int, to as int);
    if from < to && s.get_char(to - 1) == '%' {
        assert(t.drop_last() =~= s@.subrange(from as int, to - 1));
        match parse_number(s, from, to - 1) {
            Some(n) => if 0 < n && n <= 100 {
                Some(Dim::Percent(n))
            } else {
                None
            },
            None => None,
        }
    } else {
        match parse_number(s, from, to) {
            Some(n) => if n > 0 {
                Some(Dim::Cells(n))
            } else {
                None
            },
            None => None,
        }
    }
}

/// The float a `WIDTHxHEIGHT` value asks for: `None` unless both parts are
/// valid. A width given as a percentage is centred.
pub fn parse_size(s: &str) -> (r: Option<FloatSize>)
    ensures
        r == size_of(s@),
{
    let len = s.unicode_len();
    let c = find_sep(s, 0, 'x');
    assert(s@.subrange(0, len as int) =~= s@);
    if c == len {
        return None;
    }
    let w = dim_between(s, 0, c);
    let h = dim_between(s, c + 1, len);
    match (w, h) {
        (Some(w), Some(h)) => {
            let x = match w {
                Dim::Percent(p) => Some(Dim::Percent((100 - p) / 2)),
                Dim::Cells(_) => None,
            };
            Some(FloatSize { x, width: w, height: h })
        },
        _ => None,
    }
}

/// The float the configuration's `size` value asks for.
pub fn size_from(config: &Option<String>) -> (r: Option<FloatSize>)
    ensures
        r == configured_size(crate::term::opt_chars(*config)),
{
    match config {
        Some(s) => parse_size(s.as_str()),
        None => None,
    }
}

/// The abstract state of [`Profiles`]: the list and the index of the one in use.
pub struct ProfilesModel {
    pub list: Seq<Profile>,
    pub current: int,
}

/// The list is not empty and the index points into it.
pub open spec fn valid_profiles(m: ProfilesModel) -> bool {
    m.list.len() > 0 && 0 <= m.current < m.list.len()
}

/// The profile in use.
pub open spec fn current_profile(m: ProfilesModel) -> Profile {
    m.list[m.current]
}

/// The next profile in the list, back to the first after the last.
pub open spec fn cycled(m: ProfilesModel) -> ProfilesModel {
    ProfilesModel {
        current: if m.current + 1 < m.list.len() {
            m.current + 1
        } else {
            0
        },
        ..m
    }
}

/// The profiles of the configuration with the first in use.
pub open spec fn configured(config: Option<Seq<char>>) -> ProfilesModel {
    ProfilesModel { list: configured_profiles(config), current: 0 }
}

/// After `k` cycles the profile in use is `k` further on, counted round the list.
pub proof fn lemma_cycle_times(m: ProfilesModel, k: nat)
    requires
        valid_profiles(m),
    ensures
        valid_profiles(cycle_times(m, k)),
        cycle_times(m, k).list == m.list,
        cycle_times(m, k).current == (m.current + k) % (m.list.len() as int),
    decreases k,
{
    let n = m.list.len() as int;
    if k == 0 {
        vstd::arithmetic::div_mod::lemma_small_mod(m.current as nat, n as nat);
    } else {
        lemma_cycle_times(m, (k - 1) as nat);
        let prev = (m.current + k - 1) % n;
        vstd::arithmetic::div_mod::lemma_add_mod_noop_right(1, m.current + k - 1, n);
        vstd::arithmetic::div_mod::lemma_mod_bound(m.current + k - 1, n);
        if prev + 1 < n {
            vstd::arithmetic::div_mod::lemma_small_mod((prev + 1) as nat, n as nat);
        } else {
            vstd::arithmetic::div_mod::lemma_mod_self_0(n);
        }
    }
}

/// Cycling as many times as there are profiles comes back to the profile
/// in use.
pub proof fn lemma_cycle_returns(m: ProfilesModel)
    requires
        valid_profiles(m),
    ensures
        cycle_times(m, m.list.len()) == m,
{
    lemma_cycle_times(m, m.list.len());
    vstd::arithmetic::div_mod::lemma_mod_add_multiples_vanish(m.current, m.list.len() as int);
    vstd::arithmetic::div_mod::lemma_small_mod(m.current as nat, m.list.len());
}

/// `m` cycled `k` times.
pub open spec fn cycle_times(m: ProfilesModel, k: nat) -> ProfilesModel
    decreases k,
{
    if k == 0 {
        m
    } else {
        cycled(cycle_times(m, (k - 1) as nat))
    }
}

/// The depth profiles and the one in use.
pub struct Profiles {
    list: Vec<Profile>,
    current: usize,
}

impl View for Profiles {
    type V = ProfilesModel;

    closed spec fn view(&self) -> ProfilesModel {
        ProfilesModel { list: self.list@, current: self.current as int }
    }
}

impl Profiles {
    #[verifier::type_invariant]
    closed spec fn inv(self) -> bool {
        valid_profiles(self@)
    }

    /// The profiles of the configuration's `profiles` value, the first in use.
    pub fn from_config(config: &Option<String>) -> (p: Profiles)
        ensures
            p@ == configured(crate::term::opt_chars(*config)),
    {
        let list = match config {
            Some(s) => {
                let parsed = parse_profiles(s.as_str());
                if parsed.len() > 0 {
                    parsed
                } else {
                    default_profile_list()
                }
            },
            None => default_profile_list(),
        };
        Profiles { list, current: 0 }
    }

    /// The profiles, and which one is in use.
    pub fn list(&self) -> (r: &Vec<Profile>)
        ensures
            r@ == self@.list,
    {
        &self.list
    }

    /// The profile in use.
    pub fn current(&self) -> (p: Profile)
        ensures
            valid_profiles(self@),
            p == current_profile(self@),
    {
        proof {
            use_type_invariant(self);
        }
        self.list[self.current]
    }

    /// Moves on to the next profile, back to the first after the last.
    pub fn advance(&mut self)
        ensures
            final(self)@ == cycled(old(self)@),
    {
        proof {
            use_type_invariant(&*self);
        }
        if self.current < self.list.len() - 1 {
            self.current = self.current + 1;
        } else {
            self.current = 0;
        }
    }

    /// The footer's name of the profile in use.
    pub fn label(&self) -> (r: String)
        ensures
            r@ == profile_label(current_profile(self@)),
    {
        let p = self.current();
        let mut r = String::new();
        match p {
            Profile::Viewport => {
                r.append("[viewport]");
            },
            Profile::Lines(n) => {
                r.append("[");
                push_decimal(&mut r, n as u128);
                r.append("]");
            },
        }
        proof {
            reveal_strlit("[viewport]");
            reveal_strlit("[");
            reveal_strlit("]");
        }
        r
    }
}


/// The colors the frame is drawn in.
#[derive(Clone, Copy, PartialEq, Eq, Structural)]
pub struct Theme {
    pub sel_bg: Color,
    pub sel_fg: Color,
    pub cursor_bg: Color,
    pub cursor_fg: Color,
    pub gutter_mark: Color,
    pub gutter_dim: Color,
    pub sel_label: Color,
    pub footer_dim: Color,
    pub footer_key: Color,
    pub jump_label_bg: Color,
    pub jump_label_fg: Color,
    pub jump_match_fg: Color,
    pub jump_partial_fg: Color,
    pub search_match_bg: Color,
    pub search_current_bg: Color,
    pub search_fg: Color,
}

/// The default theme (Catppuccin Macchiato).
pub open spec fn default_theme() -> Theme {
    Theme {
        sel_bg: Color::Rgb(0x8a, 0xad, 0xf4),
        sel_fg: Color::Rgb(0x24, 0x27, 0x3a),
        cursor_bg: Color::Rgb(0xca, 0xd3, 0xf5),
        cursor_fg: Color::Rgb(0x24, 0x27, 0x3a),
        gutter_mark: Color::Rgb(0xee, 0xd4, 0x9f),
        gutter_dim: Color::Rgb(0x6e, 0x73, 0x8d),
        sel_label: Color::Rgb(0x8b, 0xd5, 0xca),
        footer_dim: Color::Rgb(0x6e, 0x73, 0x8d),
        footer_key: Color::Rgb(0xb8, 0xc0, 0xe0),
        jump_label_bg: Color::Rgb(0xf5, 0xa9, 0x7f),
        jump_label_fg: Color::Rgb(0x24, 0x27, 0x3a),
        jump_match_fg: Color::Rgb(0xed, 0x87, 0x96),
        jump_partial_fg: Color::Rgb(0xee, 0xd4, 0x9f),
        search_match_bg: Color::Rgb(0xa6, 0xda, 0x95),
        search_current_bg: Color::Rgb(0xee, 0xd4, 0x9f),
        search_fg: Color::Rgb(0x24, 0x27, 0x3a),
    }
}

/// The value of a hexadecimal digit, either case.
pub open spec fn hex_value(c: char) -> Option<nat> {
    if '0' <= c <= '9' {
        Some(((c as int) - ('0' as int)) as nat)
    } else if 'a' <= c <= 'f' {
        Some(((c as int) - ('a' as int) + 10) as nat)
    } else if 'A' <= c <= 'F' {
        Some(((c as int) - ('A' as int) + 10) as nat)
    } else {
        None
    }
}

/// The byte two hexadecimal digits from index `i` write.
pub open spec fn hex_byte(t: Seq<char>, i: int) -> Option<u8> {
    match (hex_value(t[i]), hex_value(t[i + 1])) {
        (Some(h), Some(l)) => Some((h * 16 + l) as u8),
        _ => None,
    }
}

/// The color `#rrggbb` or `rrggbb` writes.
pub open spec fn hex_color(s: Seq<char>) -> Option<Color> {
    let t = if s.len() > 0 && s[0] == '#' {
        s.drop_first()
    } else {
        s
    };
    if t.len() == 6 {
        match (hex_byte(t, 0), hex_byte(t, 2), hex_byte(t, 4)) {
            (Some(r), Some(g), Some(b)) => Some(Color::Rgb(r, g, b)),
            _ => None,
        }
    } else {
        None
    }
}

/// The theme with the color that configuration key `key` names set to
/// `value`, where the key is a known one and the value a valid color.
pub open spec fn with_color(t: Theme, key: Seq<char>, value: Seq<char>) -> Theme {
    match hex_color(value) {
        Some(c) => if key == "color_sel_bg"@ {
            Theme { sel_bg: c, ..t }
        } else if key == "color_sel_fg"@ {
            Theme { sel_fg: c, ..t }
        } else if key == "color_cursor_bg"@ {
            Theme { cursor_bg: c, ..t }
        } else if key == "color_cursor_fg"@ {
            Theme { cursor_fg: c, ..t }
        } else if key == "color_gutter_mark"@ {
            Theme { gutter_mark: c, ..t }
        } else if key == "color_gutter_dim"@ {
            Theme { gutter_dim: c, ..t }
        } else if key == "color_sel_label"@ {
            Theme { sel_label: c, ..t }
        } else if key == "color_footer_dim"@ {
            Theme { footer_dim: c, ..t }
        } else if key == "color_footer_key"@ {
            Theme { footer_key: c, ..t }
        } else if key == "color_jump_label_bg"@ {
            Theme { jump_label_bg: c, ..t }
        } else if key == "color_jump_label_fg"@ {
            Theme { jump_label_fg: c, ..t }
        } else if key == "color_jump_match_fg"@ {
            Theme { jump_match_fg: c, ..t }
        } else if key == "color_jump_partial_fg"@ {
            Theme { jump_partial_fg: c, ..t }
        } else if key == "color_search_match_bg"@ {
            Theme { search_match_bg: c, ..t }
        } else if key == "color_search_current_bg"@ {
            Theme { search_current_bg: c, ..t }
        } else if key == "color_search_fg"@ {
            Theme { search_fg: c, ..t }
        } else {
            t
        },
        None => t,
    }
}

/// The color keys are different texts.
proof fn lemma_color_keys_differ()
    ensures
        "color_sel_fg"@ != "color_sel_bg"@,
        "color_cursor_bg"@ != "color_sel_bg"@,
        "color_cursor_bg"@ != "color_sel_fg"@,
        "color_cursor_fg"@ != "color_sel_bg"@,
        "color_cursor_fg"@ != "color_sel_fg"@,
        "color_cursor_fg"@ != "color_cursor_bg"@,
        "color_gutter_mark"@ != "color_sel_bg"@,
        "color_gutter_mark"@ != "color_sel_fg"@,
        "color_gutter_mark"@ != "color_cursor_bg"@,
        "color_gutter_mark"@ != "color_cursor_fg"@,
        "color_gutter_dim"@ != "color_sel_bg"@,
        "color_gutter_dim"@ != "color_sel_fg"@,
        "color_gutter_dim"@ != "color_cursor_bg"@,
        "color_gutter_dim"@ != "color_cursor_fg"@,
        "color_gutter_dim"@ != "color_gutter_mark"@,
        "color_sel_label"@ != "color_sel_bg"@,
        "color_sel_label"@ != "color_sel_fg"@,
        "color_sel_label"@ != "color_cursor_bg"@,
        "color_sel_label"@ != "color_cursor_fg"@,
        "color_sel_label"@ != "color_gutter_mark"@,
        "color_sel_label"@ != "color_gutter_dim"@,
        "color_footer_dim"@ != "color_sel_bg"@,
        "color_footer_dim"@ != "color_sel_fg"@,
        "color_footer_dim"@ != "color_cursor_bg"@,
        "color_footer_dim"@ != "color_cursor_fg"@,
        "color_footer_dim"@ != "color_gutter_mark"@,
        "color_footer_dim"@ != "color_gutter_dim"@,
        "color_footer_dim"@ != "color_sel_label"@,
        "color_footer_key"@ != "color_sel_bg"@,
        "color_footer_key"@ != "color_sel_fg"@,
        "color_footer_key"@ != "color_cursor_bg"@,
        "color_footer_key"@ != "color_cursor_fg"@,
        "color_footer_key"@ != "color_gutter_mark"@,
        "color_footer_key"@ != "color_gutter_dim"@,
        "color_footer_key"@ != "color_sel_label"@,
        "color_footer_key"@ != "color_footer_dim"@,
        "color_jump_label_bg"@ != "color_sel_bg"@,
        "color_jump_label_bg"@ != "color_sel_fg"@,
        "color_jump_label_bg"@ != "color_cursor_bg"@,
        "color_jump_label_bg"@ != "color_cursor_fg"@,
        "color_jump_label_bg"@ != "color_gutter_mark"@,
        "color_jump_label_bg"@ != "color_gutter_dim"@,
        "color_jump_label_bg"@ != "color_sel_label"@,
        "color_jump_label_bg"@ != "color_footer_dim"@,
        "color_jump_label_bg"@ != "color_footer_key"@,
        "color_jump_label_fg"@ != "color_sel_bg"@,
        "color_jump_label_fg"@ != "color_sel_fg"@,
        "color_jump_label_fg"@ != "color_cursor_bg"@,
        "color_jump_label_fg"@ != "color_cursor_fg"@,
        "color_jump_label_fg"@ != "color_gutter_mark"@,
        "color_jump_label_fg"@ != "color_gutter_dim"@,
        "color_jump_label_fg"@ != "color_sel_label"@,
        "color_jump_label_fg"@ != "color_footer_dim"@,
        "color_jump_label_fg"@ != "color_footer_key"@,
        "color_jump_label_fg"@ != "color_jump_label_bg"@,
        "color_jump_match_fg"@ != "color_sel_bg"@,
        "color_jump_match_fg"@ != "color_sel_fg"@,
        "color_jump_match_fg"@ != "color_cursor_bg"@,
        "color_jump_match_fg"@ != "color_cursor_fg"@,
        "color_jump_match_fg"@ != "color_gutter_mark"@,
        "color_jump_match_fg"@ != "color_gutter_dim"@,
        "color_jump_match_fg"@ != "color_sel_label"@,
        "color_jump_match_fg"@ != "color_footer_dim"@,
        "color_jump_match_fg"@ != "color_footer_key"@,
        "color_jump_match_fg"@ != "color_jump_label_bg"@,
        "color_jump_match_fg"@ != "color_jump_label_fg"@,
        "color_jump_partial_fg"@ != "color_sel_bg"@,
        "color_jump_partial_fg"@ != "color_sel_fg"@,
        "color_jump_partial_fg"@ != "color_cursor_bg"@,
        "color_jump_partial_fg"@ != "color_cursor_fg"@,
        "color_jump_partial_fg"@ != "color_gutter_mark"@,
        "color_jump_partial_fg"@ != "color_gutter_dim"@,
        "color_jump_partial_fg"@ != "color_sel_label"@,
        "color_jump_partial_fg"@ != "color_footer_dim"@,
        "color_jump_partial_fg"@ != "color_footer_key"@,
        "color_jump_partial_fg"@ != "color_jump_label_bg"@,
        "color_jump_partial_fg"@ != "color_jump_label_fg"@,
        "color_jump_partial_fg"@ != "color_jump_match_fg"@,
        "color_search_match_bg"@ != "color_sel_bg"@,
        "color_search_match_bg"@ != "color_sel_fg"@,
        "color_search_match_bg"@ != "color_cursor_bg"@,
        "color_search_match_bg"@ != "color_cursor_fg"@,
        "color_search_match_bg"@ != "color_gutter_mark"@,
        "color_search_match_bg"@ != "color_gutter_dim"@,
        "color_search_match_bg"@ != "color_sel_label"@,
        "color_search_match_bg"@ != "color_footer_dim"@,
        "color_search_match_bg"@ != "color_footer_key"@,
        "color_search_match_bg"@ != "color_jump_label_bg"@,
        "color_search_match_bg"@ != "color_jump_label_fg"@,
        "color_search_match_bg"@ != "color_jump_match_fg"@,
        "color_search_match_bg"@ != "color_jump_partial_fg"@,
        "color_search_current_bg"@ != "color_sel_bg"@,
        "color_search_current_bg"@ != "color_sel_fg"@,
        "color_search_current_bg"@ != "color_cursor_bg"@,
        "color_search_current_bg"@ != "color_cursor_fg"@,
        "color_search_current_bg"@ != "color_gutter_mark"@,
        "color_search_current_bg"@ != "color_gutter_dim"@,
        "color_search_current_bg"@ != "color_sel_label"@,
        "color_search_current_bg"@ != "color_footer_dim"@,
        "color_search_current_bg"@ != "color_footer_key"@,
        "color_search_current_bg"@ != "color_jump_label_bg"@,
        "color_search_current_bg"@ != "color_jump_label_fg"@,
        "color_search_current_bg"@ != "color_jump_match_fg"@,
        "color_search_current_bg"@ != "color_jump_partial_fg"@,
        "color_search_current_bg"@ != "color_search_match_bg"@,
        "color_search_fg"@ != "color_sel_bg"@,
        "color_search_fg"@ != "color_sel_fg"@,
        "color_search_fg"@ != "color_cursor_bg"@,
        "color_search_fg"@ != "color_cursor_fg"@,
        "color_search_fg"@ != "color_gutter_mark"@,
        "color_search_fg"@ != "color_gutter_dim"@,
        "color_search_fg"@ != "color_sel_label"@,
        "color_search_fg"@ != "color_footer_dim"@,
        "color_search_fg"@ != "color_footer_key"@,
        "color_search_fg"@ != "color_jump_label_bg"@,
        "color_search_fg"@ != "color_jump_label_fg"@,
        "color_search_fg"@ != "color_jump_match_fg"@,
        "color_search_fg"@ != "color_jump_partial_fg"@,
        "color_search_fg"@ != "color_search_match_bg"@,
        "color_search_fg"@ != "color_search_current_bg"@,
{
    reveal_strlit("color_sel_bg");
    reveal_strlit("color_sel_fg");
    reveal_strlit("color_cursor_bg");
    reveal_strlit("color_cursor_fg");
    reveal_strlit("color_gutter_mark");
    reveal_strlit("color_gutter_dim");
    reveal_strlit("color_sel_label");
    reveal_strlit("color_footer_dim");
    reveal_strlit("color_footer_key");
    reveal_strlit("color_jump_label_bg");
    reveal_strlit("color_jump_label_fg");
    reveal_strlit("color_jump_match_fg");
    reveal_strlit("color_jump_partial_fg");
    reveal_strlit("color_search_match_bg");
    reveal_strlit("color_search_current_bg");
    reveal_strlit("color_search_fg");
    assert("color_sel_fg"@[10] != "color_sel_bg"@[10]);
    assert("color_cursor_bg"@.len() != "color_sel_bg"@.len());
    assert("color_cursor_bg"@.len() != "color_sel_fg"@.len());
    assert("color_cursor_fg"@.len() != "color_sel_bg"@.len());
    assert("color_cursor_fg"@.len() != "color_sel_fg"@.len());
    assert("color_cursor_fg"@[13] != "color_cursor_bg"@[13]);
    assert("color_gutter_mark"@.len() != "color_sel_bg"@.len());
    assert("color_gutter_mark"@.len() != "color_sel_fg"@.len());
    assert("color_gutter_mark"@.len() != "color_cursor_bg"@.len());
    assert("color_gutter_mark"@.len() != "color_cursor_fg"@.len());
    assert("color_gutter_dim"@.len() != "color_sel_bg"@.len());
    assert("color_gutter_dim"@.len() != "color_sel_fg"@.len());
    assert("color_gutter_dim"@.len() != "color_cursor_bg"@.len());
    assert("color_gutter_dim"@.len() != "color_cursor_fg"@.len());
    assert("color_gutter_dim"@.len() != "color_gutter_mark"@.len());
    assert("color_sel_label"@.len() != "color_sel_bg"@.len());
    assert("color_sel_label"@.len() != "color_sel_fg"@.len());
    assert("color_sel_label"@[6] != "color_cursor_bg"@[6]);
    assert("color_sel_label"@[6] != "color_cursor_fg"@[6]);
    assert("color_sel_label"@.len() != "color_gutter_mark"@.len());
    assert("color_sel_label"@.len() != "color_gutter_dim"@.len());
    assert("color_footer_dim"@.len() != "color_sel_bg"@.len());
    assert("color_footer_dim"@.len() != "color_sel_fg"@.len());
    assert("color_footer_dim"@.len() != "color_cursor_bg"@.len());
    assert("color_footer_dim"@.len() != "color_cursor_fg"@.len());
    assert("color_footer_dim"@.len() != "color_gutter_mark"@.len());
    assert("color_footer_dim"@[6] != "color_gutter_dim"@[6]);
    assert("color_footer_dim"@.len() != "color_sel_label"@.len());
    assert("color_footer_key"@.len() != "color_sel_bg"@.len());
    assert("color_footer_key"@.len() != "color_sel_fg"@.len());
    assert("color_footer_key"@.len() != "color_cursor_bg"@.len());
    assert("color_footer_key"@.len() != "color_cursor_fg"@.len());
    assert("color_footer_key"@.len() != "color_gutter_mark"@.len());
    assert("color_footer_key"@[6] != "color_gutter_dim"@[6]);
    assert("color_footer_key"@.len() != "color_sel_label"@.len());
    assert("color_footer_key"@[13] != "color_footer_dim"@[13]);
    assert("color_jump_label_bg"@.len() != "color_sel_bg"@.len());
    assert("color_jump_label_bg"@.len() != "color_sel_fg"@.len());
    assert("color_jump_label_bg"@.len() != "color_cursor_bg"@.len());
    assert("color_jump_label_bg"@.len() != "color_cursor_fg"@.len());
    assert("color_jump_label_bg"@.len() != "color_gutter_mark"@.len());
    assert("color_jump_label_bg"@.len() != "color_gutter_dim"@.len());
    assert("color_jump_label_bg"@.len() != "color_sel_label"@.len());
    assert("color_jump_label_bg"@.len() != "color_footer_dim"@.len());
    assert("color_jump_label_bg"@.len() != "color_footer_key"@.len());
    assert("color_jump_label_fg"@.len() != "color_sel_bg"@.len());
    assert("color_jump_label_fg"@.len() != "color_sel_fg"@.len());
    assert("color_jump_label_fg"@.len() != "color_cursor_bg"@.len());
    assert("color_jump_label_fg"@.len() != "color_cursor_fg"@.len());
    assert("color_jump_label_fg"@.len() != "color_gutter_mark"@.len());
    assert("color_jump_label_fg"@.len() != "color_gutter_dim"@.len());
    assert("color_jump_label_fg"@.len() != "color_sel_label"@.len());
    assert("color_jump_label_fg"@.len() != "color_footer_dim"@.len());
    assert("color_jump_label_fg"@.len() != "color_footer_key"@.len());
    assert("color_jump_label_fg"@[17] != "color_jump_label_bg"@[17]);
    assert("color_jump_match_fg"@.len() != "color_sel_bg"@.len());
    assert("color_jump_match_fg"@.len() != "color_sel_fg"@.len());
    assert("color_jump_match_fg"@.len() != "color_cursor_bg"@.len());
    assert("color_jump_match_fg"@.len() != "color_cursor_fg"@.len());
    assert("color_jump_match_fg"@.len() != "color_gutter_mark"@.len());
    assert("color_jump_match_fg"@.len() != "color_gutter_dim"@.len());
    assert("color_jump_match_fg"@.len() != "color_sel_label"@.len());
    assert("color_jump_match_fg"@.len() != "color_footer_dim"@.len());
    assert("color_jump_match_fg"@.len() != "color_footer_key"@.len());
    assert("color_jump_match_fg"@[11] != "color_jump_label_bg"@[11]);
    assert("color_jump_match_fg"@[11] != "color_jump_label_fg"@[11]);
    assert("color_jump_partial_fg"@.len() != "color_sel_bg"@.len());
    assert("color_jump_partial_fg"@.len() != "color_sel_fg"@.len());
    assert("color_jump_partial_fg"@.len() != "color_cursor_bg"@.len());
    assert("color_jump_partial_fg"@.len() != "color_cursor_fg"@.len());
    assert("color_jump_partial_fg"@.len() != "color_gutter_mark"@.len());
    assert("color_jump_partial_fg"@.len() != "color_gutter_dim"@.len());
    assert("color_jump_partial_fg"@.len() != "color_sel_label"@.len());
    assert("color_jump_partial_fg"@.len() != "color_footer_dim"@.len());
    assert("color_jump_partial_fg"@.len() != "color_footer_key"@.len());
    assert("color_jump_partial_fg"@.len() != "color_jump_label_bg"@.len());
    assert("color_jump_partial_fg"@.len() != "color_jump_label_fg"@.len());
    assert("color_jump_partial_fg"@.len() != "color_jump_match_fg"@.len());
    assert("color_search_match_bg"@.len() != "color_sel_bg"@.len());
    assert("color_search_match_bg"@.len() != "color_sel_fg"@.len());
    assert("color_search_match_bg"@.len() != "color_cursor_bg"@.len());
    assert("color_search_match_bg"@.len() != "color_cursor_fg"@.len());
    assert("color_search_match_bg"@.len() != "color_gutter_mark"@.len());
    assert("color_search_match_bg"@.len() != "color_gutter_dim"@.len());
    assert("color_search_match_bg"@.len() != "color_sel_label"@.len());
    assert("color_search_match_bg"@.len() != "color_footer_dim"@.len());
    assert("color_search_match_bg"@.len() != "color_footer_key"@.len());
    assert("color_search_match_bg"@.len() != "color_jump_label_bg"@.len());
    assert("color_search_match_bg"@.len() != "color_jump_label_fg"@.len());
    assert("color_search_match_bg"@.len() != "color_jump_match_fg"@.len());
    assert("color_search_match_bg"@[6] != "color_jump_partial_fg"@[6]);
    assert("color_search_current_bg"@.len() != "color_sel_bg"@.len());
    assert("color_search_current_bg"@.len() != "color_sel_fg"@.len());
    assert("color_search_current_bg"@.len() != "color_cursor_bg"@.len());
    assert("color_search_current_bg"@.len() != "color_cursor_fg"@.len());
    assert("color_search_current_bg"@.len() != "color_gutter_mark"@.len());
    assert("color_search_current_bg"@.len() != "color_gutter_dim"@.len());
    assert("color_search_current_bg"@.len() != "color_sel_label"@.len());
    assert("color_search_current_bg"@.len() != "color_footer_dim"@.len());
    assert("color_search_current_bg"@.len() != "color_footer_key"@.len());
    assert("color_search_current_bg"@.len() != "color_jump_label_bg"@.len());
    assert("color_search_current_bg"@.len() != "color_jump_label_fg"@.len());
    assert("color_search_current_bg"@.len() != "color_jump_match_fg"@.len());
    assert("color_search_current_bg"@.len() != "color_jump_partial_fg"@.len());
    assert("color_search_current_bg"@.len() != "color_search_match_bg"@.len());
    assert("color_search_fg"@.len() != "color_sel_bg"@.len());
    assert("color_search_fg"@.len() != "color_sel_fg"@.len());
    assert("color_search_fg"@[6] != "color_cursor_bg"@[6]);
    assert("color_search_fg"@[6] != "color_cursor_fg"@[6]);
    assert("color_search_fg"@.len() != "color_gutter_mark"@.len());
    assert("color_search_fg"@.len() != "color_gutter_dim"@.len());
    assert("color_search_fg"@[8] != "color_sel_label"@[8]);
    assert("color_search_fg"@.len() != "color_footer_dim"@.len());
    assert("color_search_fg"@.len() != "color_footer_key"@.len());
    assert("color_search_fg"@.len() != "color_jump_label_bg"@.len());
    assert("color_search_fg"@.len() != "color_jump_label_fg"@.len());
    assert("color_search_fg"@.len() != "color_jump_match_fg"@.len());
    assert("color_search_fg"@.len() != "color_jump_partial_fg"@.len());
    assert("color_search_fg"@.len() != "color_search_match_bg"@.len());
    assert("color_search_fg"@.len() != "color_search_current_bg"@.len());
}

/// Each color key sets the theme color it names and no other: with a valid
/// value, `color_X` changes field `X` to that color and leaves the rest.
pub proof fn lemma_color_keys_set_their_fields(t: Theme, value: Seq<char>)
    ensures
        hex_color(value) matches Some(c) ==> {
            &&& with_color(t, "color_sel_bg"@, value) == (Theme { sel_bg: c, ..t })
            &&& with_color(t, "color_sel_fg"@, value) == (Theme { sel_fg: c, ..t })
            &&& with_color(t, "color_cursor_bg"@, value) == (Theme { cursor_bg: c, ..t })
            &&& with_color(t, "color_cursor_fg"@, value) == (Theme { cursor_fg: c, ..t })
            &&& with_color(t, "color_gutter_mark"@, value) == (Theme { gutter_mark: c, ..t })
            &&& with_color(t, "color_gutter_dim"@, value) == (Theme { gutter_dim: c, ..t })
            &&& with_color(t, "color_sel_label"@, value) == (Theme { sel_label: c, ..t })
            &&& with_color(t, "color_footer_dim"@, value) == (Theme { footer_dim: c, ..t })
            &&& with_color(t, "color_footer_key"@, value) == (Theme { footer_key: c, ..t })
            &&& with_color(t, "color_jump_label_bg"@, value) == (Theme { jump_label_bg: c, ..t })
            &&& with_color(t, "color_jump_label_fg"@, value) == (Theme { jump_label_fg: c, ..t })
            &&& with_color(t, "color_jump_match_fg"@, value) == (Theme { jump_match_fg: c, ..t })
            &&& with_color(t, "color_jump_partial_fg"@, value) == (Theme { jump_partial_fg: c, ..t })
            &&& with_color(t, "color_search_match_bg"@, value) == (Theme { search_match_bg: c, ..t })
            &&& with_color(t, "color_search_current_bg"@, value) == (Theme { search_current_bg: c, ..t })
            &&& with_color(t, "color_search_fg"@, value) == (Theme { search_fg: c, ..t })
        },
{
    lemma_color_keys_differ();
    reveal_strlit("color_sel_bg");
    reveal_strlit("color_sel_fg");
    reveal_strlit("color_cursor_bg");
    reveal_strlit("color_cursor_fg");
    reveal_strlit("color_gutter_mark");
    reveal_strlit("color_gutter_dim");
    reveal_strlit("color_sel_label");
    reveal_strlit("color_footer_dim");
    reveal_strlit("color_footer_key");
    reveal_strlit("color_jump_label_bg");
    reveal_strlit("color_jump_label_fg");
    reveal_strlit("color_jump_match_fg");
    reveal_strlit("color_jump_partial_fg");
    reveal_strlit("color_search_match_bg");
    reveal_strlit("color_search_current_bg");
    reveal_strlit("color_search_fg");
}

/// A value that is no color, or a key that does not start with `color_`,
/// leaves the theme as it is.
pub proof fn lemma_other_settings_keep_the_theme(t: Theme, key: Seq<char>, value: Seq<char>)
    ensures
        hex_color(value) is None ==> with_color(t, key, value) == t,
        !(key.len() >= 6 && key.subrange(0, 6) == "color_"@) ==> with_color(t, key, value) == t,
{
    reveal_strlit("color_");
    reveal_strlit("color_sel_bg");
    reveal_strlit("color_sel_fg");
    reveal_strlit("color_cursor_bg");
    reveal_strlit("color_cursor_fg");
    reveal_strlit("color_gutter_mark");
    reveal_strlit("color_gutter_dim");
    reveal_strlit("color_sel_label");
    reveal_strlit("color_footer_dim");
    reveal_strlit("color_footer_key");
    reveal_strlit("color_jump_label_bg");
    reveal_strlit("color_jump_label_fg");
    reveal_strlit("color_jump_match_fg");
    reveal_strlit("color_jump_partial_fg");
    reveal_strlit("color_search_match_bg");
    reveal_strlit("color_search_current_bg");
    reveal_strlit("color_search_fg");
    if key.len() >= 6 && key.subrange(0, 6) == "color_"@ {
    } else if with_color(t, key, value) != t {
        assert(key.len() >= 6 && key.subrange(0, 6) =~= "color_"@);
    }
}

/// Setting two different keys gives the same theme in either order: no two
/// keys write the same color.
pub proof fn lemma_color_keys_commute(t: Theme, k1: Seq<char>, v1: Seq<char>, k2: Seq<char>, v2: Seq<char>)
    requires
        k1 != k2,
    ensures
        with_color(with_color(t, k1, v1), k2, v2) == with_color(with_color(t, k2, v2), k1, v1),
{
    lemma_color_keys_differ();
}

/// The default theme.
pub fn default_theme_value() -> (t: Theme)
    ensures
        t == default_theme(),
{
    Theme {
        sel_bg: Color::Rgb(0x8a, 0xad, 0xf4),
        sel_fg: Color::Rgb(0x24, 0x27, 0x3a),
        cursor_bg: Color::Rgb(0xca, 0xd3, 0xf5),
        cursor_fg: Color::Rgb(0x24, 0x27, 0x3a),
        gutter_mark: Color::Rgb(0xee, 0xd4, 0x9f),
        gutter_dim: Color::Rgb(0x6e, 0x73, 0x8d),
        sel_label: Color::Rgb(0x8b, 0xd5, 0xca),
        footer_dim: Color::Rgb(0x6e, 0x73, 0x8d),
        footer_key: Color::Rgb(0xb8, 0xc0, 0xe0),
        jump_label_bg: Color::Rgb(0xf5, 0xa9, 0x7f),
        jump_label_fg: Color::Rgb(0x24, 0x27, 0x3a),
        jump_match_fg: Color::Rgb(0xed, 0x87, 0x96),
        jump_partial_fg: Color::Rgb(0xee, 0xd4, 0x9f),
        search_match_bg: Color::Rgb(0xa6, 0xda, 0x95),
        search_current_bg: Color::Rgb(0xee, 0xd4, 0x9f),
        search_fg: Color::Rgb(0x24, 0x27, 0x3a),
    }
}

fn hex_digit(c: char) -> (r: Option<u8>)
    ensures
        match r {
            Some(v) => hex_value(c) == Some(v as nat),
            None => hex_value(c) is None,
        },
{
    if '0' <= c && c <= '9' {
        Some((c as u32 - '0' as u32) as u8)
    } else if 'a' <= c && c <= 'f' {
        Some((c as u32 - 'a' as u32 + 10) as u8)
    } else if 'A' <= c && c <= 'F' {
        Some((c as u32 - 'A' as u32 + 10) as u8)
    } else {
        None
    }
}

fn byte_at(s: &str, from: usize, i: usize) -> (r: Option<u8>)
    requires
        from + i + 2 <= s@.len() <= usize::MAX,
    ensures
        r == hex_byte(s@.subrange(from as int, s@.len() as int), i as int),
{
    let ghost t = s@.subrange(from as int, s@.len() as int);
    assert(t[i as int] == s@[from + i]);
    assert(t[i + 1] == s@[from + i + 1]);
    let h = hex_digit(s.get_char(from + i));
    let l = hex_digit(s.get_char(from + i + 1));
    match (h, l) {
        (Some(h), Some(l)) => Some(h * 16 + l),
        _ => None,
    }
}

/// The color `#rrggbb` or `rrggbb` writes, if any.
pub fn parse_hex_color(s: &str) -> (r: Option<Color>)
    ensures
        r == hex_color(s@),
{
    let len = s.unicode_len();
    let from: usize = if len > 0 && s.get_char(0) == '#' {
        1
    } else {
        0
    };
    let ghost t = s@.subrange(from as int, len as int);
    proof {
        if from == 1 {
            assert(t =~= s@.drop_first());
        } else {
            assert(t =~= s@);
        }
    }
    if len - from != 6 {
        return None;
    }
    let r = byte_at(s, from, 0);
    let g = byte_at(s, from, 2);
    let b = byte_at(s, from, 4);
    match (r, g, b) {
        (Some(r), Some(g), Some(b)) => Some(Color::Rgb(r, g, b)),
        _ => None,
    }
}

fn same_text(a: &str, b: &str) -> (r: bool)
    ensures
        r == (a@ == b@),
{
    let n = a.unicode_len();
    if n != b.unicode_len() {
        return false;
    }
    let mut i: usize = 0;
    while i < n
        invariant
            i <= n == a@.len() == b@.len(),
            a@.subrange(0, i as int) == b@.subrange(0, i as int),
        decreases n - i,
    {
        if a.get_char(i) != b.get_char(i) {
            assert(a@[i as int] != b@[i as int]);
            return false;
        }
        assert(a@.subrange(0, i + 1) =~= a@.subrange(0, i as int).push(a@[i as int]));
        assert(b@.subrange(0, i + 1) =~= b@.subrange(0, i as int).push(b@[i as int]));
        i = i + 1;
    }
    assert(a@ =~= a@.subrange(0, n as int));
    assert(b@ =~= b@.subrange(0, n as int));
    true
}

/// `t` with the color that configuration key `key` names set to `value`;
/// unknown keys and invalid colors leave it unchanged.
pub fn theme_with(t: Theme, key: &str, value: &str) -> (r: Theme)
    ensures
        r == with_color(t, key@, value@),
{
    let c = match parse_hex_color(value) {
        Some(c) => c,
        None => {
            return t;
        },
    };
    proof {
        reveal_strlit("color_sel_bg");
        reveal_strlit("color_sel_fg");
        reveal_strlit("color_cursor_bg");
        reveal_strlit("color_cursor_fg");
        reveal_strlit("color_gutter_mark");
        reveal_strlit("color_gutter_dim");
        reveal_strlit("color_sel_label");
        reveal_strlit("color_footer_dim");
        reveal_strlit("color_footer_key");
        reveal_strlit("color_jump_label_bg");
        reveal_strlit("color_jump_label_fg");
        reveal_strlit("color_jump_match_fg");
        reveal_strlit("color_jump_partial_fg");
        reveal_strlit("color_search_match_bg");
        reveal_strlit("color_search_current_bg");
        reveal_strlit("color_search_fg");
    }
    if same_text(key, "color_sel_bg") {
        Theme { sel_bg: c, ..t }
    } else if same_text(key, "color_sel_fg") {
        Theme { sel_fg: c, ..t }
    } else if same_text(key, "color_cursor_bg") {
        Theme { cursor_bg: c, ..t }
    } else if same_text(key, "color_cursor_fg") {
        Theme { cursor_fg: c, ..t }
    } else if same_text(key, "color_gutter_mark") {
        Theme { gutter_mark: c, ..t }
    } else if same_text(key, "color_gutter_dim") {
        Theme { gutter_dim: c, ..t }
    } else if same_text(key, "color_sel_label") {
        Theme { sel_label: c, ..t }
    } else if same_text(key, "color_footer_dim") {
        Theme { footer_dim: c, ..t }
    } else if same_text(key, "color_footer_key") {
        Theme { footer_key: c, ..t }
    } else if same_text(key, "color_jump_label_bg") {
        Theme { jump_label_bg: c, ..t }
    } else if same_text(key, "color_jump_label_fg") {
        Theme { jump_label_fg: c, ..t }
    } else if same_text(key, "color_jump_match_fg") {
        Theme { jump_match_fg: c, ..t }
    } else if same_text(key, "color_jump_partial_fg") {
        Theme { jump_partial_fg: c, ..t }
    } else if same_text(key, "color_search_match_bg") {
        Theme { search_match_bg: c, ..t }
    } else if same_text(key, "color_search_current_bg") {
        Theme { search_current_bg: c, ..t }
    } else if same_text(key, "color_search_fg") {
        Theme { search_fg: c, ..t }
    } else {
        t
    }
}


/// A label character: printable and not whitespace.
pub open spec fn label_char_ok(c: char) -> bool {
    (c as int) > 0x20 && (c as int) != 0x7f
}

/// The label characters of `s`: its printable non-whitespace characters,
/// each once, in the order of their first occurrence.
pub open spec fn label_chars(s: Seq<char>) -> Seq<char>
    decreases s.len(),
{
    if s.len() == 0 {
        Seq::empty()
    } else {
        let p = label_chars(s.drop_last());
        if label_char_ok(s.last()) && !p.contains(s.last()) {
            p.push(s.last())
        } else {
            p
        }
    }
}

/// The default labels: `a` to `z`, then `A` to `Z`.
pub open spec fn default_labels() -> Seq<char> {
    Seq::new(
        52,
        |i: int|
            if i < 26 {
                (('a' as int) + i) as char
            } else {
                (('A' as int) + i - 26) as char
            },
    )
}

/// The labels of the configuration's `labels` value, else the default ones.
pub open spec fn configured_labels(config: Option<Seq<char>>) -> Seq<char> {
    match config {
        Some(s) => if label_chars(s).len() > 0 {
            label_chars(s)
        } else {
            default_labels()
        },
        None => default_labels(),
    }
}

/// Whether the configuration's `line_labels` value asks for unified labels.
pub open spec fn configured_unified(config: Option<Seq<char>>) -> bool {
    config == Some("unified"@)
}

/// No character occurs twice.
pub open spec fn no_dups(s: Seq<char>) -> bool {
    forall|i: int, j: int| 0 <= i < j < s.len() ==> s[i] != s[j]
}

/// The label characters of a value never repeat.
pub proof fn lemma_label_chars_no_dups(s: Seq<char>)
    ensures
        no_dups(label_chars(s)),
        forall|i: int| 0 <= i < label_chars(s).len() ==> label_char_ok(#[trigger] label_chars(s)[i]),
    decreases s.len(),
{
    if s.len() > 0 {
        lemma_label_chars_no_dups(s.drop_last());
    }
}

/// The configured labels never repeat.
pub proof fn lemma_configured_labels_no_dups(config: Option<Seq<char>>)
    ensures
        no_dups(configured_labels(config)),
        configured_labels(config).len() > 0,
{
    match config {
        Some(s) => lemma_label_chars_no_dups(s),
        None => {},
    }
}

fn vec_has(v: &Vec<char>, c: char) -> (r: bool)
    ensures
        r == v@.contains(c),
{
    let mut i: usize = 0;
    while i < v.len()
        invariant
            i <= v@.len(),
            forall|k: int| 0 <= k < i ==> v@[k] != c,
        decreases v@.len() - i,
    {
        if v[i] == c {
            return true;
        }
        i = i + 1;
    }
    false
}

fn default_label_list() -> (r: Vec<char>)
    ensures
        r@ == default_labels(),
{
    let mut r: Vec<char> = Vec::new();
    let mut k: u8 = 0;
    while k < 52
        invariant
            k <= 52,
            r@ == default_labels().subrange(0, k as int),
        decreases 52 - k,
    {
        let c = if k < 26 {
            (97u8 + k) as char
        } else {
            (65u8 + k - 26) as char
        };
        r.push(c);
        assert(r@ =~= default_labels().subrange(0, k + 1));
        k = k + 1;
    }
    assert(default_labels().subrange(0, 52) =~= default_labels());
    r
}

/// The labels of the configuration's `labels` value, else the default ones.
pub fn labels_from(config: &Option<String>) -> (r: Vec<char>)
    ensures
        r@ == configured_labels(crate::term::opt_chars(*config)),
{
    match config {
        Some(s) => {
            let t = s.as_str();
            let n = t.unicode_len();
            let mut out: Vec<char> = Vec::new();
            let mut i: usize = 0;
            while i < n
                invariant
                    i <= n == t@.len(),
                    out@ == label_chars(t@.subrange(0, i as int)),
                decreases n - i,
            {
                let c = t.get_char(i);
                assert(t@.subrange(0, i + 1).drop_last() =~= t@.subrange(0, i as int));
                if (c as u32) > 0x20 && (c as u32) != 0x7f && !vec_has(&out, c) {
                    out.push(c);
                }
                i = i + 1;
            }
            assert(t@.subrange(0, n as int) =~= t@);
            if out.len() > 0 {
                out
            } else {
                default_label_list()
            }
        },
        None => default_label_list(),
    }
}

/// Whether the configuration's `line_labels` value is `unified`.
pub fn unified_from(config: &Option<String>) -> (r: bool)
    ensures
        r == configured_unified(crate::term::opt_chars(*config)),
{
    match config {
        Some(s) => {
            proof {
                reveal_strlit("unified");
            }
            same_text(s.as_str(), "unified")
        },
        None => false,
    }
}

} // verus!
