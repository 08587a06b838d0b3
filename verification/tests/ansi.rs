use zellij_flash::render::{
    color_name_string, emit_color, emit_style, parse_color_name, Color, Style, BOLD, DIM, ITALIC,
    REVERSED, UNDERLINED,
};
use zellij_flash::text::{decimal_len, push_decimal, push_right_aligned};

fn color(c: Color, bg: bool) -> String {
    let mut s = String::new();
    emit_color(&mut s, c, bg);
    s
}

#[test]
fn named_colors_use_ansi_numbers() {
    assert_eq!(color(Color::Black, false), "\x1b[30m");
    assert_eq!(color(Color::Red, false), "\x1b[31m");
    assert_eq!(color(Color::Gray, false), "\x1b[37m");
    assert_eq!(color(Color::Black, true), "\x1b[40m");
    assert_eq!(color(Color::Cyan, true), "\x1b[46m");
    assert_eq!(color(Color::DarkGray, false), "\x1b[90m");
    assert_eq!(color(Color::LightYellow, false), "\x1b[93m");
    assert_eq!(color(Color::White, false), "\x1b[97m");
    assert_eq!(color(Color::DarkGray, true), "\x1b[100m");
    assert_eq!(color(Color::White, true), "\x1b[107m");
}

#[test]
fn reset_indexed_and_rgb_colors() {
    assert_eq!(color(Color::Reset, false), "\x1b[39m");
    assert_eq!(color(Color::Reset, true), "\x1b[49m");
    assert_eq!(color(Color::Indexed(200), false), "\x1b[38;5;200m");
    assert_eq!(color(Color::Indexed(0), true), "\x1b[48;5;0m");
    assert_eq!(color(Color::Rgb(1, 22, 255), false), "\x1b[38;2;1;22;255m");
    assert_eq!(color(Color::Rgb(0, 0, 0), true), "\x1b[48;2;0;0;0m");
}

#[test]
fn style_emits_colors_then_modifiers() {
    let mut s = String::from("x");
    emit_style(
        &mut s,
        Style { fg: Some(Color::Yellow), bg: Some(Color::Blue), modifiers: BOLD | DIM | ITALIC | UNDERLINED | REVERSED },
    );
    assert_eq!(s, "x\x1b[33m\x1b[44m\x1b[1m\x1b[2m\x1b[3m\x1b[4m\x1b[7m");
    let mut s = String::new();
    emit_style(&mut s, Style { fg: None, bg: None, modifiers: 0 });
    assert_eq!(s, "");
    let mut s = String::new();
    // Blinking, hidden and crossed-out text have no sequence here.
    emit_style(&mut s, Style { fg: None, bg: Some(Color::Reset), modifiers: 16 | 32 | 128 | 256 | DIM });
    assert_eq!(s, "\x1b[49m\x1b[2m");
}

#[test]
fn color_names_round_trip() {
    let all = [
        Color::Reset,
        Color::Black,
        Color::Red,
        Color::Green,
        Color::Yellow,
        Color::Blue,
        Color::Magenta,
        Color::Cyan,
        Color::Gray,
        Color::DarkGray,
        Color::LightRed,
        Color::LightGreen,
        Color::LightYellow,
        Color::LightBlue,
        Color::LightMagenta,
        Color::LightCyan,
        Color::White,
        Color::Rgb(10, 171, 255),
        Color::Indexed(7),
        Color::Indexed(42),
        Color::Indexed(255),
    ];
    for c in all {
        let name = color_name_string(c);
        assert!(parse_color_name(&name) == Some(c), "{name}");
    }
    assert_eq!(color_name_string(Color::DarkGray), "DarkGray");
    assert_eq!(color_name_string(Color::Rgb(10, 171, 255)), "#0AABFF");
    assert_eq!(color_name_string(Color::Indexed(42)), "42");
}

#[test]
fn only_exact_color_names_parse() {
    for bad in ["", "reset", "dark gray", "#0aabff", "#0AABF", "#0AABFFF", "007", "256", "-1", "x"] {
        assert!(parse_color_name(&bad.to_string()).is_none(), "{bad}");
    }
    assert!(parse_color_name(&"0".to_string()) == Some(Color::Indexed(0)));
}

#[test]
fn decimal_and_right_alignment() {
    let mut s = String::new();
    push_decimal(&mut s, 0);
    push_decimal(&mut s, 1203);
    assert_eq!(s, "01203");
    assert_eq!(decimal_len(0), 1);
    assert_eq!(decimal_len(99), 2);
    assert_eq!(decimal_len(u128::MAX), 39);
    let mut s = String::new();
    push_right_aligned(&mut s, 7, 3);
    push_right_aligned(&mut s, 1234, 2);
    assert_eq!(s, "  71234");
}
