use zellij_flash::config::{
    default_theme_value, labels_from, unified_from, parse_hex_color, parse_profiles, parse_size, size_from, theme_with, Dim, FloatSize,
    Profile, Profiles,
};
use zellij_flash::render::Color;

#[test]
fn default_profile_list_parses() {
    assert_eq!(
        parse_profiles("viewport,200,2000"),
        vec![Profile::Viewport, Profile::Lines(200), Profile::Lines(2000)]
    );
}

#[test]
fn invalid_profile_items_are_skipped() {
    assert_eq!(parse_profiles("50,x,viewport,0,"), vec![Profile::Lines(50), Profile::Viewport]);
    assert_eq!(parse_profiles("007"), vec![Profile::Lines(7)]);
    assert_eq!(parse_profiles(""), vec![]);
    assert_eq!(parse_profiles("99999999999999999999999999"), vec![]);
    assert_eq!(parse_profiles("Viewport,-3,1.5"), vec![]);
}

#[test]
fn profiles_fall_back_to_the_defaults() {
    let defaults = vec![Profile::Viewport, Profile::Lines(200), Profile::Lines(2000)];
    assert_eq!(Profiles::from_config(&None).list(), &defaults);
    assert_eq!(Profiles::from_config(&Some("abc".to_string())).list(), &defaults);
    assert_eq!(Profiles::from_config(&Some("100".to_string())).list(), &vec![Profile::Lines(100)]);
}

#[test]
fn profiles_cycle_back_to_the_first() {
    let mut p = Profiles::from_config(&Some("viewport,10".to_string()));
    assert_eq!(p.current(), Profile::Viewport);
    assert_eq!(p.label(), "[viewport]");
    p.advance();
    assert_eq!(p.current(), Profile::Lines(10));
    assert_eq!(p.label(), "[10]");
    p.advance();
    assert_eq!(p.current(), Profile::Viewport);
}

#[test]
fn percentage_sizes_are_centred() {
    assert_eq!(
        parse_size("90%x85%"),
        Some(FloatSize { x: Some(Dim::Percent(5)), width: Dim::Percent(90), height: Dim::Percent(85) })
    );
    assert_eq!(
        parse_size("81%x10"),
        Some(FloatSize { x: Some(Dim::Percent(9)), width: Dim::Percent(81), height: Dim::Cells(10) })
    );
}

#[test]
fn cell_sizes_keep_the_host_placement() {
    assert_eq!(
        parse_size("200x50"),
        Some(FloatSize { x: None, width: Dim::Cells(200), height: Dim::Cells(50) })
    );
}

#[test]
fn invalid_sizes_are_refused() {
    assert_eq!(parse_size("101%x50%"), None);
    assert_eq!(parse_size("0x5"), None);
    assert_eq!(parse_size("90%"), None);
    assert_eq!(parse_size("80%x"), None);
    assert_eq!(parse_size("x"), None);
    assert_eq!(parse_size("0%x10"), None);
    assert_eq!(size_from(&None), None);
    assert_eq!(
        size_from(&Some("100%x100%".to_string())),
        Some(FloatSize { x: Some(Dim::Percent(0)), width: Dim::Percent(100), height: Dim::Percent(100) })
    );
}

#[test]
fn hex_colors_parse_with_or_without_hash() {
    assert!(parse_hex_color("#8aadf4") == Some(Color::Rgb(0x8a, 0xad, 0xf4)));
    assert!(parse_hex_color("8AADF4") == Some(Color::Rgb(0x8a, 0xad, 0xf4)));
    assert!(parse_hex_color("#8aadf") == None);
    assert!(parse_hex_color("#8aadfg") == None);
    assert!(parse_hex_color("##8aadf4") == None);
    assert!(parse_hex_color("") == None);
}

#[test]
fn theme_keys_set_their_color_only() {
    let t = default_theme_value();
    assert!(t.sel_bg == Color::Rgb(0x8a, 0xad, 0xf4));
    assert!(t.gutter_dim == Color::Rgb(0x6e, 0x73, 0x8d));
    let u = theme_with(t, "color_sel_bg", "#010203");
    assert!(u.sel_bg == Color::Rgb(1, 2, 3));
    assert!(u.sel_fg == t.sel_fg);
    let v = theme_with(t, "color_sel_bgx", "#010203");
    assert!(v == t);
    let w = theme_with(t, "color_search_fg", "bad");
    assert!(w == t);
}

#[test]
fn labels_keep_printable_characters_once() {
    assert_eq!(labels_from(&Some("aab c\tA;a".to_string())), vec!['a', 'b', 'c', 'A', ';']);
    let defaults = labels_from(&None);
    assert_eq!(defaults.len(), 52);
    assert_eq!(defaults[0], 'a');
    assert_eq!(defaults[25], 'z');
    assert_eq!(defaults[26], 'A');
    assert_eq!(defaults[51], 'Z');
    assert_eq!(labels_from(&Some("  ".to_string())), defaults);
}

#[test]
fn line_labels_unified_only_by_name() {
    assert!(unified_from(&Some("unified".to_string())));
    assert!(!unified_from(&Some("directional".to_string())));
    assert!(!unified_from(&Some("Unified".to_string())));
    assert!(!unified_from(&None));
}
