use zellij_flash::term::Area;
use zellij_flash::plugin::{Capture, Event, Key, State, TabRecord};
use zellij_flash::render::flush;
use zellij_flash::source_pane::{PaneManifest, PaneRecord, TabPanes};
use ratatui::buffer::Buffer;
use ratatui::layout::Rect;
use ratatui::style::{Color, Modifier};

/// The text of each row of a frame, with the escape sequences taken out.
fn rows_of(frame: &str) -> Vec<String> {
    assert!(frame.starts_with("\x1b[H"));
    assert!(frame.ends_with("\x1b[0m"));
    let mut rows: Vec<String> = Vec::new();
    let chars: Vec<char> = frame.chars().collect();
    let mut i = 0;
    while i < chars.len() {
        if chars[i] == '\x1b' {
            let mut j = i + 2;
            while !chars[j].is_ascii_alphabetic() {
                j += 1;
            }
            if chars[j] == 'H' && j > i + 2 {
                rows.push(String::new());
            }
            i = j + 1;
        } else {
            rows.last_mut().unwrap().push(chars[i]);
            i += 1;
        }
    }
    rows
}

fn ready_state(lines: &[&str]) -> State {
    let mut s = State::new();
    s.accept_scrollback(Vec::new(), lines.iter().map(|l| l.to_string()).collect());
    s
}

#[test]
fn flush_of_an_empty_buffer() {
    let buf = Buffer::empty(Rect::new(0, 0, 3, 2));
    assert_eq!(flush(&buf), "\x1b[H\x1b[1;1H\x1b[0m\x1b[39m\x1b[49m   \x1b[2;1H   \x1b[0m");
}

#[test]
fn too_small_frame_shows_a_note() {
    let mut s = State::new();
    let out = s.render(3, 10);
    assert_eq!(
        out,
        "\x1b[H\x1b[1;1H\x1b[0m\x1b[38;2;110;115;141m\x1b[49mtoo small \x1b[2;1H          \x1b[3;1H          \x1b[0m"
    );
    assert_eq!(s.viewer().content_rows(), 1);
}

#[test]
fn loading_note_before_capture() {
    let mut s = State::new();
    let rows = rows_of(&s.render(8, 24));
    assert_eq!(rows.len(), 8);
    assert_eq!(rows[0], format!("Loading…{}", " ".repeat(16)));
    assert_eq!(rows[4], "┌──────────────────────┐");
    assert_eq!(rows[5], "│ [viewport]  0 lines  │");
    assert_eq!(rows[6], "│ ↑↓←→:move  PgUp/Dn:ha│");
    assert_eq!(rows[7], "└──────────────────────┘");
}

#[test]
fn empty_capture_note() {
    let mut s = ready_state(&[]);
    let rows = rows_of(&s.render(6, 30));
    assert_eq!(rows[0], format!("No content captured.{}", " ".repeat(10)));
}

#[test]
fn content_rows_show_relative_numbers_and_cursor_marker() {
    let mut s = ready_state(&["alpha", "beta", "gamma"]);
    let rows = rows_of(&s.render(8, 30));
    assert_eq!(rows[0], format!("2  alpha{}", " ".repeat(22)));
    assert_eq!(rows[1], format!("1  beta{}", " ".repeat(23)));
    assert_eq!(rows[2], format!("0► gamma{}", " ".repeat(22)));
    assert_eq!(rows[3], " ".repeat(30));
    assert_eq!(rows[5], "│ [viewport]  3 lines  3:1   │");
    s.update(Event::Key(Key::Up));
    s.update(Event::Key(Key::Right));
    let rows = rows_of(&s.render(8, 30));
    assert_eq!(rows[0], format!("1  alpha{}", " ".repeat(22)));
    assert_eq!(rows[1], format!("0► beta{}", " ".repeat(23)));
    assert_eq!(rows[2], format!("1  gamma{}", " ".repeat(22)));
    assert_eq!(rows[5], "│ [viewport]  3 lines  2:2   │");
}

#[test]
fn cursor_cell_is_highlighted() {
    let mut s = ready_state(&["ab"]);
    s.update(Event::Key(Key::Right));
    s.update(Event::Key(Key::Right));
    let out = s.render(6, 20);
    let first_row: String = out.split("\x1b[2;1H").next().unwrap().to_string();
    // The gutter in bold yellow, the text in the default colors, then the
    // cursor cell past the end of the line: a space, dark on light.
    assert!(first_row.starts_with("\x1b[H\x1b[1;1H\x1b[0m\x1b[38;2;238;212;159m\x1b[49m\x1b[1m0► "));
    assert!(first_row.contains("\x1b[0m\x1b[39m\x1b[49mab\x1b[0m\x1b[38;2;36;39;58m\x1b[48;2;202;211;245m \x1b[0m\x1b[39m\x1b[49m"));
}

#[test]
fn long_lines_end_in_an_indicator() {
    // Two content rows: a one-digit gutter number, 17 columns of text.
    let mut s = ready_state(&["0123456789abcdefghijklmnop"]);
    let rows = rows_of(&s.render(6, 20));
    assert_eq!(rows[0], "0► 0123456789abcdef…");
    // The last character: the view starts at column 10 and the rest fits.
    s.update(Event::Key(Key::Char('$')));
    assert_eq!(s.viewer().cursor(), (0, 25));
    assert_eq!(s.viewer().scroll_x(), 10);
    let rows = rows_of(&s.render(6, 20));
    assert_eq!(rows[0], "0► abcdefghijklmnop ");
    // A pan to the left: the cursor stays, now right of the view.
    s.update(Event::Key(Key::ShiftLeft));
    assert_eq!(s.viewer().cursor(), (0, 25));
    assert_eq!(s.viewer().scroll_x(), 5);
    let rows = rows_of(&s.render(6, 20));
    assert_eq!(rows[0], "0► 56789abcdefghijk…");
}

#[test]
fn indicator_is_dim_and_cursor_shows_its_character() {
    let mut s = ready_state(&["0123456789abcdefghijklmnop"]);
    let out = s.render(6, 20);
    let first_row: String = out.split("\x1b[2;1H").next().unwrap().to_string();
    // The cursor cell on '0', the text, then the dim gray indicator.
    assert!(first_row.contains("\x1b[0m\x1b[38;2;36;39;58m\x1b[48;2;202;211;245m0\x1b[0m\x1b[39m\x1b[49m123456789abcdef\x1b[0m\x1b[38;2;110;115;141m\x1b[49m…"));
}

#[test]
fn frame_buffer_is_reused_and_replaced_on_resize() {
    let mut s = ready_state(&["x"]);
    let a = s.render(6, 20);
    let b = s.render(6, 20);
    assert_eq!(a, b);
    let c = s.render(7, 20);
    assert_eq!(rows_of(&c).len(), 7);
}

#[test]
fn scroll_follows_page_jumps() {
    let lines: Vec<String> = (0..30).map(|i| format!("l{i}")).collect();
    let refs: Vec<&str> = lines.iter().map(|s| s.as_str()).collect();
    let mut s = ready_state(&refs);
    // Captured with 24 assumed rows, scroll_y is 6; a frame of 8 rows has 4
    // content rows, and the frame scrolls to show the cursor on the last.
    let rows = rows_of(&s.render(8, 20));
    assert_eq!(rows[0], "3  l26              ");
    assert_eq!(rows[3], "0► l29              ");
    s.update(Event::Key(Key::PageUp));
    let rows = rows_of(&s.render(8, 20));
    assert_eq!(rows[0], "2  l25              ");
    assert_eq!(rows[1], "1  l26              ");
    assert_eq!(rows[2], "0► l27              ");
    assert_eq!(rows[3], "1  l28              ");
}

#[test]
fn tab_and_pane_updates_choose_the_source() {
    let mut s = State::new();
    let pane = |id: u32, focused: bool| PaneRecord {
        id,
        is_plugin: false,
        is_focused: focused,
        is_floating: false,
        is_suppressed: false,
    };
    let m = PaneManifest { tabs: vec![TabPanes { position: 0, panes: vec![pane(4, true)] }] };
    let fx = s.update(Event::PaneUpdate(m));
    assert_eq!(s.source_pane(), Some(4));
    assert_eq!(fx.grab, None);
    assert!(fx.render);
    let fx = s.update(Event::TabUpdate(vec![TabRecord { position: 0, active: true }]));
    assert_eq!(s.source_pane(), None);
    assert!(!fx.render);
    let m = PaneManifest { tabs: vec![TabPanes { position: 0, panes: vec![pane(4, false), pane(5, false)] }] };
    let fx = s.update(Event::PaneUpdate(m));
    assert_eq!(s.last_focused_non_plugin(), Some(4));
    assert_eq!(s.source_pane(), Some(4));
    assert_eq!(fx.grab, Some(Capture { pane: 4, full: false }));
}

#[test]
fn flush_switches_style_only_where_it_changes() {
    let mut buf = Buffer::empty(Rect::new(0, 0, 3, 1));
    buf[(0, 0)].set_symbol("a").set_fg(Color::Red);
    buf[(1, 0)].set_symbol("b").set_fg(Color::Red);
    buf[(2, 0)]
        .set_symbol("c")
        .set_fg(Color::Rgb(1, 2, 3))
        .set_bg(Color::Indexed(9));
    buf[(2, 0)].modifier = Modifier::BOLD | Modifier::REVERSED;
    assert_eq!(
        flush(&buf),
        "\x1b[H\x1b[1;1H\x1b[0m\x1b[31m\x1b[49mab\x1b[0m\x1b[38;2;1;2;3m\x1b[48;5;9m\x1b[1m\x1b[7mc\x1b[0m"
    );
}

#[test]
fn flush_skips_positions_outside_the_buffer() {
    let buf = Buffer::empty(Rect::new(1, 0, 2, 1));
    assert_eq!(flush(&buf), "\x1b[H\x1b[1;1H\x1b[0m\x1b[39m\x1b[49m \x1b[0m");
}

#[test]
fn reused_buffer_is_cleared_between_frames() {
    let mut s = State::new();
    let rows = rows_of(&s.render(8, 24));
    assert!(rows[0].starts_with("Loading…"));
    s.accept_scrollback(Vec::new(), vec!["ab".to_string()]);
    let rows = rows_of(&s.render(8, 24));
    assert_eq!(rows[0], format!("0► ab{}", " ".repeat(19)));
}

#[test]
fn selection_is_highlighted_and_counted() {
    let mut s = ready_state(&["abcdef"]);
    s.update(Event::Key(Key::Char(' ')));
    s.update(Event::Key(Key::Right));
    s.update(Event::Key(Key::Right));
    let out = s.render(6, 40);
    let first_row: String = out.split("\x1b[2;1H").next().unwrap().to_string();
    // 'a' and 'b' selected (dark on blue), 'c' under the cursor, the rest plain.
    assert!(first_row.contains(
        "\x1b[0m\x1b[38;2;36;39;58m\x1b[48;2;138;173;244mab\x1b[0m\x1b[38;2;36;39;58m\x1b[48;2;202;211;245mc\x1b[0m\x1b[39m\x1b[49mdef"
    ));
    let rows = rows_of(&out);
    assert_eq!(rows[3], "│ [viewport]  1 lines  1:3  SEL 1 lines│");
    assert_eq!(rows[4], "│ ↑↓←→:move  PgUp/Dn:half-page  Space:s│");
}

#[test]
fn approval_prompt_in_the_footer() {
    let mut s = ready_state(&["ab", "cd"]);
    s.update(Event::Key(Key::Char(' ')));
    s.update(Event::Key(Key::Up));
    s.update(Event::Key(Key::ShiftEnter));
    let rows = rows_of(&s.render(6, 54));
    assert_eq!(rows[4], "│ Insert the selection?  y/Enter:confirm  Esc:cancel │");
}

#[test]
fn line_jump_labels_replace_the_distances() {
    let mut s = ready_state(&["a", "b", "c", "d"]);
    s.update(Event::Key(Key::Char('l')));
    let rows = rows_of(&s.render(8, 40));
    assert_eq!(rows[0], format!("C  a{}", " ".repeat(36)));
    assert_eq!(rows[1], format!("B  b{}", " ".repeat(36)));
    assert_eq!(rows[2], format!("A  c{}", " ".repeat(36)));
    assert_eq!(rows[3], format!("0► d{}", " ".repeat(36)));
    assert_eq!(rows[6], "│ a-z:below  A-Z:above  Esc:cancel     │");
}

#[test]
fn search_highlights_matches_and_shows_the_query() {
    let mut s = ready_state(&["ab ab"]);
    s.update(Event::Key(Key::Char('/')));
    s.update(Event::Key(Key::Char('a')));
    s.update(Event::Key(Key::Char('b')));
    let out = s.render(6, 40);
    let first_row: String = out.split("\x1b[2;1H").next().unwrap().to_string();
    // The cursor on the first 'a', the rest of the current match in bold
    // yellow, the next match in green.
    assert!(first_row.contains(
        "\x1b[0m\x1b[38;2;36;39;58m\x1b[48;2;202;211;245ma\x1b[0m\x1b[38;2;36;39;58m\x1b[48;2;238;212;159m\x1b[1mb\x1b[0m\x1b[39m\x1b[49m \x1b[0m\x1b[38;2;36;39;58m\x1b[48;2;166;218;149mab"
    ));
    let rows = rows_of(&out);
    assert_eq!(rows[4], format!("│ /ab█  Enter:confirm  Esc:cancel{}│", " ".repeat(6)));
    s.update(Event::Key(Key::Enter));
    let rows = rows_of(&s.render(6, 60));
    assert_eq!(rows[4], format!("│ /ab  1/2  n:next  N:prev  Space:select  Esc:done{}│", " ".repeat(9)));
    s.update(Event::Key(Key::Char('n')));
    let rows = rows_of(&s.render(6, 60));
    assert!(rows[4].starts_with("│ /ab  2/2  n:next"));
}

#[test]
fn enter_without_selection_shows_a_notice() {
    let mut s = ready_state(&["abc"]);
    s.update(Event::Key(Key::Enter));
    let rows = rows_of(&s.render(6, 44));
    assert_eq!(rows[3], "│ [viewport]  1 lines  1:1  no selection   │");
    s.update(Event::Key(Key::Up));
    let rows = rows_of(&s.render(6, 44));
    assert_eq!(rows[3], format!("│ [viewport]  1 lines  1:1{}│", " ".repeat(17)));
}

#[test]
fn theme_colors_come_from_the_configuration() {
    let mut s = ready_state(&["ab"]);
    s.set_color("color_cursor_bg", "#ff0000");
    s.set_color("color_cursor_fg", "00ff00");
    s.set_color("color_unknown", "#123456");
    s.set_color("color_gutter_mark", "not a color");
    let out = s.render(6, 20);
    let first_row: String = out.split("\x1b[2;1H").next().unwrap().to_string();
    assert!(first_row.starts_with("\x1b[H\x1b[1;1H\x1b[0m\x1b[38;2;238;212;159m\x1b[49m\x1b[1m0► "));
    assert!(first_row.contains("\x1b[0m\x1b[38;2;0;255;0m\x1b[48;2;255;0;0ma"));
}

#[test]
fn search_counts_show_zero_without_matches() {
    let mut s = ready_state(&["abc"]);
    s.update(Event::Key(Key::Char('/')));
    s.update(Event::Key(Key::Char('z')));
    s.update(Event::Key(Key::Enter));
    let rows = rows_of(&s.render(6, 60));
    assert!(rows[4].starts_with("│ /z  0/0  n:next"));
}

#[test]
fn content_writes_only_inside_its_area() {
    let s = ready_state(&["alpha", "beta"]);
    let mut buf = Buffer::empty(Rect::new(0, 0, 12, 4));
    for y in 0..4 {
        for x in 0..12 {
            buf[(x, y)].set_symbol("x");
        }
    }
    s.render_content(Area { x: 0, y: 1, width: 12, height: 2 }, &mut buf);
    assert_eq!(buf[(0, 0)].symbol(), "x");
    assert_eq!(buf[(11, 3)].symbol(), "x");
    assert_eq!(buf[(0, 1)].symbol(), "1");
    assert_eq!(buf[(3, 1)].symbol(), "a");
    assert_eq!(buf[(0, 2)].symbol(), "0");
    assert_eq!(buf[(3, 2)].symbol(), "b");
}

#[test]
fn unified_line_labels_split_the_label_set() {
    let mut s = ready_state(&["a", "b", "c", "d", "e"]);
    s.set_labels(Some("abcd".to_string()), Some("unified".to_string()));
    s.update(Event::Key(Key::Char('l')));
    let rows = rows_of(&s.render(10, 40));
    assert_eq!(rows[0], format!("4  a{}", " ".repeat(36)));
    assert_eq!(rows[1], format!("3  b{}", " ".repeat(36)));
    assert_eq!(rows[2], format!("d  c{}", " ".repeat(36)));
    assert_eq!(rows[3], format!("c  d{}", " ".repeat(36)));
    assert_eq!(rows[4], format!("0► e{}", " ".repeat(36)));
    s.update(Event::Key(Key::Char('d')));
    assert_eq!(s.viewer().cursor(), (2, 0));
    s.update(Event::Key(Key::Char('l')));
    s.update(Event::Key(Key::Char('b')));
    assert_eq!(s.viewer().cursor(), (4, 0));
    s.update(Event::Key(Key::Char('l')));
    // `z` is no label of this set.
    s.update(Event::Key(Key::Char('z')));
    assert_eq!(s.viewer().cursor(), (4, 0));
}

#[test]
fn word_jump_labels_overlay_the_last_matched_character() {
    let mut s = ready_state(&["xx ab", "ab"]);
    s.update(Event::Key(Key::Char('s')));
    let rows = rows_of(&s.render(6, 40));
    assert!(rows[4].starts_with("│ jump: type to search…"));
    s.update(Event::Key(Key::Char('a')));
    s.update(Event::Key(Key::Char('b')));
    let out = s.render(6, 40);
    let rows = rows_of(&out);
    // The nearest match gets `c`, the other `d`, each on its `b`.
    assert_eq!(rows[0], format!("1  xx ad{}", " ".repeat(32)));
    assert_eq!(rows[1], format!("0► ac{}", " ".repeat(35)));
    assert!(rows[4].starts_with("│ jump: ab  (2 matches)"));
    // The label on peach, the typed character before it in red, over the
    // cursor too.
    assert!(out.contains("\x1b[38;2;36;39;58m\x1b[48;2;245;169;127m\x1b[1md"));
    assert!(out.contains("\x1b[38;2;36;39;58m\x1b[48;2;245;169;127m\x1b[1mc"));
    assert!(out.contains("\x1b[38;2;237;135;150m\x1b[49m\x1b[1ma"));
}

#[test]
fn word_jump_highlights_matches_it_cannot_label() {
    let mut s = ready_state(&["xy xy xy"]);
    s.set_labels(Some("ab".to_string()), None);
    s.update(Event::Key(Key::Char('s')));
    s.update(Event::Key(Key::Char('x')));
    let out = s.render(6, 50);
    let rows = rows_of(&out);
    assert_eq!(rows[0], format!("0► xy xy xy{}", " ".repeat(39)));
    assert!(rows[4].starts_with("│ jump: x  (3 matches, keep typing…)"));
    let first_row: String = out.split("\x1b[2;1H").next().unwrap().to_string();
    // The first `x` shares the style of the cursor's gutter mark, yellow
    // and bold; the others switch to it again after the plain `y `.
    assert!(first_row.contains("\x1b[38;2;238;212;159m\x1b[49m\x1b[1m0► x"));
    assert_eq!(first_row.matches("\x1b[38;2;238;212;159m\x1b[49m\x1b[1mx").count(), 2);
    s.update(Event::Key(Key::Char('q')));
    let rows = rows_of(&s.render(6, 50));
    assert!(rows[4].starts_with("│ jump: xq  (no matches)"));
}

#[test]
fn select_word_jump_shows_sel_in_the_footer() {
    let mut s = ready_state(&["abc"]);
    s.update(Event::Key(Key::Char('S')));
    let rows = rows_of(&s.render(6, 50));
    assert!(rows[4].starts_with("│ jump: type to search…  [SEL]"));
}

#[test]
fn jump_colors_come_from_the_configuration() {
    let mut s = ready_state(&["xy xy xy"]);
    s.set_labels(Some("ab".to_string()), None);
    s.set_color("color_jump_partial_fg", "#010203");
    s.update(Event::Key(Key::Char('s')));
    s.update(Event::Key(Key::Char('x')));
    let out = s.render(6, 50);
    assert!(out.contains("\x1b[38;2;1;2;3m\x1b[49m\x1b[1mx"));
}
