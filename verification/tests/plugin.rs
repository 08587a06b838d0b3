use zellij_flash::config::{Dim, FloatSize, Profile};
use zellij_flash::plugin::{Capture, Effects, Event, Key, State, TabRecord};
use zellij_flash::source_pane::{PaneManifest, PaneRecord, TabPanes};

fn pane(id: u32, is_plugin: bool, is_focused: bool) -> PaneRecord {
    PaneRecord { id, is_plugin, is_focused, is_floating: false, is_suppressed: false }
}

fn one_tab(position: usize, panes: Vec<PaneRecord>) -> PaneManifest {
    PaneManifest { tabs: vec![TabPanes { position, panes }] }
}

fn asks(fx: &Effects, rename: Option<u32>, grab: Option<Capture>, close: bool, render: bool) -> bool {
    fx.rename == rename
        && fx.grab == grab
        && fx.close == close
        && fx.render == render
        && !fx.copy
        && fx.insert.is_none()
}

fn cap(pane: u32, full: bool) -> Option<Capture> {
    Some(Capture { pane, full })
}

fn strings(items: &[&str]) -> Vec<String> {
    items.iter().map(|s| s.to_string()).collect()
}

#[test]
fn new_state_knows_nothing() {
    let s = State::new();
    assert_eq!(s.source_pane(), None);
    assert_eq!(s.last_focused_non_plugin(), None);
    assert_eq!(s.active_tab_index(), None);
    assert_eq!(s.own_plugin_id(), 0);
    assert_eq!(s.grab_target(), None);
}

#[test]
fn permission_renames_own_pane_and_tries_a_capture() {
    let mut s = State::new();
    s.load(17, None, None);
    let fx = s.update(Event::PermissionResult);
    assert!(asks(&fx, Some(17), None, false, true));
    s.update(Event::TabUpdate(vec![TabRecord { position: 2, active: true }]));
    s.update(Event::PaneUpdate(one_tab(2, vec![pane(9, false, true)])));
    let fx = s.update(Event::PermissionResult);
    assert!(asks(&fx, Some(17), cap(9, false), false, true));
}

#[test]
fn first_active_tab_is_recorded() {
    let mut s = State::new();
    let fx = s.update(Event::TabUpdate(vec![
        TabRecord { position: 0, active: false },
        TabRecord { position: 3, active: true },
        TabRecord { position: 5, active: true },
    ]));
    assert!(asks(&fx, None, None, false, false));
    assert_eq!(s.active_tab_index(), Some(3));
    s.update(Event::TabUpdate(vec![TabRecord { position: 1, active: false }]));
    assert_eq!(s.active_tab_index(), Some(3));
}

#[test]
fn later_tab_updates_keep_the_source() {
    let mut s = State::new();
    s.update(Event::TabUpdate(vec![TabRecord { position: 0, active: true }]));
    s.update(Event::PaneUpdate(one_tab(0, vec![pane(2, false, true)])));
    assert_eq!(s.source_pane(), Some(2));
    s.update(Event::TabUpdate(vec![TabRecord { position: 1, active: true }]));
    assert_eq!(s.active_tab_index(), Some(1));
    assert_eq!(s.source_pane(), Some(2));
}

#[test]
fn pane_update_records_focus_before_choosing() {
    let mut s = State::new();
    s.update(Event::TabUpdate(vec![TabRecord { position: 0, active: true }]));
    let fx = s.update(Event::PaneUpdate(one_tab(0, vec![pane(1, false, false), pane(6, false, true)])));
    assert_eq!(s.last_focused_non_plugin(), Some(6));
    assert_eq!(s.source_pane(), Some(6));
    assert!(asks(&fx, None, cap(6, false), false, true));
    // The plugin takes the focus: the hint still names pane 6.
    let fx = s.update(Event::PaneUpdate(one_tab(0, vec![pane(1, false, false), pane(6, false, false), pane(8, true, true)])));
    assert_eq!(s.last_focused_non_plugin(), Some(6));
    assert_eq!(s.source_pane(), Some(6));
    assert!(asks(&fx, None, cap(6, false), false, true));
}

#[test]
fn after_capture_pane_updates_render_only_on_change() {
    let mut s = State::new();
    s.update(Event::TabUpdate(vec![TabRecord { position: 0, active: true }]));
    s.update(Event::PaneUpdate(one_tab(0, vec![pane(1, false, true)])));
    s.accept_scrollback(vec!["x".to_string()], vec![]);
    assert_eq!(s.grab_target(), None);
    let fx = s.update(Event::PaneUpdate(one_tab(0, vec![pane(1, false, true)])));
    assert!(asks(&fx, None, None, false, false));
    let fx = s.update(Event::PaneUpdate(one_tab(0, vec![pane(1, false, false), pane(3, false, true)])));
    assert!(asks(&fx, None, None, false, true));
    assert_eq!(s.source_pane(), Some(3));
    let fx = s.update(Event::PaneUpdate(one_tab(0, vec![pane(5, true, true)])));
    assert!(asks(&fx, None, None, false, false));
    assert_eq!(s.source_pane(), Some(3));
}

#[test]
fn keys_move_close_or_do_nothing() {
    let mut s = State::new();
    s.accept_scrollback(vec![], vec!["one".to_string(), "two".to_string()]);
    let fx = s.update(Event::Key(Key::Up));
    assert!(asks(&fx, None, None, false, true));
    assert_eq!(s.viewer().cursor(), (0, 0));
    let fx = s.update(Event::Key(Key::Other));
    assert!(asks(&fx, None, None, false, false));
    let fx = s.handle_key(Key::PageDown);
    assert!(asks(&fx, None, None, false, true));
    assert_eq!(s.viewer().cursor(), (1, 0));
    let fx = s.update(Event::Key(Key::Esc));
    assert!(asks(&fx, None, None, true, false));
    assert_eq!(s.viewer().cursor(), (1, 0));
    assert_eq!(s.viewer().lines(), &vec!["one".to_string(), "two".to_string()]);
    assert!(s.viewer().extraction_done());
    let fx = s.update(Event::Other);
    assert!(asks(&fx, None, None, false, false));
}

#[test]
fn load_reads_profiles_and_size() {
    let mut s = State::new();
    let size = s.load(17, Some("200,viewport".to_string()), Some("90%x85%".to_string()));
    assert_eq!(
        size,
        Some(FloatSize { x: Some(Dim::Percent(5)), width: Dim::Percent(90), height: Dim::Percent(85) })
    );
    assert_eq!(s.own_plugin_id(), 17);
    assert_eq!(s.profiles().list(), &vec![Profile::Lines(200), Profile::Viewport]);
    assert_eq!(s.profiles().current(), Profile::Lines(200));
    assert_eq!(s.profiles().label(), "[200]");
    s.update(Event::TabUpdate(vec![TabRecord { position: 0, active: true }]));
    let fx = s.update(Event::PaneUpdate(one_tab(0, vec![pane(3, false, true)])));
    assert!(asks(&fx, None, cap(3, true), false, true));
}

#[test]
fn load_without_configuration_uses_the_defaults() {
    let mut s = State::new();
    assert_eq!(s.load(2, None, None), None);
    assert_eq!(
        s.profiles().list(),
        &vec![Profile::Viewport, Profile::Lines(200), Profile::Lines(2000)]
    );
    assert_eq!(s.profiles().current(), Profile::Viewport);
    assert_eq!(s.load(2, Some("nothing".to_string()), Some("wide".to_string())), None);
    assert_eq!(s.profiles().list().len(), 3);
}

#[test]
fn viewport_profile_keeps_only_the_viewport() {
    let mut s = State::new();
    s.accept_scrollback(strings(&["a", "b"]), strings(&["c", "d"]));
    assert_eq!(s.viewer().lines(), &strings(&["c", "d"]));
    assert_eq!(s.viewer().cursor(), (1, 0));
}

#[test]
fn line_profile_keeps_the_last_lines() {
    let mut s = State::new();
    s.load(1, Some("3".to_string()), None);
    s.accept_scrollback(strings(&["a", "b"]), strings(&["c", "d"]));
    assert_eq!(s.viewer().lines(), &strings(&["b", "c", "d"]));
    assert_eq!(s.viewer().cursor(), (2, 0));
}

#[test]
fn g_cycles_profiles_and_asks_for_a_new_capture() {
    let mut s = State::new();
    s.update(Event::TabUpdate(vec![TabRecord { position: 0, active: true }]));
    s.update(Event::PaneUpdate(one_tab(0, vec![pane(4, false, true)])));
    s.accept_scrollback(vec![], strings(&["x"]));
    assert_eq!(s.profiles().label(), "[viewport]");
    let fx = s.handle_key(Key::Char('g'));
    assert!(asks(&fx, None, cap(4, true), false, true));
    assert_eq!(s.profiles().label(), "[200]");
    let fx = s.update(Event::Key(Key::Char('g')));
    assert!(asks(&fx, None, cap(4, true), false, true));
    assert_eq!(s.profiles().label(), "[2000]");
    s.accept_scrollback(strings(&["a", "b"]), strings(&["c"]));
    assert_eq!(s.viewer().lines(), &strings(&["a", "b", "c"]));
    let fx = s.handle_key(Key::Char('g'));
    assert!(asks(&fx, None, cap(4, false), false, true));
    assert_eq!(s.profiles().current(), Profile::Viewport);
}

#[test]
fn g_before_the_tab_is_known_asks_no_capture() {
    let mut s = State::new();
    s.update(Event::PaneUpdate(one_tab(0, vec![pane(4, false, true)])));
    let fx = s.handle_key(Key::Char('g'));
    assert!(asks(&fx, None, None, false, true));
    assert_eq!(s.profiles().current(), Profile::Lines(200));
}

#[test]
fn line_keys_and_pans() {
    let mut s = State::new();
    s.accept_scrollback(vec![], strings(&["hello world"]));
    let fx = s.handle_key(Key::Char('$'));
    assert!(asks(&fx, None, None, false, true));
    assert_eq!(s.viewer().cursor(), (0, 10));
    let fx = s.handle_key(Key::Char('0'));
    assert!(asks(&fx, None, None, false, true));
    assert_eq!(s.viewer().cursor(), (0, 0));
    let fx = s.handle_key(Key::ShiftRight);
    assert!(asks(&fx, None, None, false, true));
    assert_eq!(s.viewer().cursor(), (0, 0));
    assert_eq!(s.viewer().scroll_x(), 5);
    let fx = s.handle_key(Key::ShiftLeft);
    assert!(asks(&fx, None, None, false, true));
    assert_eq!(s.viewer().scroll_x(), 0);
    let fx = s.handle_key(Key::Char('x'));
    assert!(asks(&fx, None, None, false, false));
    assert_eq!(s.viewer().cursor(), (0, 0));
}

fn state_on(lines: &[&str]) -> State {
    let mut s = State::new();
    s.update(Event::TabUpdate(vec![TabRecord { position: 0, active: true }]));
    s.update(Event::PaneUpdate(one_tab(0, vec![pane(7, false, true)])));
    s.accept_scrollback(vec![], strings(lines));
    s
}

#[test]
fn space_selects_and_enter_copies() {
    let mut s = state_on(&["hello world"]);
    s.handle_key(Key::Char('0'));
    assert_eq!(s.selection_text(), None);
    let fx = s.handle_key(Key::Char(' '));
    assert!(asks(&fx, None, None, false, true));
    s.handle_key(Key::Char('w'));
    assert_eq!(s.viewer().cursor(), (0, 6));
    assert_eq!(s.selection_text(), Some("hello w".to_string()));
    let fx = s.handle_key(Key::Enter);
    assert!(fx.copy && fx.close && !fx.render && fx.insert.is_none());
    assert_eq!(s.selection_text(), Some("hello w".to_string()));
}

#[test]
fn enter_without_selection_only_warns() {
    let mut s = state_on(&["abc"]);
    let fx = s.handle_key(Key::Enter);
    assert!(asks(&fx, None, None, false, true));
    let fx = s.handle_key(Key::ShiftEnter);
    assert!(asks(&fx, None, None, false, true));
    // The next key takes the notice away, and asks for a frame for it.
    let fx = s.handle_key(Key::Char('x'));
    assert!(asks(&fx, None, None, false, true));
    let fx = s.handle_key(Key::Char('x'));
    assert!(asks(&fx, None, None, false, false));
}

#[test]
fn selection_runs_backwards_across_lines() {
    let mut s = state_on(&["abc", "defg", "hi"]);
    assert_eq!(s.viewer().cursor(), (2, 0));
    s.handle_key(Key::Char(' '));
    s.handle_key(Key::Up);
    s.handle_key(Key::Up);
    s.handle_key(Key::Right);
    assert_eq!(s.viewer().cursor(), (0, 1));
    assert_eq!(s.selection_text(), Some("bc\ndefg\nh".to_string()));
}

#[test]
fn multi_line_insert_waits_for_approval() {
    let mut s = state_on(&["abc", "defg", "hi"]);
    s.handle_key(Key::Char(' '));
    s.handle_key(Key::Up);
    let fx = s.handle_key(Key::ShiftEnter);
    assert!(asks(&fx, None, None, false, true));
    // Other keys wait; Esc cancels and keeps the selection.
    let fx = s.handle_key(Key::Down);
    assert!(asks(&fx, None, None, false, false));
    assert_eq!(s.viewer().cursor(), (1, 0));
    let fx = s.handle_key(Key::Esc);
    assert!(asks(&fx, None, None, false, true));
    assert_eq!(s.selection_text(), Some("defg\nh".to_string()));
    s.handle_key(Key::ShiftEnter);
    let fx = s.handle_key(Key::Char('y'));
    assert_eq!(fx.insert, Some(7));
    assert!(fx.close && !fx.copy);
    s.handle_key(Key::Esc);
    s.handle_key(Key::ShiftEnter);
    let fx = s.handle_key(Key::Enter);
    assert_eq!(fx.insert, Some(7));
}

#[test]
fn one_line_insert_goes_straight_to_the_source() {
    let mut s = state_on(&["abc"]);
    s.handle_key(Key::Char(' '));
    s.handle_key(Key::Char('$'));
    let fx = s.handle_key(Key::ShiftEnter);
    assert_eq!(fx.insert, Some(7));
    assert!(fx.close && !fx.copy && !fx.render);
    assert_eq!(s.selection_text(), Some("abc".to_string()));
}

#[test]
fn esc_clears_the_anchor_before_closing() {
    let mut s = state_on(&["abc"]);
    s.handle_key(Key::Char(' '));
    let fx = s.handle_key(Key::Esc);
    assert!(asks(&fx, None, None, false, true));
    assert_eq!(s.selection_text(), None);
    let fx = s.handle_key(Key::Esc);
    assert!(asks(&fx, None, None, true, false));
}

#[test]
fn space_twice_clears_the_anchor() {
    let mut s = state_on(&["abc"]);
    s.handle_key(Key::Char(' '));
    assert_eq!(s.selection_text(), Some("a".to_string()));
    s.handle_key(Key::Char(' '));
    assert_eq!(s.selection_text(), None);
}

#[test]
fn a_new_capture_drops_the_selection() {
    let mut s = state_on(&["abc"]);
    s.handle_key(Key::Char(' '));
    s.accept_scrollback(vec![], strings(&["xyz"]));
    assert_eq!(s.selection_text(), None);
}

fn numbered_lines(n: usize) -> Vec<String> {
    (0..n).map(|i| format!("l{i}")).collect()
}

#[test]
fn line_jump_goes_to_labelled_lines() {
    let mut s = State::new();
    s.accept_scrollback(vec![], numbered_lines(30));
    s.render(14, 40);
    assert_eq!(s.viewer().content_rows(), 10);
    // The frame scrolled to show the cursor: rows 20 to 29.
    assert_eq!(s.viewer().scroll_y(), 20);
    s.handle_key(Key::Up);
    assert_eq!(s.viewer().cursor(), (28, 0));
    assert_eq!(s.viewer().scroll_y(), 20);
    let fx = s.handle_key(Key::Char('l'));
    assert!(asks(&fx, None, None, false, true));
    // `A` is the nearest line above.
    let fx = s.handle_key(Key::Char('A'));
    assert!(asks(&fx, None, None, false, true));
    assert_eq!(s.viewer().cursor(), (27, 0));
    assert_eq!(s.viewer().scroll_y(), 20);
    // Out of line-jump mode: `a` is no label now.
    let fx = s.handle_key(Key::Char('a'));
    assert!(asks(&fx, None, None, false, false));
    s.handle_key(Key::Char('l'));
    s.handle_key(Key::Char('a'));
    assert_eq!(s.viewer().cursor(), (28, 0));
}

#[test]
fn line_jump_ignores_labels_of_lines_not_shown() {
    let mut s = State::new();
    s.accept_scrollback(vec![], numbered_lines(30));
    s.render(14, 40);
    s.handle_key(Key::Up);
    s.handle_key(Key::Char('l'));
    let fx = s.handle_key(Key::Char('z'));
    assert!(asks(&fx, None, None, false, false));
    let fx = s.handle_key(Key::Char('Z'));
    assert!(asks(&fx, None, None, false, false));
    assert_eq!(s.viewer().cursor(), (28, 0));
    let fx = s.handle_key(Key::Esc);
    assert!(asks(&fx, None, None, false, true));
    // Esc left the mode; a second one closes.
    let fx = s.handle_key(Key::Esc);
    assert!(asks(&fx, None, None, true, false));
}

#[test]
fn select_line_jump_plants_the_anchor() {
    let mut s = State::new();
    s.accept_scrollback(vec![], numbered_lines(30));
    s.render(14, 40);
    s.handle_key(Key::Up);
    s.handle_key(Key::Char('L'));
    s.handle_key(Key::Char('a'));
    assert_eq!(s.viewer().cursor(), (29, 0));
    assert_eq!(s.selection_text(), Some("l".to_string()));
    s.handle_key(Key::Char('$'));
    assert_eq!(s.selection_text(), Some("l29".to_string()));
}

#[test]
fn line_jump_keeps_the_column_where_it_can() {
    let mut s = State::new();
    s.accept_scrollback(vec![], strings(&["abcdef", "x", "abcdef"]));
    s.handle_key(Key::Char('$'));
    assert_eq!(s.viewer().cursor(), (2, 5));
    s.handle_key(Key::Char('l'));
    s.handle_key(Key::Char('B'));
    assert_eq!(s.viewer().cursor(), (0, 5));
    s.handle_key(Key::Char('l'));
    s.handle_key(Key::Char('a'));
    assert_eq!(s.viewer().cursor(), (1, 0));
}

fn typed(s: &mut State, text: &str) {
    for c in text.chars() {
        s.handle_key(Key::Char(c));
    }
}

#[test]
fn search_confirms_on_the_first_match_at_or_after_the_cursor() {
    let mut s = state_on(&["one foo", "two", "foo three foo"]);
    s.handle_key(Key::Up);
    s.handle_key(Key::Up);
    assert_eq!(s.viewer().cursor(), (0, 0));
    let fx = s.handle_key(Key::Char('/'));
    assert!(asks(&fx, None, None, false, true));
    typed(&mut s, "foo");
    // Typing moves nothing yet.
    assert_eq!(s.viewer().cursor(), (0, 0));
    let fx = s.handle_key(Key::Enter);
    assert!(asks(&fx, None, None, false, true));
    assert_eq!(s.viewer().cursor(), (0, 4));
    s.handle_key(Key::Char('n'));
    assert_eq!(s.viewer().cursor(), (2, 0));
    s.handle_key(Key::Char('n'));
    assert_eq!(s.viewer().cursor(), (2, 10));
    // Round the text.
    s.handle_key(Key::Char('n'));
    assert_eq!(s.viewer().cursor(), (0, 4));
    s.handle_key(Key::Char('N'));
    assert_eq!(s.viewer().cursor(), (2, 10));
    s.handle_key(Key::Char('N'));
    assert_eq!(s.viewer().cursor(), (2, 0));
}

#[test]
fn search_input_edits_and_cancels() {
    let mut s = state_on(&["abc", "xbz"]);
    s.handle_key(Key::Char('/'));
    typed(&mut s, "bq");
    let fx = s.handle_key(Key::Backspace);
    assert!(asks(&fx, None, None, false, true));
    let fx = s.handle_key(Key::Esc);
    assert!(asks(&fx, None, None, false, true));
    assert_eq!(s.viewer().cursor(), (1, 0));
    // Out of search: `n` does nothing, Esc closes.
    let fx = s.handle_key(Key::Char('n'));
    assert!(asks(&fx, None, None, false, false));
    let fx = s.handle_key(Key::Esc);
    assert!(asks(&fx, None, None, true, false));
}

#[test]
fn search_backspace_on_an_empty_query_does_nothing() {
    let mut s = state_on(&["abc"]);
    s.handle_key(Key::Char('/'));
    let fx = s.handle_key(Key::Backspace);
    assert!(asks(&fx, None, None, false, false));
}

#[test]
fn search_space_sets_the_anchor_at_the_match() {
    let mut s = state_on(&["abc", "xbz"]);
    s.handle_key(Key::Char('/'));
    typed(&mut s, "b");
    s.handle_key(Key::Enter);
    // The first at or after (1, 0) is (1, 1).
    assert_eq!(s.viewer().cursor(), (1, 1));
    s.handle_key(Key::Char(' '));
    assert_eq!(s.selection_text(), Some("b".to_string()));
    // Search is over: `/` is a no-op while the anchor is set.
    let fx = s.handle_key(Key::Char('/'));
    assert!(asks(&fx, None, None, false, false));
}

#[test]
fn search_without_matches_keeps_the_cursor() {
    let mut s = state_on(&["abc"]);
    s.handle_key(Key::Char('/'));
    typed(&mut s, "zz");
    s.handle_key(Key::Enter);
    assert_eq!(s.viewer().cursor(), (0, 0));
    s.handle_key(Key::Char('n'));
    assert_eq!(s.viewer().cursor(), (0, 0));
    // Any other key leaves the search.
    let fx = s.handle_key(Key::Char('q'));
    assert!(asks(&fx, None, None, false, true));
    let fx = s.handle_key(Key::Char('n'));
    assert!(asks(&fx, None, None, false, false));
}

#[test]
fn word_jump_takes_a_unique_continuation_as_label() {
    let mut s = state_on(&["wor woa won"]);
    assert_eq!(s.viewer().cursor(), (0, 0));
    let fx = s.handle_key(Key::Char('s'));
    assert!(asks(&fx, None, None, false, true));
    // `w` and `o` are typed: neither is a label while they narrow.
    typed(&mut s, "wo");
    assert_eq!(s.viewer().cursor(), (0, 0));
    // `n` follows `wo` only in "won": it is that match's label.
    let fx = s.handle_key(Key::Char('n'));
    assert!(asks(&fx, None, None, false, true));
    assert_eq!(s.viewer().cursor(), (0, 8));
    // The jump left the mode; in it again, `r` leads to "wor".
    s.handle_key(Key::Char('s'));
    typed(&mut s, "wo");
    s.handle_key(Key::Char('r'));
    assert_eq!(s.viewer().cursor(), (0, 0));
}

#[test]
fn word_jump_types_a_shared_continuation() {
    let mut s = state_on(&["word worm woa"]);
    s.handle_key(Key::Char('s'));
    typed(&mut s, "wo");
    // `r` follows `wo` twice: it narrows the search and jumps nowhere.
    s.handle_key(Key::Char('r'));
    assert_eq!(s.viewer().cursor(), (0, 0));
    // Now `d` and `m` are labels of their own matches.
    s.handle_key(Key::Char('m'));
    assert_eq!(s.viewer().cursor(), (0, 5));
}

#[test]
fn word_jump_pool_labels_go_nearest_first() {
    let mut s = state_on(&["word worm woa"]);
    s.handle_key(Key::Char('s'));
    typed(&mut s, "wo");
    // The pool lacks w, o, r and a: `b` goes to the nearest of the
    // matches without a continuation of their own, `c` to the next.
    s.handle_key(Key::Char('c'));
    assert_eq!(s.viewer().cursor(), (0, 5));
    s.handle_key(Key::Char('s'));
    typed(&mut s, "wo");
    // From (0, 5), "worm" is nearest now and gets `b`.
    s.handle_key(Key::Char('b'));
    assert_eq!(s.viewer().cursor(), (0, 5));
    s.handle_key(Key::Char('s'));
    typed(&mut s, "wo");
    s.handle_key(Key::Char('a'));
    assert_eq!(s.viewer().cursor(), (0, 10));
}

#[test]
fn word_jump_matches_ignore_case() {
    let mut s = state_on(&["abc FOO", "foo"]);
    s.handle_key(Key::Char('s'));
    typed(&mut s, "Fo");
    // Two matches continue with `o`: the pool lacks f and o; (1, 0) is
    // nearest and gets `a`, (0, 4) gets `b`.
    s.handle_key(Key::Char('b'));
    assert_eq!(s.viewer().cursor(), (0, 4));
}

#[test]
fn word_jump_trailing_space_matches_the_line_end() {
    let mut s = state_on(&["foo", "foobar"]);
    assert_eq!(s.viewer().cursor(), (1, 0));
    s.handle_key(Key::Char('s'));
    typed(&mut s, "foo ");
    // Only the first line ends after "foo"; its match gets `a`.
    s.handle_key(Key::Char('a'));
    assert_eq!(s.viewer().cursor(), (0, 0));
}

#[test]
fn word_jump_esc_and_backspace() {
    let mut s = state_on(&["abc", "abd"]);
    s.handle_key(Key::Char('s'));
    // Backspace with nothing typed changes nothing.
    let fx = s.handle_key(Key::Backspace);
    assert!(asks(&fx, None, None, false, false));
    typed(&mut s, "ab");
    let fx = s.handle_key(Key::Backspace);
    assert!(asks(&fx, None, None, false, true));
    // Other keys change nothing.
    let fx = s.handle_key(Key::Up);
    assert!(asks(&fx, None, None, false, false));
    let fx = s.handle_key(Key::Esc);
    assert!(asks(&fx, None, None, false, true));
    assert_eq!(s.viewer().cursor(), (1, 0));
    // Out of the mode, Esc closes.
    let fx = s.handle_key(Key::Esc);
    assert!(asks(&fx, None, None, true, false));
}

#[test]
fn select_word_jump_plants_the_anchor() {
    let mut s = state_on(&["one two", "three"]);
    s.handle_key(Key::Char('S'));
    typed(&mut s, "t");
    // `w` follows `t` once: it is the label of "two".
    s.handle_key(Key::Char('w'));
    assert_eq!(s.viewer().cursor(), (0, 4));
    assert_eq!(s.selection_text(), Some("t".to_string()));
    s.handle_key(Key::Right);
    assert_eq!(s.selection_text(), Some("tw".to_string()));
}

#[test]
fn word_jump_extends_a_selection() {
    let mut s = state_on(&["one two", "three"]);
    s.handle_key(Key::Char(' '));
    s.handle_key(Key::Char('s'));
    typed(&mut s, "t");
    s.handle_key(Key::Char('w'));
    // The anchor stays at (1, 0); the cursor moved to "two".
    assert_eq!(s.viewer().cursor(), (0, 4));
    assert_eq!(s.selection_text(), Some("two\nt".to_string()));
}

#[test]
fn word_jump_without_enough_labels_types_on() {
    let mut s = state_on(&["xy xy xy"]);
    s.set_labels(Some("ab".to_string()), None);
    s.handle_key(Key::Char('s'));
    typed(&mut s, "x");
    // Three matches share `y` and the pool holds two labels: none is
    // given, so `a` is typed and nothing matches "xa".
    s.handle_key(Key::Char('a'));
    assert_eq!(s.viewer().cursor(), (0, 0));
    s.handle_key(Key::Backspace);
    s.handle_key(Key::Char('b'));
    assert_eq!(s.viewer().cursor(), (0, 0));
    s.handle_key(Key::Esc);
    // Three labels cover the three matches, nearest first.
    s.set_labels(Some("abc".to_string()), None);
    s.handle_key(Key::Char('s'));
    typed(&mut s, "x");
    s.handle_key(Key::Char('c'));
    assert_eq!(s.viewer().cursor(), (0, 6));
}
