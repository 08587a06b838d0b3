use zellij_flash::motion::{move_backward, move_forward};
use zellij_flash::plugin::{Key, State};
use zellij_flash::viewer::Viewer;

fn viewer_at(lines: &[&str], line: usize, col: usize) -> Viewer {
    let mut v = Viewer::new();
    v.accept_scrollback(Vec::new(), lines.iter().map(|s| s.to_string()).collect(), usize::MAX);
    v.move_to(line, col);
    v
}

const TEXT: [&str; 3] = ["foo bar_baz, qux", "", "  (x) end"];

#[test]
fn w_goes_to_word_starts_across_lines() {
    let mut v = viewer_at(&TEXT, 0, 0);
    let mut seen = Vec::new();
    for _ in 0..5 {
        move_forward(&mut v, false, false);
        seen.push(v.cursor());
    }
    assert_eq!(seen, vec![(0, 4), (0, 13), (2, 3), (2, 6), (2, 6)]);
}

#[test]
fn big_w_goes_to_non_blank_runs() {
    let mut v = viewer_at(&TEXT, 0, 0);
    let mut seen = Vec::new();
    for _ in 0..5 {
        move_forward(&mut v, true, false);
        seen.push(v.cursor());
    }
    assert_eq!(seen, vec![(0, 4), (0, 13), (2, 2), (2, 6), (2, 6)]);
}

#[test]
fn e_goes_to_word_ends() {
    let mut v = viewer_at(&TEXT, 0, 0);
    let mut seen = Vec::new();
    for _ in 0..6 {
        move_forward(&mut v, false, true);
        seen.push(v.cursor());
    }
    assert_eq!(seen, vec![(0, 2), (0, 10), (0, 15), (2, 3), (2, 8), (2, 8)]);
    let mut v = viewer_at(&TEXT, 0, 4);
    move_forward(&mut v, false, true);
    assert_eq!(v.cursor(), (0, 10));
}

#[test]
fn big_e_goes_to_run_ends() {
    let mut v = viewer_at(&TEXT, 0, 0);
    let mut seen = Vec::new();
    for _ in 0..5 {
        move_forward(&mut v, true, true);
        seen.push(v.cursor());
    }
    assert_eq!(seen, vec![(0, 2), (0, 11), (0, 15), (2, 4), (2, 8)]);
}

#[test]
fn b_goes_back_to_word_starts() {
    let mut v = viewer_at(&TEXT, 2, 6);
    let mut seen = Vec::new();
    for _ in 0..5 {
        move_backward(&mut v, false);
        seen.push(v.cursor());
    }
    assert_eq!(seen, vec![(2, 3), (0, 13), (0, 4), (0, 0), (0, 0)]);
    let mut v = viewer_at(&TEXT, 2, 6);
    move_backward(&mut v, true);
    assert_eq!(v.cursor(), (2, 2));
    move_backward(&mut v, true);
    assert_eq!(v.cursor(), (0, 13));
}

#[test]
fn motions_from_the_end_of_a_line() {
    let mut v = viewer_at(&TEXT, 0, 16);
    move_forward(&mut v, false, false);
    assert_eq!(v.cursor(), (2, 3));
    let mut v = viewer_at(&["", ""], 1, 0);
    move_forward(&mut v, false, false);
    assert_eq!(v.cursor(), (1, 0));
    move_backward(&mut v, false);
    assert_eq!(v.cursor(), (1, 0));
}

#[test]
fn word_keys_move_the_cursor() {
    let mut s = State::new();
    s.accept_scrollback(Vec::new(), TEXT.iter().map(|l| l.to_string()).collect());
    assert_eq!(s.viewer().cursor(), (2, 0));
    let fx = s.handle_key(Key::Char('w'));
    assert!(fx.render);
    assert_eq!(s.viewer().cursor(), (2, 3));
    s.handle_key(Key::Char('E'));
    assert_eq!(s.viewer().cursor(), (2, 4));
    s.handle_key(Key::Char('b'));
    assert_eq!(s.viewer().cursor(), (2, 3));
    s.handle_key(Key::Char('B'));
    assert_eq!(s.viewer().cursor(), (2, 2));
    s.handle_key(Key::Char('W'));
    assert_eq!(s.viewer().cursor(), (2, 6));
    s.handle_key(Key::Char('e'));
    assert_eq!(s.viewer().cursor(), (2, 8));
}
