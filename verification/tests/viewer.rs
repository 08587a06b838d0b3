use zellij_flash::viewer::{Viewer, INITIAL_CONTENT_COLS, INITIAL_CONTENT_ROWS, PAN_COLS};

fn strings(items: &[&str]) -> Vec<String> {
    items.iter().map(|s| s.to_string()).collect()
}

fn viewer_with(lines: &[&str]) -> Viewer {
    let mut v = Viewer::new();
    v.accept_scrollback(Vec::new(), strings(lines), usize::MAX);
    v
}

#[test]
fn new_viewer_is_empty_at_origin() {
    let v = Viewer::new();
    assert!(v.lines().is_empty());
    assert!(!v.extraction_done());
    assert_eq!(v.cursor(), (0, 0));
    assert_eq!(v.scroll_y(), 0);
    assert_eq!(v.content_rows(), INITIAL_CONTENT_ROWS);
    assert_eq!(v.content_rows(), 24);
    assert_eq!(v.scroll_x(), 0);
    assert_eq!(v.content_cols(), INITIAL_CONTENT_COLS);
}

#[test]
fn capture_joins_above_and_viewport_and_starts_on_last_line() {
    let mut v = Viewer::new();
    v.accept_scrollback(strings(&["a", "b", "c"]), strings(&["d", "e"]), usize::MAX);
    assert_eq!(v.lines(), &strings(&["a", "b", "c", "d", "e"]));
    assert!(v.extraction_done());
    assert_eq!(v.cursor(), (4, 0));
    assert_eq!(v.scroll_y(), 0);
}

#[test]
fn capture_keeps_the_last_two_hundred_lines() {
    let above: Vec<String> = (0..240).map(|i| format!("line {i}")).collect();
    let viewport: Vec<String> = (240..250).map(|i| format!("line {i}")).collect();
    let mut v = Viewer::new();
    v.accept_scrollback(above, viewport, 200);
    assert_eq!(v.lines().len(), 200);
    assert_eq!(v.lines()[0], "line 50");
    assert_eq!(v.lines()[199], "line 249");
    assert_eq!(v.cursor(), (199, 0));
    // The last line sits on the bottom row of 24: 199 - 23.
    assert_eq!(v.scroll_y(), 176);
}

#[test]
fn empty_capture_leaves_cursor_at_origin() {
    let mut v = Viewer::new();
    v.accept_scrollback(Vec::new(), Vec::new(), usize::MAX);
    assert!(v.extraction_done());
    assert!(v.lines().is_empty());
    assert_eq!(v.cursor(), (0, 0));
    assert_eq!(v.scroll_y(), 0);
}

#[test]
fn line_len_counts_characters() {
    let v = viewer_with(&["héllo", ""]);
    assert_eq!(v.line_len(0), 5);
    assert_eq!(v.line_len(1), 0);
    assert_eq!(v.line_len(7), 0);
}

#[test]
fn up_and_down_clamp_the_column() {
    let mut v = viewer_with(&["abcdef", "ab", "abcd"]);
    v.move_right();
    v.move_right();
    v.move_right();
    assert_eq!(v.cursor(), (2, 3));
    v.move_up();
    assert_eq!(v.cursor(), (1, 2));
    v.move_up();
    assert_eq!(v.cursor(), (0, 2));
    v.move_up();
    assert_eq!(v.cursor(), (0, 2));
    v.move_down();
    v.move_down();
    assert_eq!(v.cursor(), (2, 2));
    v.move_down();
    assert_eq!(v.cursor(), (2, 2));
}

#[test]
fn left_and_right_wrap_at_line_edges() {
    let mut v = viewer_with(&["ab", "c"]);
    assert_eq!(v.cursor(), (1, 0));
    v.move_left();
    assert_eq!(v.cursor(), (0, 2));
    v.move_right();
    assert_eq!(v.cursor(), (1, 0));
    v.move_right();
    assert_eq!(v.cursor(), (1, 1));
    v.move_right();
    assert_eq!(v.cursor(), (1, 1));
    for _ in 0..10 {
        v.move_left();
    }
    assert_eq!(v.cursor(), (0, 0));
}

#[test]
fn left_undoes_right_and_right_undoes_left() {
    let mut v = viewer_with(&["xy", "", "z"]);
    v.move_up();
    v.move_up();
    let start = v.cursor();
    v.move_right();
    v.move_left();
    assert_eq!(v.cursor(), start);
    for _ in 0..3 {
        let before = v.cursor();
        v.move_right();
        v.move_left();
        assert_eq!(v.cursor(), before);
        v.move_right();
    }
    let before = v.cursor();
    v.move_left();
    v.move_right();
    assert_eq!(v.cursor(), before);
}

fn numbered(n: usize) -> Vec<String> {
    (0..n).map(|i| format!("{i}")).collect()
}

#[test]
fn single_line_moves_scroll_just_enough() {
    let mut v = Viewer::new();
    v.accept_scrollback(numbered(60), Vec::new(), usize::MAX);
    v.set_frame_size(14, 80);
    assert_eq!(v.content_rows(), 10);
    assert_eq!(v.cursor(), (59, 0));
    // The frame of 10 rows scrolls to show the cursor on its bottom row.
    assert_eq!(v.scroll_y(), 50);
    v.move_up();
    assert_eq!(v.cursor(), (58, 0));
    assert_eq!(v.scroll_y(), 50);
    for _ in 0..13 {
        v.move_up();
    }
    assert_eq!(v.cursor(), (45, 0));
    assert_eq!(v.scroll_y(), 45);
    for _ in 0..10 {
        v.move_up();
    }
    assert_eq!(v.cursor(), (35, 0));
    assert_eq!(v.scroll_y(), 35);
    for _ in 0..10 {
        v.move_down();
    }
    assert_eq!(v.cursor(), (45, 0));
    assert_eq!(v.scroll_y(), 36);
}

#[test]
fn half_page_jumps_center_the_cursor() {
    let mut v = Viewer::new();
    v.accept_scrollback(numbered(100), Vec::new(), usize::MAX);
    v.set_frame_size(24, 80);
    assert_eq!(v.content_rows(), 20);
    v.page_up();
    assert_eq!(v.cursor(), (89, 0));
    assert_eq!(v.scroll_y(), 79);
    v.page_up();
    v.page_up();
    assert_eq!(v.cursor(), (69, 0));
    assert_eq!(v.scroll_y(), 59);
    v.page_down();
    assert_eq!(v.cursor(), (79, 0));
    assert_eq!(v.scroll_y(), 69);
    for _ in 0..10 {
        v.page_up();
    }
    assert_eq!(v.cursor(), (0, 0));
    assert_eq!(v.scroll_y(), 0);
    for _ in 0..10 {
        v.page_down();
    }
    assert_eq!(v.cursor(), (99, 0));
    assert_eq!(v.scroll_y(), 80);
}

#[test]
fn half_page_is_at_least_one_line() {
    let mut v = Viewer::new();
    v.accept_scrollback(numbered(5), Vec::new(), usize::MAX);
    v.set_frame_size(3, 80);
    assert_eq!(v.content_rows(), 1);
    v.page_up();
    assert_eq!(v.cursor(), (3, 0));
    assert_eq!(v.scroll_y(), 3);
    v.page_down();
    assert_eq!(v.cursor(), (4, 0));
    assert_eq!(v.scroll_y(), 4);
}

#[test]
fn page_keeps_column_within_line() {
    let mut v = viewer_with(&["long line here", "x"]);
    v.move_up();
    for _ in 0..5 {
        v.move_right();
    }
    assert_eq!(v.cursor(), (0, 5));
    v.page_down();
    assert_eq!(v.cursor(), (1, 1));
}

#[test]
fn frame_clamps_scroll_to_the_last_full_page() {
    let mut v = Viewer::new();
    v.accept_scrollback(numbered(50), Vec::new(), usize::MAX);
    // Captured with 24 assumed rows: the last line on row 24.
    assert_eq!(v.scroll_y(), 26);
    v.set_frame_size(44, 80);
    assert_eq!(v.content_rows(), 40);
    assert_eq!(v.scroll_y(), 10);
    v.set_frame_size(2, 80);
    assert_eq!(v.content_rows(), 1);
    // One row: the cursor's.
    assert_eq!(v.scroll_y(), 49);
}

#[test]
fn down_undoes_up_on_the_line() {
    let mut v = viewer_with(&["abc", "a", "abcdef"]);
    for _ in 0..4 {
        v.move_right();
    }
    assert_eq!(v.cursor(), (2, 4));
    v.move_up();
    assert_eq!(v.cursor(), (1, 1));
    v.move_down();
    assert_eq!(v.cursor(), (2, 1));
}

#[test]
fn frame_keeps_the_cursor() {
    let mut v = Viewer::new();
    v.accept_scrollback(numbered(40), Vec::new(), usize::MAX);
    v.move_up();
    v.move_right();
    let before = v.cursor();
    v.set_frame_size(9, 80);
    assert_eq!(v.cursor(), before);
    assert_eq!(v.content_rows(), 5);
    v.set_frame_size(0, 80);
    assert_eq!(v.content_rows(), 1);
    assert_eq!(v.cursor(), before);
}

#[test]
fn line_start_and_end_keys() {
    let mut v = viewer_with(&["hello", ""]);
    v.move_up();
    v.move_line_end();
    assert_eq!(v.cursor(), (0, 4));
    v.move_line_start();
    assert_eq!(v.cursor(), (0, 0));
    v.move_down();
    v.move_line_end();
    assert_eq!(v.cursor(), (1, 0));
}

#[test]
fn horizontal_scroll_follows_the_cursor() {
    let mut v = viewer_with(&["0123456789abcdefghij"]);
    // Six content rows: a one-digit gutter number, so 14 - 3 = 11 columns.
    v.set_frame_size(10, 14);
    assert_eq!(v.content_cols(), 11);
    // The last character: the rest from column 10 fits in 11 columns.
    v.move_line_end();
    assert_eq!(v.cursor(), (0, 19));
    assert_eq!(v.scroll_x(), 10);
    v.move_line_start();
    assert_eq!(v.scroll_x(), 0);
    // Ten columns show text, the eleventh the indicator: column 10 scrolls.
    for _ in 0..9 {
        v.move_right();
    }
    assert_eq!(v.scroll_x(), 0);
    v.move_right();
    assert_eq!(v.cursor(), (0, 10));
    assert_eq!(v.scroll_x(), 1);
}

#[test]
fn pans_move_the_view_and_keep_the_cursor() {
    let mut v = viewer_with(&["0123456789abcdefghij"]);
    v.set_frame_size(10, 14);
    v.move_line_end();
    assert_eq!(v.scroll_x(), 10);
    v.pan_right();
    assert_eq!(v.scroll_x(), 10 + PAN_COLS);
    assert_eq!(v.cursor(), (0, 19));
    v.pan_left();
    v.pan_left();
    assert_eq!(v.scroll_x(), 5);
    v.pan_left();
    v.pan_left();
    assert_eq!(v.scroll_x(), 0);
    assert_eq!(v.cursor(), (0, 19));
}

#[test]
fn capture_resets_the_horizontal_scroll() {
    let mut v = viewer_with(&["0123456789abcdefghij"]);
    v.set_frame_size(10, 14);
    v.move_line_end();
    v.accept_scrollback(Vec::new(), strings(&["a", "b"]), usize::MAX);
    assert_eq!(v.scroll_x(), 0);
    assert_eq!(v.cursor(), (1, 0));
}

#[test]
fn frame_size_change_keeps_the_cursor_in_view() {
    let mut v = Viewer::new();
    v.accept_scrollback(numbered(30), Vec::new(), usize::MAX);
    v.set_frame_size(10, 80);
    assert_eq!(v.cursor(), (29, 0));
    assert_eq!(v.content_rows(), 6);
    assert_eq!(v.scroll_y(), 24);
    // A narrower frame brings a far column back into view.
    let mut v = viewer_with(&["0123456789abcdefghijklmnopqrstuvwxyz"]);
    v.set_frame_size(10, 80);
    v.move_line_end();
    assert_eq!(v.scroll_x(), 0);
    v.set_frame_size(10, 14);
    assert_eq!(v.content_cols(), 11);
    assert_eq!(v.scroll_x(), 26);
    // At an unchanged width a pan stays.
    v.pan_left();
    v.set_frame_size(10, 14);
    assert_eq!(v.scroll_x(), 21);
}
