//! The captured scrollback with its cursor and viewport.
//!
//! The cursor is a logical `(line, char column)` position into the captured
//! lines; `scroll_y` is the first line shown in a content area that is
//! `content_rows` rows high, and `scroll_x` the first column shown in a text
//! area `content_cols` columns wide. A line that runs past the right edge
//! gives up its last column to a `…` indicator.

use vstd::prelude::*;

verus! {

/// The content height assumed before the first frame is drawn.
pub const INITIAL_CONTENT_ROWS: usize = 24;

/// The text width assumed before the first frame is drawn.
pub const INITIAL_CONTENT_COLS: usize = 76;

/// The columns a pan moves the view by.
pub const PAN_COLS: usize = 5;

/// The abstract state of a [`Viewer`].
pub struct ViewerModel {
    pub lines: Seq<Seq<char>>,
    pub extraction_done: bool,
    pub line: int,
    pub col: int,
    pub scroll_y: int,
    pub content_rows: int,
    pub scroll_x: int,
    pub content_cols: int,
}

/// The characters of each captured line.
pub open spec fn lines_view(lines: Seq<String>) -> Seq<Seq<char>> {
    lines.map_values(|s: String| s@)
}

/// The number of characters of line `i`, or 0 where there is no such line.
pub open spec fn line_len(lines: Seq<Seq<char>>, i: int) -> int {
    if 0 <= i < lines.len() {
        lines[i].len() as int
    } else {
        0
    }
}

/// The index of the last line, or 0 when there are none.
pub open spec fn last_line(lines: Seq<Seq<char>>) -> int {
    if lines.len() == 0 {
        0
    } else {
        lines.len() - 1
    }
}

/// A cursor position that lies in the text: on an existing line (line 0 when
/// there are none) and at most one past that line's last character.
pub open spec fn valid_position(lines: Seq<Seq<char>>, line: int, col: int) -> bool {
    &&& 0 <= line <= last_line(lines)
    &&& 0 <= col <= line_len(lines, line)
}

/// What every viewer state satisfies.
pub open spec fn valid(m: ViewerModel) -> bool {
    &&& valid_position(m.lines, m.line, m.col)
    &&& m.lines.len() <= usize::MAX
    &&& m.col <= usize::MAX
    &&& 1 <= m.content_rows <= usize::MAX
    &&& 0 <= m.scroll_y <= usize::MAX
    &&& 2 <= m.content_cols <= usize::MAX
    &&& 0 <= m.scroll_x <= usize::MAX
}

/// The columns of a line of length `len` that show text from `scroll_x` on:
/// all of them where the rest of the line fits, else all but the last, which
/// shows the `…` indicator.
pub open spec fn visible_cols(len: int, scroll_x: int, cols: int) -> int {
    if len - scroll_x > cols {
        cols - 1
    } else {
        cols
    }
}

/// The cursor column is among the columns shown.
pub open spec fn cursor_col_visible(m: ViewerModel) -> bool {
    m.scroll_x <= m.col < m.scroll_x + visible_cols(
        line_len(m.lines, m.line),
        m.scroll_x,
        m.content_cols,
    )
}

/// The least change of `scroll_x` that shows column `col` of a line of
/// length `len`: where the column lies right of the view, it lands on the
/// last column before the indicator's.
pub open spec fn into_view_x(col: int, len: int, scroll_x: int, cols: int) -> int {
    if col < scroll_x {
        col
    } else if col - scroll_x < visible_cols(len, scroll_x, cols) {
        scroll_x
    } else {
        col - (cols - 2)
    }
}

/// The cursor line is among the rows shown.
pub open spec fn cursor_visible(m: ViewerModel) -> bool {
    m.scroll_y <= m.line < m.scroll_y + m.content_rows
}

/// The least change of `scroll_y` that shows `line`.
pub open spec fn into_view(line: int, scroll_y: int, rows: int) -> int {
    if line < scroll_y {
        line
    } else if line >= scroll_y + rows {
        line + 1 - rows
    } else {
        scroll_y
    }
}

/// The largest `scroll_y` that leaves no empty rows below the last line.
pub open spec fn max_scroll(lines: Seq<Seq<char>>, rows: int) -> int {
    if lines.len() > rows {
        lines.len() - rows
    } else {
        0
    }
}

/// The `scroll_y` that puts `line` on the middle row, as far as the text allows.
pub open spec fn centered(lines: Seq<Seq<char>>, line: int, rows: int) -> int {
    let ideal = if line > rows / 2 {
        line - rows / 2
    } else {
        0
    };
    let top = max_scroll(lines, rows);
    if ideal < top {
        ideal
    } else {
        top
    }
}

/// The distance of a half-page jump.
pub open spec fn half_page(rows: int) -> int {
    if rows / 2 > 1 {
        rows / 2
    } else {
        1
    }
}

/// The `scroll_x` that shows column `col` of line `line` of `m`.
pub open spec fn follow_x(m: ViewerModel, line: int, col: int) -> int {
    into_view_x(col, line_len(m.lines, line), m.scroll_x, m.content_cols)
}

/// `m` with the cursor at `col` on its line and the view following it.
pub open spec fn at_col(m: ViewerModel, col: int) -> ViewerModel {
    ViewerModel { col, scroll_x: follow_x(m, m.line, col), ..m }
}

/// `m` with the cursor at `(line, col)` and the viewport following it.
pub open spec fn at_scrolled(m: ViewerModel, line: int, col: int) -> ViewerModel {
    ViewerModel {
        line,
        col,
        scroll_y: into_view(line, m.scroll_y, m.content_rows),
        scroll_x: follow_x(m, line, col),
        ..m
    }
}

/// `m` with the cursor at `(line, col)` and the viewport centred on it.
pub open spec fn at_centered(m: ViewerModel, line: int, col: int) -> ViewerModel {
    ViewerModel {
        line,
        col,
        scroll_y: centered(m.lines, line, m.content_rows),
        scroll_x: follow_x(m, line, col),
        ..m
    }
}

pub open spec fn min(a: int, b: int) -> int {
    if a < b {
        a
    } else {
        b
    }
}

/// One line up, the column clamped to the new line.
pub open spec fn moved_up(m: ViewerModel) -> ViewerModel {
    if m.line == 0 {
        m
    } else {
        at_scrolled(m, m.line - 1, min(m.col, line_len(m.lines, m.line - 1)))
    }
}

/// One line down, the column clamped to the new line.
pub open spec fn moved_down(m: ViewerModel) -> ViewerModel {
    if m.line + 1 >= m.lines.len() {
        m
    } else {
        at_scrolled(m, m.line + 1, min(m.col, line_len(m.lines, m.line + 1)))
    }
}

/// One character back in stream order: from column 0 to the end of the previous line.
pub open spec fn moved_left(m: ViewerModel) -> ViewerModel {
    if m.col > 0 {
        at_col(m, m.col - 1)
    } else if m.line > 0 {
        at_scrolled(m, m.line - 1, line_len(m.lines, m.line - 1))
    } else {
        m
    }
}

/// One character forward in stream order: from the end of a line to column 0 of the next.
pub open spec fn moved_right(m: ViewerModel) -> ViewerModel {
    if m.col < line_len(m.lines, m.line) {
        at_col(m, m.col + 1)
    } else if m.line + 1 < m.lines.len() {
        at_scrolled(m, m.line + 1, 0)
    } else {
        m
    }
}

/// Half a page up, the viewport centred on the cursor.
pub open spec fn paged_up(m: ViewerModel) -> ViewerModel {
    let half = half_page(m.content_rows);
    let line = if m.line > half {
        m.line - half
    } else {
        0
    };
    at_centered(m, line, min(m.col, line_len(m.lines, line)))
}

/// Half a page down, the viewport centred on the cursor.
pub open spec fn paged_down(m: ViewerModel) -> ViewerModel {
    let half = half_page(m.content_rows);
    let line = min(m.line + half, last_line(m.lines));
    at_centered(m, line, min(m.col, line_len(m.lines, line)))
}

/// The last `keep` of the captured lines.
pub open spec fn kept_lines(all: Seq<Seq<char>>, keep: int) -> Seq<Seq<char>> {
    if all.len() > keep {
        all.subrange(all.len() - keep, all.len() as int)
    } else {
        all
    }
}

/// The cursor at the start of its line.
pub open spec fn to_line_start(m: ViewerModel) -> ViewerModel {
    at_col(m, 0)
}

/// The cursor on the last character of its line (column 0 on an empty line).
pub open spec fn to_line_end(m: ViewerModel) -> ViewerModel {
    let len = line_len(m.lines, m.line);
    at_col(
        m,
        if len > 0 {
            len - 1
        } else {
            0
        },
    )
}

/// The view panned `PAN_COLS` columns left, stopping at column 0; the cursor stays.
pub open spec fn panned_left(m: ViewerModel) -> ViewerModel {
    ViewerModel {
        scroll_x: if m.scroll_x > PAN_COLS {
            m.scroll_x - PAN_COLS
        } else {
            0
        },
        ..m
    }
}

/// The view panned `PAN_COLS` columns right; the cursor stays.
pub open spec fn panned_right(m: ViewerModel) -> ViewerModel {
    ViewerModel { scroll_x: min(m.scroll_x + PAN_COLS, usize::MAX as int), ..m }
}

/// The state after a capture of `lines`: the cursor at the start of the
/// last one, that line on the bottom row and the view at column 0.
pub open spec fn captured(m: ViewerModel, lines: Seq<Seq<char>>) -> ViewerModel {
    let last = last_line(lines);
    ViewerModel {
        lines,
        extraction_done: true,
        line: last,
        col: 0,
        scroll_y: if last > m.content_rows - 1 {
            last - (m.content_rows - 1)
        } else {
            0
        },
        scroll_x: 0,
        ..m
    }
}

/// The text width of a frame `rows` by `cols`, both cut to 16 bits: the
/// columns beside the gutter of a content area four rows lower than the
/// frame, at least two.
pub open spec fn frame_text_cols(rows: usize, cols: usize) -> int {
    let height = if (rows as u16) > 4 {
        (rows as u16) - 4
    } else {
        0
    };
    let w = crate::view::text_width((cols as u16) as int, height);
    if w > 2 {
        w
    } else {
        2
    }
}

/// The state at the start of a frame `rows` rows high and `cols` wide: the
/// content area takes all rows but the footer's four, at least one;
/// `scroll_y` is clamped so that no empty rows are left below the last
/// line and then moved as little as possible to show the cursor line; the
/// text width follows the frame, and where it changed `scroll_x` moves as
/// little as possible to show the cursor column.
pub open spec fn framed(m: ViewerModel, rows: usize, cols: usize) -> ViewerModel {
    let content_rows = if rows - 4 > 1 {
        rows - 4
    } else {
        1
    };
    let top = max_scroll(m.lines, content_rows);
    let clamped = if m.scroll_y < top {
        m.scroll_y
    } else {
        top
    };
    let width = frame_text_cols(rows, cols);
    ViewerModel {
        content_rows,
        scroll_y: into_view(m.line, clamped, content_rows),
        content_cols: width,
        scroll_x: if width == m.content_cols {
            m.scroll_x
        } else {
            into_view_x(m.col, line_len(m.lines, m.line), m.scroll_x, width)
        },
        ..m
    }
}

/// There are at most `usize::MAX` lines, each of at most `usize::MAX`
/// characters.
pub open spec fn lines_fit(lines: Seq<Seq<char>>) -> bool {
    &&& lines.len() <= usize::MAX
    &&& forall|i: int| 0 <= i < lines.len() ==> #[trigger] lines[i].len() <= usize::MAX
}

/// Every operation keeps the viewer valid: the cursor stays in the text and
/// the content area at least one row high.
pub proof fn lemma_operations_keep_valid(
    m: ViewerModel,
    lines: Seq<Seq<char>>,
    rows: usize,
    cols: usize,
)
    requires
        valid(m),
        lines_fit(m.lines),
        lines_fit(lines),
    ensures
        valid(to_line_start(m)),
        valid(to_line_end(m)),
        valid(panned_left(m)),
        valid(panned_right(m)),
        valid(moved_up(m)),
        valid(moved_down(m)),
        valid(moved_left(m)),
        valid(moved_right(m)),
        valid(paged_up(m)),
        valid(paged_down(m)),
        valid(captured(m, lines)),
        valid(framed(m, rows, cols)),
{
}

/// Every cursor move scrolls horizontally so that the cursor column is shown;
/// a pan keeps the cursor where it is.
pub proof fn lemma_moves_show_cursor_column(m: ViewerModel)
    requires
        valid(m),
    ensures
        cursor_col_visible(moved_up(m)) || moved_up(m) == m,
        cursor_col_visible(moved_down(m)) || moved_down(m) == m,
        cursor_col_visible(moved_left(m)) || moved_left(m) == m,
        cursor_col_visible(moved_right(m)) || moved_right(m) == m,
        cursor_col_visible(paged_up(m)),
        cursor_col_visible(paged_down(m)),
        cursor_col_visible(to_line_start(m)),
        cursor_col_visible(to_line_end(m)),
        panned_left(m).line == m.line && panned_left(m).col == m.col,
        panned_right(m).line == m.line && panned_right(m).col == m.col,
{
}

/// A move that changes the cursor line scrolls so that the line is shown.
pub proof fn lemma_line_moves_show_cursor(m: ViewerModel)
    requires
        valid(m),
    ensures
        moved_up(m).line != m.line ==> cursor_visible(moved_up(m)),
        moved_down(m).line != m.line ==> cursor_visible(moved_down(m)),
        moved_left(m).line != m.line ==> cursor_visible(moved_left(m)),
        moved_right(m).line != m.line ==> cursor_visible(moved_right(m)),
        moved_left(m).line == m.line ==> moved_left(m).scroll_y == m.scroll_y,
        moved_right(m).line == m.line ==> moved_right(m).scroll_y == m.scroll_y,
{
}

/// After a half-page jump the cursor line is shown.
pub proof fn lemma_page_jumps_show_cursor(m: ViewerModel)
    requires
        valid(m),
    ensures
        cursor_visible(paged_up(m)),
        cursor_visible(paged_down(m)),
{
}

/// A half-page jump moves the cursor by half the content height (at least
/// one line), clamped to the text, and puts its line on the middle row where
/// the text allows it; the viewport never leaves empty rows below the last line.
pub proof fn lemma_page_jumps_center(m: ViewerModel)
    requires
        valid(m),
    ensures
        paged_up(m).line == if m.line > half_page(m.content_rows) {
            m.line - half_page(m.content_rows)
        } else {
            0
        },
        paged_down(m).line == min(m.line + half_page(m.content_rows), last_line(m.lines)),
        paged_up(m).scroll_y <= max_scroll(m.lines, m.content_rows),
        paged_down(m).scroll_y <= max_scroll(m.lines, m.content_rows),
        paged_up(m).line >= m.content_rows / 2 && paged_up(m).line - m.content_rows / 2 <= max_scroll(
            m.lines,
            m.content_rows,
        ) ==> paged_up(m).scroll_y == paged_up(m).line - m.content_rows / 2,
        paged_down(m).line >= m.content_rows / 2 && paged_down(m).line - m.content_rows / 2
            <= max_scroll(m.lines, m.content_rows) ==> paged_down(m).scroll_y == paged_down(m).line
            - m.content_rows / 2,
{
}

/// A capture keeps the last `keep` lines and shows the cursor at the
/// start of the last one.
pub proof fn lemma_capture_shows_last_line(m: ViewerModel, all: Seq<Seq<char>>, keep: int)
    requires
        valid(m),
        0 <= keep,
    ensures
        captured(m, kept_lines(all, keep)).lines.len() == if all.len() > keep {
            keep
        } else {
            all.len() as int
        },
        forall|i: int|
            0 <= i < captured(m, kept_lines(all, keep)).lines.len() ==> #[trigger] captured(m, kept_lines(all, keep)).lines[i] == all[all.len() - captured(m, kept_lines(all, keep)).lines.len() + i],
        captured(m, kept_lines(all, keep)).line == last_line(captured(m, kept_lines(all, keep)).lines),
        captured(m, kept_lines(all, keep)).col == 0,
        cursor_visible(captured(m, kept_lines(all, keep))),
{
}

/// Moving right and then left returns to the same position, unless the
/// cursor was already at the very end of the text.
pub proof fn lemma_left_undoes_right(m: ViewerModel)
    requires
        valid(m),
        m.col < line_len(m.lines, m.line) || m.line + 1 < m.lines.len(),
    ensures
        moved_left(moved_right(m)).line == m.line,
        moved_left(moved_right(m)).col == m.col,
{
}

/// Moving left and then right returns to the same position, unless the
/// cursor was already at the very start of the text.
pub proof fn lemma_right_undoes_left(m: ViewerModel)
    requires
        valid(m),
        m.col > 0 || m.line > 0,
    ensures
        moved_right(moved_left(m)).line == m.line,
        moved_right(moved_left(m)).col == m.col,
{
}

/// Moving up and then down returns to the same line, unless the cursor was
/// already on the first line.
pub proof fn lemma_down_undoes_up(m: ViewerModel)
    requires
        valid(m),
        m.line > 0,
    ensures
        moved_down(moved_up(m)).line == m.line,
{
}

/// Cursor moves never change the captured lines or the content height.
pub proof fn lemma_moves_keep_text(m: ViewerModel)
    ensures
        moved_up(m).lines == m.lines && moved_up(m).content_rows == m.content_rows,
        moved_down(m).lines == m.lines && moved_down(m).content_rows == m.content_rows,
        moved_left(m).lines == m.lines && moved_left(m).content_rows == m.content_rows,
        moved_right(m).lines == m.lines && moved_right(m).content_rows == m.content_rows,
        paged_up(m).lines == m.lines && paged_up(m).content_rows == m.content_rows,
        paged_down(m).lines == m.lines && paged_down(m).content_rows == m.content_rows,
{
}

/// The viewer before a capture: no lines, the cursor at the origin, 24 content rows.
pub open spec fn initial_viewer() -> ViewerModel {
    ViewerModel {
        lines: Seq::empty(),
        extraction_done: false,
        line: 0,
        col: 0,
        scroll_y: 0,
        content_rows: INITIAL_CONTENT_ROWS as int,
        scroll_x: 0,
        content_cols: INITIAL_CONTENT_COLS as int,
    }
}

/// The scrollback viewer: captured lines, cursor and viewport.
pub struct Viewer {
    lines: Vec<String>,
    extraction_done: bool,
    cursor: (usize, usize),
    scroll_y: usize,
    content_rows: usize,
    scroll_x: usize,
    content_cols: usize,
}

impl View for Viewer {
    type V = ViewerModel;

    closed spec fn view(&self) -> ViewerModel {
        ViewerModel {
            lines: lines_view(self.lines@),
            extraction_done: self.extraction_done,
            line: self.cursor.0 as int,
            col: self.cursor.1 as int,
            scroll_y: self.scroll_y as int,
            content_rows: self.content_rows as int,
            scroll_x: self.scroll_x as int,
            content_cols: self.content_cols as int,
        }
    }
}

impl Viewer {
    #[verifier::type_invariant]
    closed spec fn inv(self) -> bool {
        valid(self@)
    }

    /// An empty viewer: nothing captured, cursor at the origin, 24 content
    /// rows of 76 columns.
    pub fn new() -> (v: Self)
        ensures
            v@ == initial_viewer(),
    {
        let v = Viewer {
            lines: Vec::new(),
            extraction_done: false,
            cursor: (0, 0),
            scroll_y: 0,
            content_rows: INITIAL_CONTENT_ROWS,
            scroll_x: 0,
            content_cols: INITIAL_CONTENT_COLS,
        };
        assert(v@.lines =~= Seq::<Seq<char>>::empty());
        v
    }

    /// The captured lines.
    pub fn lines(&self) -> (r: &Vec<String>)
        ensures
            lines_view(r@) == self@.lines,
            r@.len() == self@.lines.len(),
    {
        &self.lines
    }

    /// Whether a capture has been taken.
    pub fn extraction_done(&self) -> (r: bool)
        ensures
            r == self@.extraction_done,
    {
        self.extraction_done
    }

    /// The cursor as `(line, column)`.
    pub fn cursor(&self) -> (r: (usize, usize))
        ensures
            r.0 == self@.line,
            r.1 == self@.col,
    {
        self.cursor
    }

    /// The first line shown.
    pub fn scroll_y(&self) -> (r: usize)
        ensures
            r == self@.scroll_y,
    {
        self.scroll_y
    }

    /// The height of the content area in rows.
    pub fn content_rows(&self) -> (r: usize)
        ensures
            r == self@.content_rows,
    {
        self.content_rows
    }

    /// The first column shown.
    pub fn scroll_x(&self) -> (r: usize)
        ensures
            r == self@.scroll_x,
    {
        self.scroll_x
    }

    /// The width of the text area in columns.
    pub fn content_cols(&self) -> (r: usize)
        ensures
            r == self@.content_cols,
    {
        self.content_cols
    }

    /// Every viewer is valid.
    pub fn check_valid(&self)
        ensures
            valid(self@),
    {
        proof {
            use_type_invariant(self);
        }
    }

    /// The number of characters of line `line`, 0 where there is no such line.
    pub fn line_len(&self, line: usize) -> (n: usize)
        ensures
            n == line_len(self@.lines, line as int),
    {
        if line < self.lines.len() {
            self.lines[line].as_str().unicode_len()
        } else {
            0
        }
    }

    /// Scrolls as little as possible to show the cursor line.
    fn scroll_cursor_into_view(&mut self)
        requires
            valid(old(self)@),
        ensures
            final(self)@ == (ViewerModel {
                scroll_y: into_view(old(self)@.line, old(self)@.scroll_y, old(self)@.content_rows),
                ..old(self)@
            }),
    {
        if self.cursor.0 < self.scroll_y {
            self.scroll_y = self.cursor.0;
        } else if self.cursor.0 - self.scroll_y >= self.content_rows {
            self.scroll_y = self.cursor.0 + 1 - self.content_rows;
        }
    }

    /// Scrolls as little as possible to show the cursor column.
    fn scroll_col_into_view(&mut self)
        requires
            valid(old(self)@),
        ensures
            final(self)@ == (ViewerModel {
                scroll_x: follow_x(old(self)@, old(self)@.line, old(self)@.col),
                ..old(self)@
            }),
    {
        let col = self.cursor.1;
        if col < self.scroll_x {
            self.scroll_x = col;
            return ;
        }
        let len = self.line_len(self.cursor.0);
        let w = self.content_cols;
        let visible = if len > self.scroll_x && len - self.scroll_x > w {
            w - 1
        } else {
            w
        };
        if col - self.scroll_x >= visible {
            self.scroll_x = col - (w - 2);
        }
    }

    /// Puts the cursor at `col` on its line and scrolls to show it.
    fn set_col(&mut self, col: usize)
        requires
            valid(old(self)@),
            col <= line_len(old(self)@.lines, old(self)@.line),
        ensures
            final(self)@ == at_col(old(self)@, col as int),
    {
        self.cursor = (self.cursor.0, col);
        self.scroll_col_into_view();
    }

    /// The largest `scroll_y` that leaves no empty rows below the last line.
    fn max_scroll(&self) -> (s: usize)
        ensures
            s == max_scroll(self@.lines, self@.content_rows),
    {
        self.lines.len().saturating_sub(self.content_rows)
    }

    /// Puts the cursor line on the middle row, as far as the text allows.
    fn recenter_scroll(&mut self)
        requires
            valid(old(self)@),
        ensures
            final(self)@ == (ViewerModel {
                scroll_y: centered(old(self)@.lines, old(self)@.line, old(self)@.content_rows),
                ..old(self)@
            }),
    {
        let half = self.content_rows / 2;
        let ideal = self.cursor.0.saturating_sub(half);
        let top = self.max_scroll();
        self.scroll_y = if ideal < top {
            ideal
        } else {
            top
        };
    }

    /// Moves the cursor one line up.
    pub fn move_up(&mut self)
        ensures
            final(self)@ == moved_up(old(self)@),
    {
        proof {
            use_type_invariant(&*self);
        }
        if self.cursor.0 == 0 {
            return ;
        }
        let line = self.cursor.0 - 1;
        let len = self.line_len(line);
        let col = if self.cursor.1 < len {
            self.cursor.1
        } else {
            len
        };
        self.cursor = (line, col);
        self.scroll_cursor_into_view();
        self.scroll_col_into_view();
    }

    /// Moves the cursor one line down.
    pub fn move_down(&mut self)
        ensures
            final(self)@ == moved_down(old(self)@),
    {
        proof {
            use_type_invariant(&*self);
        }
        if self.cursor.0 + 1 >= self.lines.len() {
            return ;
        }
        let line = self.cursor.0 + 1;
        let len = self.line_len(line);
        let col = if self.cursor.1 < len {
            self.cursor.1
        } else {
            len
        };
        self.cursor = (line, col);
        self.scroll_cursor_into_view();
        self.scroll_col_into_view();
    }

    /// Moves the cursor one character back, wrapping to the end of the previous line.
    pub fn move_left(&mut self)
        ensures
            final(self)@ == moved_left(old(self)@),
    {
        proof {
            use_type_invariant(&*self);
        }
        if self.cursor.1 > 0 {
            self.set_col(self.cursor.1 - 1);
        } else if self.cursor.0 > 0 {
            let line = self.cursor.0 - 1;
            let len = self.line_len(line);
            self.cursor = (line, len);
            self.scroll_cursor_into_view();
            self.scroll_col_into_view();
        }
    }

    /// Moves the cursor one character forward, wrapping to the start of the next line.
    pub fn move_right(&mut self)
        ensures
            final(self)@ == moved_right(old(self)@),
    {
        proof {
            use_type_invariant(&*self);
        }
        let len = self.line_len(self.cursor.0);
        if self.cursor.1 < len {
            self.set_col(self.cursor.1 + 1);
        } else if self.cursor.0 + 1 < self.lines.len() {
            self.cursor = (self.cursor.0 + 1, 0);
            self.scroll_cursor_into_view();
            self.scroll_col_into_view();
        }
    }

    /// Puts the cursor at `(line, col)` and scrolls as little as possible,
    /// in both directions, to show it.
    pub fn move_to(&mut self, line: usize, col: usize)
        requires
            valid_position(old(self)@.lines, line as int, col as int),
        ensures
            final(self)@ == at_scrolled(old(self)@, line as int, col as int),
    {
        proof {
            use_type_invariant(&*self);
        }
        self.cursor = (line, col);
        self.scroll_cursor_into_view();
        self.scroll_col_into_view();
    }

    /// Moves the cursor to line `line`, keeping its column where the line is
    /// long enough and else going to column 0, and centres the viewport on it.
    pub fn jump_to_line(&mut self, line: usize)
        requires
            line < old(self)@.lines.len(),
        ensures
            final(self)@ == at_centered(
                old(self)@,
                line as int,
                if old(self)@.col <= line_len(old(self)@.lines, line as int) {
                    old(self)@.col
                } else {
                    0
                },
            ),
    {
        proof {
            use_type_invariant(&*self);
        }
        let len = self.line_len(line);
        let col = if self.cursor.1 <= len {
            self.cursor.1
        } else {
            0
        };
        self.cursor = (line, col);
        self.recenter_scroll();
        self.scroll_col_into_view();
    }

    /// Puts the cursor at `(line, col)` and centres the viewport on it.
    pub fn center_on(&mut self, line: usize, col: usize)
        requires
            valid_position(old(self)@.lines, line as int, col as int),
        ensures
            final(self)@ == at_centered(old(self)@, line as int, col as int),
    {
        proof {
            use_type_invariant(&*self);
        }
        self.cursor = (line, col);
        self.recenter_scroll();
        self.scroll_col_into_view();
    }

    /// Moves the cursor to the start of its line.
    pub fn move_line_start(&mut self)
        ensures
            final(self)@ == to_line_start(old(self)@),
    {
        proof {
            use_type_invariant(&*self);
        }
        self.set_col(0);
    }

    /// Moves the cursor to the last character of its line.
    pub fn move_line_end(&mut self)
        ensures
            final(self)@ == to_line_end(old(self)@),
    {
        proof {
            use_type_invariant(&*self);
        }
        let len = self.line_len(self.cursor.0);
        self.set_col(
            if len > 0 {
                len - 1
            } else {
                0
            },
        );
    }

    /// Pans the view `PAN_COLS` columns left, stopping at column 0.
    pub fn pan_left(&mut self)
        ensures
            final(self)@ == panned_left(old(self)@),
    {
        proof {
            use_type_invariant(&*self);
        }
        self.scroll_x = self.scroll_x.saturating_sub(PAN_COLS);
    }

    /// Pans the view `PAN_COLS` columns right.
    pub fn pan_right(&mut self)
        ensures
            final(self)@ == panned_right(old(self)@),
    {
        proof {
            use_type_invariant(&*self);
        }
        self.scroll_x = self.scroll_x.saturating_add(PAN_COLS);
    }

    /// Moves the cursor half a page up and centres it.
    pub fn page_up(&mut self)
        ensures
            final(self)@ == paged_up(old(self)@),
    {
        proof {
            use_type_invariant(&*self);
        }
        let half = if self.content_rows / 2 > 1 {
            self.content_rows / 2
        } else {
            1
        };
        let line = self.cursor.0.saturating_sub(half);
        let len = self.line_len(line);
        let col = if self.cursor.1 < len {
            self.cursor.1
        } else {
            len
        };
        self.cursor = (line, col);
        self.recenter_scroll();
        self.scroll_col_into_view();
    }

    /// Moves the cursor half a page down and centres it.
    pub fn page_down(&mut self)
        ensures
            final(self)@ == paged_down(old(self)@),
    {
        proof {
            use_type_invariant(&*self);
        }
        let half = if self.content_rows / 2 > 1 {
            self.content_rows / 2
        } else {
            1
        };
        let last = self.lines.len().saturating_sub(1);
        let target = self.cursor.0.saturating_add(half);
        let line = if target < last {
            target
        } else {
            last
        };
        let len = self.line_len(line);
        let col = if self.cursor.1 < len {
            self.cursor.1
        } else {
            len
        };
        self.cursor = (line, col);
        self.recenter_scroll();
        self.scroll_col_into_view();
    }

    /// Takes a capture: the lines above the viewport followed by the
    /// viewport, of which the last `keep` are kept. The cursor goes to the
    /// start of the last line, the viewport shows that line on its bottom row
    /// and the view starts at column 0.
    pub fn accept_scrollback(&mut self, above: Vec<String>, viewport: Vec<String>, keep: usize)
        ensures
            final(self)@ == captured(old(self)@, kept_lines(lines_view(above@ + viewport@), keep as int)),
    {
        proof {
            use_type_invariant(&*self);
        }
        let ghost all_view = lines_view(above@ + viewport@);
        let mut all = above;
        let mut rest = viewport;
        all.append(&mut rest);
        if all.len() > keep {
            let start = all.len() - keep;
            all = all.split_off(start);
        }
        assert(lines_view(all@) =~= kept_lines(all_view, keep as int));
        self.cursor = (0, 0);
        self.lines = all;
        self.extraction_done = true;
        let last = self.lines.len().saturating_sub(1);
        self.cursor = (last, 0);
        self.scroll_y = last.saturating_sub(self.content_rows.saturating_sub(1));
        self.scroll_x = 0;
    }

    /// Sets the content size for a frame `rows` rows high and `cols` wide,
    /// clamps `scroll_y` so that no empty rows are left below the last line,
    /// and scrolls to keep the cursor in view.
    pub fn set_frame_size(&mut self, rows: usize, cols: usize)
        ensures
            final(self)@ == framed(old(self)@, rows, cols),
    {
        proof {
            use_type_invariant(&*self);
        }
        let r = rows.saturating_sub(4);
        self.content_rows = if r > 1 {
            r
        } else {
            1
        };
        let top = self.max_scroll();
        if top < self.scroll_y {
            self.scroll_y = top;
        }
        self.scroll_cursor_into_view();
        let h = (rows as u16).saturating_sub(4);
        let w = crate::view::text_width_of(cols as u16, h);
        let width = if w > 2 {
            w
        } else {
            2
        };
        if width != self.content_cols {
            self.content_cols = width;
            self.scroll_col_into_view();
        }
    }
}

} // verus!
