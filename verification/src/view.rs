//! What the frame shows: the content lines with their relative-number
//! gutter and cursor cell, the footer, and the notes shown instead.

use vstd::prelude::*;
use vstd::string::StringExecFns;
use crate::render::{BOLD, DIM, Color, Style, color_name, color_name_string, plain};
use crate::term::{
    SpanText, SpanView, StyleText, StyleView, is_color_name, lines_of_spans, names_colors,
    span_view, spans_name_colors, style_view,
};
use crate::text::{decimal, decimal_len, push_decimal, push_right_aligned, right_aligned, spaces};
use crate::viewer::{Viewer, ViewerModel, min};
use crate::config::Theme;
use crate::jump::{JumpCells, JumpData, glyph_at, in_partial, in_prefix, jump_cells, glyph_find, partial_find, prefix_find};
use crate::motion::precedes;

verus! {

/// A color by its name.
pub open spec fn name_of(c: Option<Color>) -> Option<Seq<char>> {
    match c {
        Some(k) => Some(color_name(k)),
        None => None,
    }
}

/// A style with its colors by name.
pub open spec fn named_style(s: Style) -> StyleView {
    StyleView { fg: name_of(s.fg), bg: name_of(s.bg), modifiers: s.modifiers }
}

/// A run of `text` in style `s`.
pub open spec fn styled(text: Seq<char>, s: Style) -> SpanView {
    SpanView { text, style: named_style(s) }
}

/// Gutter numbers on rows other than the cursor's.
pub open spec fn gutter_dim(t: Theme) -> Style {
    Style { fg: Some(t.gutter_dim), bg: None, modifiers: DIM }
}

/// The gutter of the cursor row.
pub open spec fn gutter_mark(t: Theme) -> Style {
    Style { fg: Some(t.gutter_mark), bg: None, modifiers: BOLD }
}

/// The cell under the cursor.
pub open spec fn cursor_cell(t: Theme) -> Style {
    Style { fg: Some(t.cursor_fg), bg: Some(t.cursor_bg), modifiers: 0 }
}

/// Footer status text, and the notes shown in place of content.
pub open spec fn dim_text(t: Theme) -> Style {
    Style { fg: Some(t.footer_dim), bg: None, modifiers: 0 }
}

/// Footer key names.
pub open spec fn bold_text(t: Theme) -> Style {
    Style { fg: Some(t.footer_key), bg: None, modifiers: BOLD }
}

/// The characters of `text` that fit in `avail` columns.
pub open spec fn shown(text: Seq<char>, avail: int) -> Seq<char> {
    text.subrange(0, min(avail, text.len() as int))
}

/// The characters of `text` from column `scroll_x` on.
pub open spec fn rest_of(text: Seq<char>, scroll_x: int) -> Seq<char> {
    if scroll_x < text.len() {
        text.subrange(scroll_x, text.len() as int)
    } else {
        Seq::empty()
    }
}

/// Whether the rest of a line runs past the right edge of `avail` columns.
pub open spec fn overflows(text: Seq<char>, scroll_x: int, avail: int) -> bool {
    avail > 0 && rest_of(text, scroll_x).len() > avail
}

/// The characters shown of a line from column `scroll_x`: those that fit,
/// all but one column where the line runs past the edge.
pub open spec fn shown_from(text: Seq<char>, scroll_x: int, avail: int) -> Seq<char> {
    if overflows(text, scroll_x, avail) {
        rest_of(text, scroll_x).subrange(0, avail - 1)
    } else {
        shown(rest_of(text, scroll_x), avail)
    }
}

/// The overflow indicator in the last column, where the line runs past it.
pub open spec fn indicator(on: bool, theme: Theme) -> Seq<SpanView> {
    if on {
        seq![styled("…"@, dim_text(theme))]
    } else {
        Seq::empty()
    }
}

/// A selected range: its first and last positions, both included.
pub type SelRange = Option<((int, int), (int, int))>;

/// Whether `(l, c)` lies in the selected range.
pub open spec fn in_sel(sel: SelRange, l: int, c: int) -> bool {
    match sel {
        Some((lo, hi)) => !precedes((l, c), lo) && !precedes(hi, (l, c)),
        None => false,
    }
}

/// The selection is the whole stretch of text from its first to its last
/// position in stream order: both ends are selected, every position between
/// two selected ones is selected, and no position before the first or after
/// the last is.
pub proof fn lemma_selection_is_the_range(lo: (int, int), hi: (int, int), a: (int, int), b: (int, int), r: (int, int))
    requires
        !precedes(hi, lo),
    ensures
        in_sel(Some((lo, hi)), lo.0, lo.1),
        in_sel(Some((lo, hi)), hi.0, hi.1),
        in_sel(Some((lo, hi)), a.0, a.1) && in_sel(Some((lo, hi)), b.0, b.1) && !precedes(r, a) && !precedes(b, r)
            ==> in_sel(Some((lo, hi)), r.0, r.1),
        precedes(r, lo) || precedes(hi, r) ==> !in_sel(Some((lo, hi)), r.0, r.1),
        !in_sel(None, r.0, r.1),
{
}

/// Where no cursor and no search occurrence covers a cell, it is drawn in
/// the selection's style exactly when it is selected (the selection's style
/// being set apart from plain text).
pub proof fn lemma_selected_cells_drawn_selected(
    text: Seq<char>,
    abs: int,
    col: int,
    sel: SelRange,
    query: Seq<char>,
    current: Option<(int, int)>,
    theme: Theme,
)
    requires
        !in_current(current, query.len() as int, abs, col),
        !crate::search::in_match(text, query, col),
        selected_cell(theme) != plain(),
    ensures
        (style_of_cell(text, abs, col, false, sel, query, current, theme) == selected_cell(theme)) == in_sel(
            sel,
            abs,
            col,
        ),
{
}

/// Selected text.
pub open spec fn selected_cell(t: Theme) -> Style {
    Style { fg: Some(t.sel_fg), bg: Some(t.sel_bg), modifiers: 0 }
}

/// An occurrence of the search query.
pub open spec fn match_cell(t: Theme) -> Style {
    Style { fg: Some(t.search_fg), bg: Some(t.search_match_bg), modifiers: 0 }
}

/// The current occurrence of the search query.
pub open spec fn current_match_cell(t: Theme) -> Style {
    Style { fg: Some(t.search_fg), bg: Some(t.search_current_bg), modifiers: BOLD }
}

/// Whether `(abs, c)` lies in the current occurrence, which starts at
/// `current` and is `qlen` long.
pub open spec fn in_current(current: Option<(int, int)>, qlen: int, abs: int, c: int) -> bool {
    match current {
        Some(p) => p.0 == abs && p.1 <= c < p.1 + qlen,
        None => false,
    }
}

/// The style of a character cell: the cursor's, else the current search
/// occurrence's, else any occurrence's, else the selection's where
/// selected, else plain.
pub open spec fn cell_style(on_cursor: bool, current: bool, matched: bool, selected: bool, theme: Theme) -> Style {
    if on_cursor {
        cursor_cell(theme)
    } else if current {
        current_match_cell(theme)
    } else if matched {
        match_cell(theme)
    } else if selected {
        selected_cell(theme)
    } else {
        plain()
    }
}

/// The style of column `col` of line `abs`.
pub open spec fn style_of_cell(
    text: Seq<char>,
    abs: int,
    col: int,
    on_cursor: bool,
    sel: SelRange,
    query: Seq<char>,
    current: Option<(int, int)>,
    theme: Theme,
) -> Style {
    cell_style(
        on_cursor,
        in_current(current, query.len() as int, abs, col),
        crate::search::in_match(text, query, col),
        in_sel(sel, abs, col),
        theme,
    )
}

/// The line-jump label of line `abs`. Directional, where `unified` is
/// empty: `a` to `z` for the lines below the cursor line, nearest first, `A`
/// to `Z` for those above. Unified: the first half of `unified` (rounded
/// down) for the lines below, nearest first, the second half for those
/// above. None for the cursor line and lines further than the labels go.
pub open spec fn line_label(unified: Seq<char>, cursor_line: int, abs: int) -> Option<char> {
    let h = unified.len() / 2;
    if unified.len() > 0 {
        if abs > cursor_line && abs - cursor_line <= h {
            Some(unified[abs - cursor_line - 1])
        } else if abs < cursor_line && cursor_line - abs <= unified.len() - h {
            Some(unified[h + (cursor_line - abs) - 1])
        } else {
            None
        }
    } else if abs > cursor_line && abs - cursor_line <= 26 {
        Some((('a' as int) + (abs - cursor_line - 1)) as char)
    } else if abs < cursor_line && cursor_line - abs <= 26 {
        Some((('A' as int) + (cursor_line - abs - 1)) as char)
    } else {
        None
    }
}

/// A line-jump label in the gutter.
pub open spec fn jump_label(t: Theme) -> Style {
    Style { fg: Some(t.jump_label_fg), bg: Some(t.jump_label_bg), modifiers: BOLD }
}

/// `ch` right-aligned with spaces to `width` characters.
pub open spec fn right_aligned_char(ch: char, width: nat) -> Seq<char> {
    if width > 1 {
        spaces((width - 1) as nat).push(ch)
    } else {
        seq![ch]
    }
}

/// The line-jump label of line `abs` where labels are shown (`labels` is
/// the unified label set, empty for directional labels).
pub open spec fn shown_label(abs: int, cursor_line: int, labels: Option<Seq<char>>) -> Option<char> {
    match labels {
        Some(unified) => line_label(unified, cursor_line, abs),
        None => None,
    }
}

/// The plain value of the line-jump labels shown.
pub open spec fn labels_view(labels: Option<&Vec<char>>) -> Option<Seq<char>> {
    match labels {
        Some(u) => Some(u@),
        None => None,
    }
}

/// The gutter of line `abs`: its distance to the cursor line (or its
/// line-jump label), right-aligned to `num_w`, then a marker on the cursor
/// row and two spaces on the others.
pub open spec fn gutter_text(abs: int, cursor_line: int, num_w: int, labels: Option<Seq<char>>) -> Seq<char> {
    let dist = if abs >= cursor_line {
        abs - cursor_line
    } else {
        cursor_line - abs
    };
    let number = match shown_label(abs, cursor_line, labels) {
        Some(ch) => right_aligned_char(ch, num_w as nat),
        None => right_aligned(dist as nat, num_w as nat),
    };
    number + if abs == cursor_line {
        "► "@
    } else {
        "  "@
    }
}

/// The gutter's style: a label's, else bold yellow on the cursor row and
/// dim gray on the others.
pub open spec fn gutter_style(abs: int, cursor_line: int, labels: Option<Seq<char>>, theme: Theme) -> Style {
    if shown_label(abs, cursor_line, labels) is Some {
        jump_label(theme)
    } else if abs == cursor_line {
        gutter_mark(theme)
    } else {
        gutter_dim(theme)
    }
}

/// The matched characters before a word-jump label.
pub open spec fn jump_match(t: Theme) -> Style {
    Style { fg: Some(t.jump_match_fg), bg: None, modifiers: BOLD }
}

/// The matched characters while the word-jump matches have no labels.
pub open spec fn jump_partial(t: Theme) -> Style {
    Style { fg: Some(t.jump_partial_fg), bg: None, modifiers: BOLD }
}

/// The word-jump label shown in place of column `col` of line `abs`.
pub open spec fn cell_glyph(text: Seq<char>, abs: int, col: int, jump: Option<JumpCells>) -> Option<char> {
    match jump {
        Some(j) => glyph_at(j, abs, col, text.len() as int),
        None => None,
    }
}

/// The style of column `col` of line `abs`: a word-jump label's, a labelled
/// match's matched characters', an unlabelled match's, else as
/// [`style_of_cell`] says.
pub open spec fn cell_look(
    text: Seq<char>,
    abs: int,
    col: int,
    on_cursor: bool,
    sel: SelRange,
    query: Seq<char>,
    current: Option<(int, int)>,
    jump: Option<JumpCells>,
    theme: Theme,
) -> Style {
    match jump {
        Some(j) => if glyph_at(j, abs, col, text.len() as int) is Some {
            jump_label(theme)
        } else if in_prefix(j, abs, col, text.len() as int) {
            jump_match(theme)
        } else if in_partial(j, abs, col, text.len() as int) {
            jump_partial(theme)
        } else {
            style_of_cell(text, abs, col, on_cursor, sel, query, current, theme)
        },
        None => style_of_cell(text, abs, col, on_cursor, sel, query, current, theme),
    }
}

/// The spans of one content row: the gutter (distance to the cursor line,
/// right-aligned, then a marker on the cursor row; while `labels` are shown,
/// a line's line-jump label in place of the distance, in the label style);
/// then one cell per
/// character shown from column `scroll_x`, in the cursor's style under the
/// cursor, the search query's on its occurrences (`current` the one the
/// search stands on) and the selection's where selected; past the
/// characters shown, the
/// cursor cell where the cursor stands there (the character under it, or a
/// space past the end of the line); and a `…` in the last column where the
/// line runs past it and the cursor does not stand on that column.
pub open spec fn content_line(
    text: Seq<char>,
    abs: int,
    cursor_line: int,
    cursor_col: int,
    scroll_x: int,
    num_w: int,
    avail: int,
    sel: SelRange,
    labels: Option<Seq<char>>,
    query: Seq<char>,
    current: Option<(int, int)>,
    jump: Option<JumpCells>,
    theme: Theme,
) -> Seq<SpanView> {
    let is_cursor = abs == cursor_line;
    let gutter = gutter_text(abs, cursor_line, num_w, labels);
    let s = shown_from(text, scroll_x, avail);
    let rest = rest_of(text, scroll_x);
    let over = overflows(text, scroll_x, avail);
    let rel = cursor_col - scroll_x;
    let cur = is_cursor && 0 <= rel < avail;
    let cells = Seq::new(
        s.len(),
        |j: int|
            styled(
                match cell_glyph(text, abs, scroll_x + j, jump) {
                    Some(g) => seq![g],
                    None => seq![s[j]],
                },
                cell_look(text, abs, scroll_x + j, cur && j == rel, sel, query, current, jump, theme),
            ),
    );
    let past = cur && rel >= s.len();
    let extra = if past {
        seq![
            styled(
                if rel < rest.len() {
                    seq![rest[rel]]
                } else {
                    seq![' ']
                },
                cursor_cell(theme),
            ),
        ]
    } else {
        Seq::empty()
    };
    seq![styled(gutter, gutter_style(abs, cursor_line, labels, theme))] + cells + extra + indicator(
        over && !past,
        theme,
    )
}

/// The width of the gutter's number: the digits of the largest distance
/// that fits the height.
pub open spec fn number_width(height: int) -> int {
    decimal(
        (if height > 0 {
            height - 1
        } else {
            0
        }) as nat,
    ).len() as int
}

/// The columns left for text beside the gutter.
pub open spec fn text_width(width: int, height: int) -> int {
    let gutter = number_width(height) + 2;
    if width > gutter {
        width - gutter
    } else {
        0
    }
}

/// The first line shown: `scroll_y`, at most the last line.
pub open spec fn first_shown(m: ViewerModel) -> int {
    min(m.scroll_y, m.lines.len() - 1)
}

/// One past the last line shown.
pub open spec fn end_shown(m: ViewerModel, height: int) -> int {
    min(first_shown(m) + height, m.lines.len() as int)
}

/// The rows of the content area, `height` rows of `width` columns, from the
/// first line shown: one row per line that fits.
pub open spec fn content_view(
    m: ViewerModel,
    sel: SelRange,
    labels: Option<Seq<char>>,
    query: Seq<char>,
    current: Option<(int, int)>,
    jump: Option<JumpCells>,
    theme: Theme,
    width: int,
    height: int,
) -> Seq<Seq<SpanView>> {
    let first = first_shown(m);
    let cursor_line = min(m.line, m.lines.len() - 1);
    Seq::new(
        (end_shown(m, height) - first) as nat,
        |i: int|
            content_line(
                m.lines[first + i],
                first + i,
                cursor_line,
                m.col,
                m.scroll_x,
                number_width(height),
                text_width(width, height),
                sel,
                labels,
                query,
                current,
                jump,
                theme,
            ),
    )
}

/// The status of a word jump: how many matches, and whether to type on.
pub open spec fn jump_status(n: nat, labelled: bool) -> Seq<char> {
    if n == 0 {
        "(no matches)"@
    } else if labelled {
        "("@ + decimal(n) + " matches)"@
    } else {
        "("@ + decimal(n) + " matches, keep typing…)"@
    }
}

/// The footer line of word-jump mode: the typed text (a prompt before any
/// is typed), the status, and `[SEL]` where the jump sets the anchor.
pub open spec fn jump_keys(t: Seq<char>, select: bool, n: nat, labelled: bool, theme: Theme) -> Seq<SpanView> {
    seq![
        styled(
            " jump: "@ + if t.len() == 0 {
                "type to search…"@
            } else {
                t
            },
            plain(),
        ),
    ] + (if t.len() == 0 {
        Seq::empty()
    } else {
        seq![styled("  "@ + jump_status(n, labelled), dim_text(theme))]
    }) + if select {
        seq![styled("  [SEL]"@, sel_label(theme))]
    } else {
        Seq::empty()
    }
}

/// The query of a search, empty where there is none.
pub open spec fn query_in(search: Option<(Seq<char>, bool)>) -> Seq<char> {
    match search {
        Some((q, _)) => q,
        None => Seq::empty(),
    }
}

/// Whether a search navigates between occurrences.
pub open spec fn navigating_in(search: Option<(Seq<char>, bool)>) -> bool {
    match search {
        Some((_, navigating)) => navigating,
        None => false,
    }
}

/// The plain value of a search: its query and whether it navigates.
pub open spec fn search_view(search: Option<(&Vec<char>, bool)>) -> Option<(Seq<char>, bool)> {
    match search {
        Some((q, navigating)) => Some((q@, navigating)),
        None => None,
    }
}

/// The plain value of a word jump for the footer.
pub open spec fn word_jump_view(w: Option<(&Vec<char>, bool, usize, bool)>) -> Option<(Seq<char>, bool, nat, bool)> {
    match w {
        Some((t, select, n, labelled)) => Some((t@, select, n as nat, labelled)),
        None => None,
    }
}

fn push_jump_keys(keys: &mut Vec<SpanText>, t: &Vec<char>, select: bool, n: usize, labelled: bool, theme: &Theme)
    requires
        all_name_colors(old(keys)@),
    ensures
        spans_view(final(keys)@) == spans_view(old(keys)@) + jump_keys(t@, select, n as nat, labelled, *theme),
        all_name_colors(final(keys)@),
{
    proof {
        reveal_strlit(" jump: ");
        reveal_strlit("type to search…");
        reveal_strlit("  ");
        reveal_strlit("(no matches)");
        reveal_strlit("(");
        reveal_strlit(" matches)");
        reveal_strlit(" matches, keep typing…)");
        reveal_strlit("  [SEL]");
    }
    let ghost start = spans_view(keys@);
    let ghost prompt = if t@.len() == 0 { "type to search…"@ } else { t@ };
    let mut text = literal(" jump: ");
    if t.len() == 0 {
        text.append("type to search…");
    } else {
        push_chars(&mut text, t);
    }
    assert(text@ == " jump: "@ + prompt);
    push_span(keys, text, Style { fg: None, bg: None, modifiers: 0 });
    let ghost first = spans_view(keys@);
    assert(first == start + seq![styled(" jump: "@ + prompt, plain())]);
    if t.len() > 0 {
        let mut status = literal("  ");
        if n == 0 {
            status.append("(no matches)");
        } else {
            status.append("(");
            push_decimal(&mut status, n as u128);
            if labelled {
                status.append(" matches)");
            } else {
                status.append(" matches, keep typing…)");
            }
        }
        assert(status@ == "  "@ + jump_status(n as nat, labelled));
        push_span(keys, status, Style { fg: Some(theme.footer_dim), bg: None, modifiers: 0 });
    }
    let ghost second = spans_view(keys@);
    let ghost mid: Seq<SpanView> = if t@.len() == 0 {
        Seq::empty()
    } else {
        seq![styled("  "@ + jump_status(n as nat, labelled), dim_text(*theme))]
    };
    assert(second =~= first + mid);
    if select {
        push_span(keys, literal("  [SEL]"), Style { fg: Some(theme.sel_label), bg: None, modifiers: 0 });
    }
    let ghost tail: Seq<SpanView> = if select {
        seq![styled("  [SEL]"@, sel_label(*theme))]
    } else {
        Seq::empty()
    };
    assert(spans_view(keys@) =~= second + tail);
    assert(jump_keys(t@, select, n as nat, labelled, *theme) =~= seq![styled(" jump: "@ + prompt, plain())] + mid + tail);
    assert(spans_view(keys@) =~= start + jump_keys(t@, select, n as nat, labelled, *theme));
}

/// Appends the characters of `q`.
pub fn push_chars(out: &mut String, q: &Vec<char>)
    ensures
        final(out)@ == old(out)@ + q@,
{
    let mut i: usize = 0;
    while i < q.len()
        invariant
            i <= q@.len(),
            out@ == old(out)@ + q@.subrange(0, i as int),
        decreases q@.len() - i,
    {
        out.push(q[i]);
        assert(q@.subrange(0, i + 1) =~= q@.subrange(0, i as int).push(q@[i as int]));
        i = i + 1;
    }
    assert(q@.subrange(0, i as int) =~= q@);
}

/// The "no selection" notice.
pub open spec fn warning_text() -> Style {
    Style { fg: Some(Color::Red), bg: None, modifiers: BOLD }
}

/// The "SEL" label of the footer.
pub open spec fn sel_label(t: Theme) -> Style {
    Style { fg: Some(t.sel_label), bg: None, modifiers: 0 }
}

/// The key line of the footer: the key hints, or the approval prompt of an
/// insert, or the keys of line-jump mode (marked `[SEL]` where the jump sets
/// the anchor), or the word-jump line ([`jump_keys`]), or the search query
/// with the keys of its phase (while navigating, with `counts`: the number
/// of the current occurrence and of all).
pub open spec fn footer_keys(
    confirming: bool,
    jumping: Option<bool>,
    word_jump: Option<(Seq<char>, bool, nat, bool)>,
    search: Option<(Seq<char>, bool)>,
    counts: (nat, nat),
    theme: Theme,
) -> Seq<SpanView> {
    if confirming {
        seq![
            styled(" Insert the selection?  "@, plain()),
            styled("y/Enter"@, bold_text(theme)),
            styled(":confirm  "@, plain()),
            styled("Esc"@, bold_text(theme)),
            styled(":cancel"@, plain()),
        ]
    } else if word_jump is Some {
        match word_jump {
            Some((t, select, n, labelled)) => jump_keys(t, select, n, labelled, theme),
            None => Seq::empty(),
        }
    } else if jumping is Some {
        seq![
            styled(" "@, plain()),
            styled("a-z"@, bold_text(theme)),
            styled(":below  "@, plain()),
            styled("A-Z"@, bold_text(theme)),
            styled(":above  "@, plain()),
            styled("Esc"@, bold_text(theme)),
            styled(":cancel"@, plain()),
        ] + if jumping == Some(true) {
            seq![styled("  [SEL]"@, sel_label(theme))]
        } else {
            Seq::empty()
        }
    } else if search is Some {
        let q = query_in(search);
        if navigating_in(search) {
            seq![
                styled(" /"@ + q, plain()),
                styled("  "@, plain()),
                styled(decimal(counts.0) + "/"@ + decimal(counts.1), dim_text(theme)),
                styled("  "@, plain()),
                styled("n"@, bold_text(theme)),
                styled(":next  "@, plain()),
                styled("N"@, bold_text(theme)),
                styled(":prev  "@, plain()),
                styled("Space"@, bold_text(theme)),
                styled(":select  "@, plain()),
                styled("Esc"@, bold_text(theme)),
                styled(":done"@, plain()),
            ]
        } else {
            seq![
                styled(" /"@ + q + "█"@, plain()),
                styled("  "@, plain()),
                styled("Enter"@, bold_text(theme)),
                styled(":confirm  "@, plain()),
                styled("Esc"@, bold_text(theme)),
                styled(":cancel"@, plain()),
            ]
        }
    } else {
        seq![
            styled(" "@, plain()),
            styled("↑↓←→"@, bold_text(theme)),
            styled(":move  "@, plain()),
            styled("PgUp/Dn"@, bold_text(theme)),
            styled(":half-page  "@, plain()),
            styled("Space"@, bold_text(theme)),
            styled(":select  "@, plain()),
            styled("Enter"@, bold_text(theme)),
            styled(":copy  "@, plain()),
            styled("Esc"@, bold_text(theme)),
            styled(":close"@, plain()),
        ]
    }
}

/// The two footer lines: the depth profile's `label`, the line count, the
/// 1-based cursor position, with a selection the number of lines it spans,
/// and the "no selection" notice where it shows; then the key line
/// ([`footer_keys`]).
pub open spec fn footer_view(
    m: ViewerModel,
    label: Seq<char>,
    selected_lines: Option<nat>,
    confirming: bool,
    jumping: Option<bool>,
    word_jump: Option<(Seq<char>, bool, nat, bool)>,
    search: Option<(Seq<char>, bool)>,
    counts: (nat, nat),
    notice: bool,
    theme: Theme,
) -> Seq<Seq<SpanView>> {
    let status = seq![
        styled(" "@, plain()),
        styled(label, dim_text(theme)),
        styled("  "@, plain()),
        styled(decimal(m.lines.len()) + " lines"@, dim_text(theme)),
        styled("  "@, plain()),
        styled(decimal((m.line + 1) as nat) + ":"@ + decimal((m.col + 1) as nat), dim_text(theme)),
    ] + match selected_lines {
        Some(n) => seq![
            styled("  "@, plain()),
            styled("SEL "@ + decimal(n) + " lines"@, sel_label(theme)),
        ],
        None => Seq::empty(),
    } + if notice {
        seq![styled("  "@, plain()), styled("no selection"@, warning_text())]
    } else {
        Seq::empty()
    };
    let keys = footer_keys(confirming, jumping, word_jump, search, counts, theme);
    seq![status, keys]
}

/// A single line of one plain run.
pub open spec fn note_view(text: Seq<char>) -> Seq<Seq<SpanView>> {
    seq![seq![styled(text, plain())]]
}

/// The note shown when nothing was captured.
pub open spec fn empty_note(m: ViewerModel) -> Seq<char> {
    if m.extraction_done {
        "No content captured."@
    } else {
        "Loading…"@
    }
}

/// Every content row starts with its gutter: the distance of the row's line
/// to the cursor line, right-aligned to the number width, then a marker on
/// the cursor row and two spaces on the others; the cursor row's gutter is
/// bold yellow and the others' dim gray.
pub proof fn lemma_gutter_shows_distance(m: ViewerModel, sel: SelRange, theme: Theme, width: int, height: int, i: int)
    requires
        m.lines.len() > 0,
        0 <= i < content_view(m, sel, None, Seq::empty(), None, None, theme, width, height).len(),
    ensures
        ({
            let row = content_view(m, sel, None, Seq::empty(), None, None, theme, width, height)[i];
            let abs = first_shown(m) + i;
            let cursor_line = min(m.line, m.lines.len() - 1);
            let dist = if abs >= cursor_line {
                abs - cursor_line
            } else {
                cursor_line - abs
            };
            &&& row.len() >= 1
            &&& row[0].text == right_aligned(dist as nat, number_width(height) as nat) + if abs
                == cursor_line {
                "► "@
            } else {
                "  "@
            }
            &&& row[0].style == named_style(
                if abs == cursor_line {
                    gutter_mark(theme)
                } else {
                    gutter_dim(theme)
                },
            )
        }),
{
}

/// A line whose rest from `scroll_x` runs past the text area ends its row
/// with the `…` indicator, after the first `avail - 1` of those characters;
/// only the cursor standing on the indicator's column replaces it.
pub proof fn lemma_long_line_shows_indicator(
    text: Seq<char>,
    abs: int,
    cursor_line: int,
    cursor_col: int,
    scroll_x: int,
    num_w: int,
    avail: int,
    sel: SelRange,
    labels: Option<Seq<char>>,
    query: Seq<char>,
    current: Option<(int, int)>,
    theme: Theme,
)
    requires
        0 <= scroll_x,
        avail > 0,
        rest_of(text, scroll_x).len() > avail,
        abs != cursor_line || cursor_col - scroll_x != avail - 1,
    ensures
        overflows(text, scroll_x, avail),
        shown_from(text, scroll_x, avail) == text.subrange(scroll_x, scroll_x + avail - 1),
        content_line(
            text,
            abs,
            cursor_line,
            cursor_col,
            scroll_x,
            num_w,
            avail,
            sel,
            labels,
            query,
            current,
            None,
            theme,
        ).last() == styled(
            "…"@,
            dim_text(theme),
        ),
{
    assert(rest_of(text, scroll_x).subrange(0, avail - 1) =~= text.subrange(
        scroll_x,
        scroll_x + avail - 1,
    ));
}

/// Whatever `scroll_y`, even past the last line, the rows shown start at a
/// line that exists, at most the last, and there are as many as fit from
/// there; the cursor row is the cursor line clamped to the last line.
pub proof fn lemma_rows_clamped(
    m: ViewerModel,
    sel: SelRange,
    labels: Option<Seq<char>>,
    query: Seq<char>,
    current: Option<(int, int)>,
    jump: Option<JumpCells>,
    theme: Theme,
    width: int,
    height: int,
)
    requires
        m.lines.len() > 0,
        m.scroll_y >= 0,
        height >= 0,
    ensures
        0 <= first_shown(m) < m.lines.len(),
        first_shown(m) == min(m.scroll_y, m.lines.len() - 1),
        content_view(m, sel, labels, query, current, jump, theme, width, height).len() == min(
            height,
            m.lines.len() - first_shown(m),
        ),
{
}

/// Rows are shown from `scroll_y` on, one per line, as many as fit.
pub proof fn lemma_rows_follow_scroll(m: ViewerModel, sel: SelRange, labels: Option<Seq<char>>, theme: Theme, width: int, height: int)
    requires
        m.lines.len() > 0,
        0 <= m.scroll_y < m.lines.len(),
        height >= 0,
    ensures
        content_view(m, sel, labels, Seq::empty(), None, None, theme, width, height).len() == min(
            height,
            m.lines.len() - m.scroll_y,
        ),
{
}

fn name_text(c: Option<Color>) -> (r: Option<String>)
    ensures
        crate::term::opt_chars(r) == name_of(c),
        r matches Some(n) ==> is_color_name(n@),
{
    match c {
        Some(k) => Some(color_name_string(k)),
        None => None,
    }
}


/// A style with its colors by name.
pub fn style_text(s: Style) -> (r: StyleText)
    ensures
        style_view(r) == named_style(s),
        names_colors(r),
{
    StyleText { fg: name_text(s.fg), bg: name_text(s.bg), modifiers: s.modifiers }
}

/// A run of `text` in style `s`.
pub fn span(text: String, s: Style) -> (r: SpanText)
    ensures
        span_view(r) == styled(text@, s),
        names_colors(r.style),
{
    SpanText { text, style: style_text(s) }
}

fn literal(s: &str) -> (r: String)
    ensures
        r@ == s@,
{
    String::from_str(s)
}

fn chars_between(s: &str, from: usize, to: usize) -> (r: String)
    requires
        from <= to <= s@.len(),
    ensures
        r@ == s@.subrange(from as int, to as int),
{
    String::from_str(s.substring_char(from, to))
}

pub open spec fn spans_view(l: Seq<SpanText>) -> Seq<SpanView> {
    l.map_values(|s: SpanText| span_view(s))
}

pub open spec fn all_name_colors(l: Seq<SpanText>) -> bool {
    forall|j: int| 0 <= j < l.len() ==> names_colors(#[trigger] l[j].style)
}

fn push_span(line: &mut Vec<SpanText>, text: String, s: Style)
    requires
        all_name_colors(old(line)@),
    ensures
        spans_view(final(line)@) == spans_view(old(line)@).push(styled(text@, s)),
        all_name_colors(final(line)@),
{
    let sp = span(text, s);
    line.push(sp);
    assert(spans_view(line@) =~= spans_view(old(line)@).push(styled(text@, s)));
}

/// The line-jump label of line `abs`.
pub fn line_label_of(unified: &Vec<char>, cursor_line: usize, abs: usize) -> (r: Option<char>)
    ensures
        r == line_label(unified@, cursor_line as int, abs as int),
{
    let n = unified.len();
    let h = n / 2;
    if n > 0 {
        if abs > cursor_line && abs - cursor_line <= h {
            return Some(unified[abs - cursor_line - 1]);
        } else if abs < cursor_line && cursor_line - abs <= n - h {
            return Some(unified[h + (cursor_line - abs) - 1]);
        } else {
            return None;
        }
    }
    if abs > cursor_line && abs - cursor_line <= 26 {
        let k = (abs - cursor_line - 1) as u8;
        Some((97u8 + k) as char)
    } else if abs < cursor_line && cursor_line - abs <= 26 {
        let k = (cursor_line - abs - 1) as u8;
        Some((65u8 + k) as char)
    } else {
        None
    }
}

fn push_right_aligned_char(out: &mut String, ch: char, width: usize)
    ensures
        final(out)@ == old(out)@ + right_aligned_char(ch, width as nat),
{
    let mut i: usize = 1;
    while i < width
        invariant
            1 <= i,
            i <= width || i == 1,
            out@ == old(out)@ + spaces((i - 1) as nat),
        decreases width - i,
    {
        out.push(' ');
        assert(spaces(i as nat) =~= spaces((i - 1) as nat).push(' '));
        i = i + 1;
    }
    out.push(ch);
    if width > 1 {
        assert(out@ =~= old(out)@ + spaces((width - 1) as nat).push(ch));
    } else {
        assert(spaces(0) =~= Seq::<char>::empty());
        assert(out@ =~= old(out)@ + seq![ch]);
    }
}

/// The plain values of a selected range.
pub open spec fn sel_view(sel: Option<((usize, usize), (usize, usize))>) -> SelRange {
    match sel {
        Some((lo, hi)) => Some(((lo.0 as int, lo.1 as int), (hi.0 as int, hi.1 as int))),
        None => None,
    }
}

fn selects(sel: Option<((usize, usize), (usize, usize))>, l: usize, c: usize) -> (r: bool)
    ensures
        r == in_sel(sel_view(sel), l as int, c as int),
{
    match sel {
        Some((lo, hi)) => {
            let after_lo = l > lo.0 || (l == lo.0 && c >= lo.1);
            let before_hi = l < hi.0 || (l == hi.0 && c <= hi.1);
            after_lo && before_hi
        },
        None => false,
    }
}

/// The plain value of a position.
pub open spec fn pos_view(p: Option<(usize, usize)>) -> Option<(int, int)> {
    match p {
        Some(q) => Some((q.0 as int, q.1 as int)),
        None => None,
    }
}

fn cell_style_at(
    text: &str,
    abs: usize,
    col: usize,
    on_cursor: bool,
    sel: Option<((usize, usize), (usize, usize))>,
    query: &Vec<char>,
    current: Option<(usize, usize)>,
    theme: &Theme,
) -> (r: Style)
    ensures
        r == style_of_cell(text@, abs as int, col as int, on_cursor, sel_view(sel), query@, pos_view(current), *theme),
{
    let is_current = match current {
        Some(p) => p.0 == abs && p.1 <= col && col - p.1 < query.len(),
        None => false,
    };
    if on_cursor {
        Style { fg: Some(theme.cursor_fg), bg: Some(theme.cursor_bg), modifiers: 0 }
    } else if is_current {
        Style { fg: Some(theme.search_fg), bg: Some(theme.search_current_bg), modifiers: BOLD }
    } else if crate::search::in_match_at(text, query, col) {
        Style { fg: Some(theme.search_fg), bg: Some(theme.search_match_bg), modifiers: 0 }
    } else if selects(sel, abs, col) {
        Style { fg: Some(theme.sel_fg), bg: Some(theme.sel_bg), modifiers: 0 }
    } else {
        Style { fg: None, bg: None, modifiers: 0 }
    }
}

/// The plain value of a jump's data for the rows.
pub open spec fn jump_ok(jump: Option<(&JumpData, usize)>) -> bool {
    match jump {
        Some((d, _)) => d.labels@.len() == d.list@.len(),
        None => true,
    }
}

fn cell_look_at(
    text: &str,
    abs: usize,
    col: usize,
    on_cursor: bool,
    sel: Option<((usize, usize), (usize, usize))>,
    query: &Vec<char>,
    current: Option<(usize, usize)>,
    jump: Option<(&JumpData, usize)>,
    theme: &Theme,
) -> (r: (Option<char>, Style))
    requires
        jump_ok(jump),
    ensures
        r.0 == cell_glyph(text@, abs as int, col as int, jump_cells(jump)),
        r.1 == cell_look(
            text@,
            abs as int,
            col as int,
            on_cursor,
            sel_view(sel),
            query@,
            pos_view(current),
            jump_cells(jump),
            *theme,
        ),
{
    if let Some((d, tlen)) = jump {
        let len = text.unicode_len();
        let g = glyph_find(d, tlen, abs, col, len);
        if g.is_some() {
            return (g, Style { fg: Some(theme.jump_label_fg), bg: Some(theme.jump_label_bg), modifiers: BOLD });
        }
        if prefix_find(d, tlen, abs, col, len) {
            return (None, Style { fg: Some(theme.jump_match_fg), bg: None, modifiers: BOLD });
        }
        if partial_find(d, tlen, abs, col, len) {
            return (None, Style { fg: Some(theme.jump_partial_fg), bg: None, modifiers: BOLD });
        }
    }
    (None, cell_style_at(text, abs, col, on_cursor, sel, query, current, theme))
}

fn row_gutter(abs: usize, cursor_line: usize, num_w: usize, labels: Option<&Vec<char>>, theme: &Theme) -> (r: (
    String,
    Style,
))
    ensures
        r.0@ == gutter_text(abs as int, cursor_line as int, num_w as int, labels_view(labels)),
        r.1 == gutter_style(abs as int, cursor_line as int, labels_view(labels), *theme),
{
    let is_cursor = abs == cursor_line;
    let dist = if abs >= cursor_line {
        abs - cursor_line
    } else {
        cursor_line - abs
    };
    let label = match labels {
        Some(u) => line_label_of(u, cursor_line, abs),
        None => None,
    };
    let mut gutter = String::new();
    match label {
        Some(ch) => push_right_aligned_char(&mut gutter, ch, num_w),
        None => push_right_aligned(&mut gutter, dist as u128, num_w),
    }
    gutter.append(
        if is_cursor {
            "► "
        } else {
            "  "
        },
    );
    let style = if label.is_some() {
        Style { fg: Some(theme.jump_label_fg), bg: Some(theme.jump_label_bg), modifiers: BOLD }
    } else if is_cursor {
        Style { fg: Some(theme.gutter_mark), bg: None, modifiers: BOLD }
    } else {
        Style { fg: Some(theme.gutter_dim), bg: None, modifiers: DIM }
    };
    (gutter, style)
}

/// The spans of one content row.
#[verifier::rlimit(60)]
fn content_row(
    text: &String,
    abs: usize,
    cursor_line: usize,
    cursor_col: usize,
    scroll_x: usize,
    num_w: usize,
    avail: usize,
    sel: Option<((usize, usize), (usize, usize))>,
    labels: Option<&Vec<char>>,
    query: &Vec<char>,
    current: Option<(usize, usize)>,
    jump: Option<(&JumpData, usize)>,
    theme: &Theme,
) -> (r: Vec<SpanText>)
    requires
        jump_ok(jump),
    ensures
        spans_view(r@) == content_line(
            text@,
            abs as int,
            cursor_line as int,
            cursor_col as int,
            scroll_x as int,
            num_w as int,
            avail as int,
            sel_view(sel),
            labels_view(labels),
            query@,
            pos_view(current),
            jump_cells(jump),
            *theme,
        ),
        all_name_colors(r@),
{
    let is_cursor = abs == cursor_line;
    let (gutter, gutter_style_value) = row_gutter(abs, cursor_line, num_w, labels, theme);
    let chars = text.as_str();
    let len = chars.unicode_len();
    let start = if scroll_x < len {
        scroll_x
    } else {
        len
    };
    let rest = len - start;
    let over = avail > 0 && rest > avail;
    let k = if over {
        avail - 1
    } else if avail < rest {
        avail
    } else {
        rest
    };
    let cur = is_cursor && cursor_col >= scroll_x && cursor_col - scroll_x < avail;
    let rel = if cur {
        cursor_col - scroll_x
    } else {
        0
    };
    let ghost sv = sel_view(sel);
    let ghost s = text@.subrange(start as int, start + k);
    let ghost rest_seq = rest_of(text@, scroll_x as int);
    let ghost cells = Seq::new(
        s.len(),
        |j: int|
            styled(
                match cell_glyph(text@, abs as int, scroll_x + j, jump_cells(jump)) {
                    Some(g) => seq![g],
                    None => seq![s[j]],
                },
                cell_look(
                    text@,
                    abs as int,
                    scroll_x + j,
                    cur && j == rel,
                    sv,
                    query@,
                    pos_view(current),
                    jump_cells(jump),
                    *theme,
                ),
            ),
    );
    proof {
        assert(rest_seq =~= text@.subrange(start as int, len as int));
        assert(over == overflows(text@, scroll_x as int, avail as int));
        assert(s =~= shown_from(text@, scroll_x as int, avail as int));
        reveal_strlit("…");
        reveal_strlit(" ");
    }
    let dim = Style { fg: Some(theme.footer_dim), bg: None, modifiers: 0 };
    let ghost head = seq![styled(gutter@, gutter_style(abs as int, cursor_line as int, labels_view(labels), *theme))];
    let mut spans: Vec<SpanText> = Vec::new();
    push_span(&mut spans, gutter, gutter_style_value);
    assert(spans_view(spans@) =~= head);
    let mut j: usize = 0;
    while j < k
        invariant
            j <= k,
            start + k <= len == text@.len(),
            k == s.len(),
            s == text@.subrange(start as int, start + k),
            k > 0 ==> start == scroll_x,
            cells == Seq::new(
                s.len(),
                |j: int|
                    styled(
                        match cell_glyph(text@, abs as int, scroll_x + j, jump_cells(jump)) {
                            Some(g) => seq![g],
                            None => seq![s[j]],
                        },
                        cell_look(
                            text@,
                            abs as int,
                            scroll_x + j,
                            cur && j == rel,
                            sv,
                            query@,
                            pos_view(current),
                            jump_cells(jump),
                            *theme,
                        ),
                    ),
            ),
            sv == sel_view(sel),
            chars@ == text@,
            spans_view(spans@) == head + cells.subrange(0, j as int),
            all_name_colors(spans@),
            jump_ok(jump),
        decreases k - j,
    {
        let (glyph, style) = cell_look_at(chars, abs, start + j, cur && j == rel, sel, query, current, jump, theme);
        let ch = match glyph {
            Some(g) => {
                let mut one = String::new();
                one.push(g);
                one
            },
            None => chars_between(chars, start + j, start + j + 1),
        };
        assert(ch@ =~= cells[j as int].text);
        push_span(&mut spans, ch, style);
        assert(cells.subrange(0, j + 1) =~= cells.subrange(0, j as int).push(cells[j as int]));
        j = j + 1;
    }
    assert(cells.subrange(0, k as int) =~= cells);
    let past = cur && rel >= k;
    if past {
        let ch = if rel < rest {
            chars_between(chars, start + rel, start + rel + 1)
        } else {
            literal(" ")
        };
        proof {
            if rel < rest {
                assert(ch@ =~= seq![rest_seq[rel as int]]);
            } else {
                assert(ch@ =~= seq![' ']);
            }
        }
        push_span(&mut spans, ch, Style { fg: Some(theme.cursor_fg), bg: Some(theme.cursor_bg), modifiers: 0 });
    }
    if over && !past {
        push_span(&mut spans, literal("…"), dim);
    }
    proof {
        let cl = content_line(
            text@,
            abs as int,
            cursor_line as int,
            cursor_col as int,
            scroll_x as int,
            num_w as int,
            avail as int,
            sv,
            labels_view(labels),
            query@,
            pos_view(current),
            jump_cells(jump),
            *theme,
        );
        assert(spans_view(spans@) =~= cl);
    }
    spans
}

/// The columns left for text beside the gutter of a content area `height`
/// rows high and `width` columns wide.
pub fn text_width_of(width: u16, height: u16) -> (w: usize)
    ensures
        w == text_width(width as int, height as int),
{
    let max_dist: u16 = if height > 0 {
        height - 1
    } else {
        0
    };
    let num_w = decimal_len(max_dist as u128);
    let wd = width as usize;
    if wd > num_w + 2 {
        wd - num_w - 2
    } else {
        0
    }
}

/// The rows of the content area of `width` by `height` cells, `sel` selected.
pub fn content_lines(
    v: &Viewer,
    sel: Option<((usize, usize), (usize, usize))>,
    labels: Option<&Vec<char>>,
    query: &Vec<char>,
    current: Option<(usize, usize)>,
    jump: Option<(&JumpData, usize)>,
    theme: &Theme,
    width: u16,
    height: u16,
) -> (r: Vec<Vec<SpanText>>)
    requires
        v@.lines.len() > 0,
        jump_ok(jump),
    ensures
        lines_of_spans(r@) == content_view(
            v@,
            sel_view(sel),
            labels_view(labels),
            query@,
            pos_view(current),
            jump_cells(jump),
            *theme,
            width as int,
            height as int,
        ),
        spans_name_colors(r@),
{
    v.check_valid();
    let lines = v.lines();
    let total = lines.len();
    let (line, col) = v.cursor();
    let cursor_line = if line < total - 1 {
        line
    } else {
        total - 1
    };
    let scroll = v.scroll_y();
    let first = if scroll < total - 1 {
        scroll
    } else {
        total - 1
    };
    let h = height as usize;
    let end = if h < total - first {
        first + h
    } else {
        total
    };
    let max_dist: usize = if h > 0 {
        h - 1
    } else {
        0
    };
    let num_w = decimal_len(max_dist as u128);
    let avail = text_width_of(width, height);
    let scroll_x = v.scroll_x();
    let ghost m = v@;
    let ghost target = content_view(m, sel_view(sel), labels_view(labels), query@, pos_view(current), jump_cells(jump), *theme, width as int, height as int);
    let mut rows: Vec<Vec<SpanText>> = Vec::new();
    let mut i = first;
    while i < end
        invariant
            m == v@,
            crate::viewer::lines_view(lines@) == m.lines,
            total == lines@.len(),
            first <= i <= end <= total,
            first == first_shown(m),
            end == end_shown(m, height as int),
            cursor_line == min(m.line, m.lines.len() - 1),
            col == m.col,
            scroll_x == m.scroll_x,
            num_w == number_width(height as int),
            avail == text_width(width as int, height as int),
            target == content_view(m, sel_view(sel), labels_view(labels), query@, pos_view(current), jump_cells(jump), *theme, width as int, height as int),
            jump_ok(jump),
            rows@.len() == i - first,
            forall|j: int| 0 <= j < rows@.len() ==> spans_view(#[trigger] rows@[j]@) == target[j],
            spans_name_colors(rows@),
        decreases end - i,
    {
        let row = content_row(&lines[i], i, cursor_line, col, scroll_x, num_w, avail, sel, labels, query, current, jump, theme);
        let ghost before = rows@;
        rows.push(row);
        proof {
            assert(lines@[i as int]@ == m.lines[i as int]);
            assert forall|j: int| 0 <= j < rows@.len() implies spans_view(#[trigger] rows@[j]@) == target[j] by {
                if j < before.len() {
                    assert(rows@[j] == before[j]);
                }
            }
            assert forall|a: int, b: int|
                0 <= a < rows@.len() && 0 <= b < rows@[a]@.len() implies names_colors(
                #[trigger] rows@[a]@[b].style,
            ) by {
                if a < before.len() {
                    assert(rows@[a] == before[a]);
                }
            }
        }
        i = i + 1;
    }
    assert(lines_of_spans(rows@) =~= target);
    rows
}

fn one_line(spans: Vec<SpanText>) -> (r: Vec<Vec<SpanText>>)
    requires
        all_name_colors(spans@),
    ensures
        lines_of_spans(r@) == seq![spans_view(spans@)],
        spans_name_colors(r@),
{
    let mut r: Vec<Vec<SpanText>> = Vec::new();
    r.push(spans);
    assert(lines_of_spans(r@) =~= seq![spans_view(r@[0]@)]);
    r
}

/// A single line of one plain run of `text`.
pub fn note_lines(text: &str) -> (r: Vec<Vec<SpanText>>)
    ensures
        lines_of_spans(r@) == note_view(text@),
        spans_name_colors(r@),
{
    let mut spans: Vec<SpanText> = Vec::new();
    push_span(&mut spans, literal(text), Style { fg: None, bg: None, modifiers: 0 });
    assert(spans_view(spans@) =~= seq![styled(text@, plain())]);
    one_line(spans)
}

/// The key line of the footer, see [`footer_keys`].
fn footer_key_line(
    confirming: bool,
    jumping: Option<bool>,
    word_jump: Option<(&Vec<char>, bool, usize, bool)>,
    search: Option<(&Vec<char>, bool)>,
    counts: (u128, u128),
    theme: &Theme,
) -> (keys: Vec<SpanText>)
    ensures
        spans_view(keys@) == footer_keys(
            confirming,
            jumping,
            word_jump_view(word_jump),
            search_view(search),
            (counts.0 as nat, counts.1 as nat),
            *theme,
        ),
        all_name_colors(keys@),
{
    let plain_style = Style { fg: None, bg: None, modifiers: 0 };
    let dim = Style { fg: Some(theme.footer_dim), bg: None, modifiers: 0 };
    let bold = Style { fg: Some(theme.footer_key), bg: None, modifiers: BOLD };
    let mut keys: Vec<SpanText> = Vec::new();
    if confirming {
        push_span(&mut keys, literal(" Insert the selection?  "), plain_style);
        push_span(&mut keys, literal("y/Enter"), bold);
        push_span(&mut keys, literal(":confirm  "), plain_style);
        push_span(&mut keys, literal("Esc"), bold);
        push_span(&mut keys, literal(":cancel"), plain_style);
    } else if let Some((t, select, n, labelled)) = word_jump {
        push_jump_keys(&mut keys, t, select, n, labelled, theme);
    } else if let Some(select) = jumping {
        push_span(&mut keys, literal(" "), plain_style);
        push_span(&mut keys, literal("a-z"), bold);
        push_span(&mut keys, literal(":below  "), plain_style);
        push_span(&mut keys, literal("A-Z"), bold);
        push_span(&mut keys, literal(":above  "), plain_style);
        push_span(&mut keys, literal("Esc"), bold);
        push_span(&mut keys, literal(":cancel"), plain_style);
        if select {
            push_span(
                &mut keys,
                literal("  [SEL]"),
                Style { fg: Some(theme.sel_label), bg: None, modifiers: 0 },
            );
        }
    } else if let Some((q, navigating)) = search {
        let mut text = String::new();
        text.append(" /");
        push_chars(&mut text, q);
        if navigating {
            let mut numbers = String::new();
            push_decimal(&mut numbers, counts.0);
            numbers.append("/");
            push_decimal(&mut numbers, counts.1);
            push_span(&mut keys, text, plain_style);
            push_span(&mut keys, literal("  "), plain_style);
            push_span(&mut keys, numbers, dim);
            push_span(&mut keys, literal("  "), plain_style);
            push_span(&mut keys, literal("n"), bold);
            push_span(&mut keys, literal(":next  "), plain_style);
            push_span(&mut keys, literal("N"), bold);
            push_span(&mut keys, literal(":prev  "), plain_style);
            push_span(&mut keys, literal("Space"), bold);
            push_span(&mut keys, literal(":select  "), plain_style);
            push_span(&mut keys, literal("Esc"), bold);
            push_span(&mut keys, literal(":done"), plain_style);
        } else {
            text.append("█");
            push_span(&mut keys, text, plain_style);
            push_span(&mut keys, literal("  "), plain_style);
            push_span(&mut keys, literal("Enter"), bold);
            push_span(&mut keys, literal(":confirm  "), plain_style);
            push_span(&mut keys, literal("Esc"), bold);
            push_span(&mut keys, literal(":cancel"), plain_style);
        }
        proof {
            reveal_strlit(" /");
            reveal_strlit("█");
        }
    } else {
        push_span(&mut keys, literal(" "), plain_style);
        push_span(&mut keys, literal("↑↓←→"), bold);
        push_span(&mut keys, literal(":move  "), plain_style);
        push_span(&mut keys, literal("PgUp/Dn"), bold);
        push_span(&mut keys, literal(":half-page  "), plain_style);
        push_span(&mut keys, literal("Space"), bold);
        push_span(&mut keys, literal(":select  "), plain_style);
        push_span(&mut keys, literal("Enter"), bold);
        push_span(&mut keys, literal(":copy  "), plain_style);
        push_span(&mut keys, literal("Esc"), bold);
        push_span(&mut keys, literal(":close"), plain_style);
    }
    proof {
        assert(spans_view(keys@) =~= footer_keys(
            confirming,
            jumping,
            word_jump_view(word_jump),
            search_view(search),
            (counts.0 as nat, counts.1 as nat),
            *theme,
        ));
    }
    keys
}

/// The two footer lines ([`footer_view`]): the status line, naming the
/// depth profile by `label` and the lines a selection spans, and the key
/// line of the mode the plugin is in.
pub fn footer_lines(
    v: &Viewer,
    label: String,
    selected_lines: Option<u128>,
    confirming: bool,
    jumping: Option<bool>,
    word_jump: Option<(&Vec<char>, bool, usize, bool)>,
    search: Option<(&Vec<char>, bool)>,
    counts: (u128, u128),
    notice: bool,
    theme: &Theme,
) -> (r: Vec<Vec<SpanText>>)
    ensures
        lines_of_spans(r@) == footer_view(
            v@,
            label@,
            match selected_lines {
                Some(n) => Some(n as nat),
                None => None,
            },
            confirming,
            jumping,
            word_jump_view(word_jump),
            search_view(search),
            (counts.0 as nat, counts.1 as nat),
            notice,
            *theme,
        ),
        spans_name_colors(r@),
{
    let plain_style = Style { fg: None, bg: None, modifiers: 0 };
    let dim = Style { fg: Some(theme.footer_dim), bg: None, modifiers: 0 };
    let bold = Style { fg: Some(theme.footer_key), bg: None, modifiers: BOLD };
    let (cline, ccol) = v.cursor();
    let mut count = String::new();
    push_decimal(&mut count, v.lines().len() as u128);
    count.append(" lines");
    let mut position = String::new();
    push_decimal(&mut position, cline as u128 + 1);
    position.append(":");
    push_decimal(&mut position, ccol as u128 + 1);
    let mut status: Vec<SpanText> = Vec::new();
    push_span(&mut status, literal(" "), plain_style);
    push_span(&mut status, label, dim);
    push_span(&mut status, literal("  "), plain_style);
    push_span(&mut status, count, dim);
    push_span(&mut status, literal("  "), plain_style);
    push_span(&mut status, position, dim);
    if let Some(n) = selected_lines {
        let mut sel = String::new();
        sel.append("SEL ");
        push_decimal(&mut sel, n);
        sel.append(" lines");
        push_span(&mut status, literal("  "), plain_style);
        push_span(
            &mut status,
            sel,
            Style { fg: Some(theme.sel_label), bg: None, modifiers: 0 },
        );
    }
    if notice {
        push_span(&mut status, literal("  "), plain_style);
        push_span(&mut status, literal("no selection"), Style { fg: Some(Color::Red), bg: None, modifiers: BOLD });
    }
    let keys = footer_key_line(confirming, jumping, word_jump, search, counts, theme);
    let ghost status_view = spans_view(status@);
    let ghost keys_view = spans_view(keys@);
    let mut r: Vec<Vec<SpanText>> = Vec::new();
    r.push(status);
    r.push(keys);
    proof {
        reveal_strlit("SEL ");
        reveal_strlit(" lines");
        let f = footer_view(
            v@,
            label@,
            match selected_lines {
                Some(n) => Some(n as nat),
                None => None,
            },
            confirming,
            jumping,
            word_jump_view(word_jump),
            search_view(search),
            (counts.0 as nat, counts.1 as nat),
            notice,
            *theme,
        );
        assert(status_view =~= f[0]);
        assert(keys_view =~= f[1]);
        assert(lines_of_spans(r@) =~= f);
        assert forall|a: int, b: int|
            0 <= a < r@.len() && 0 <= b < r@[a]@.len() implies names_colors(#[trigger] r@[a]@[b].style) by {
            if a == 0 {
                assert(all_name_colors(r@[0]@));
            } else {
                assert(all_name_colors(r@[1]@));
            }
        }
    }
    r
}

} // verus!
