//! The plugin's state and its decisions: what each event changes and what
//! the host is to do in answer, and how a frame is drawn.

use vstd::prelude::*;
use ratatui::buffer::Buffer;
use crate::render::{Style, Color, flush, frame_text};
use crate::source_pane::{
    PaneManifest, TabPanes, has_terminal, focused_terminal, last_focused, or_else, pick, picked, scope, tab_scope,
};
use crate::term::{
    SpanView, positions, covers_bounds, same_outside, Area, CellModel, blank_cells, buffer_area, buffer_bounds, buffer_cells, buffer_empty,
    buffer_reset, content_footer_split, contains, draw_framed, draw_paragraph, framed_cells,
    paragraph_cells, split_content_footer,
};
use crate::view::{
    sel_view, pos_view, first_shown, end_shown, content_lines, content_view, dim_text, empty_note, footer_lines, footer_view, named_style,
    note_lines, note_view, style_text,
};
use crate::render::plain;
use crate::viewer::{
    Viewer, ViewerModel, at_centered, captured, framed, line_len, min, valid_position, initial_viewer, lines_view, moved_down, moved_left, moved_right,
    moved_up, paged_down, paged_up, panned_left, panned_right, to_line_end, to_line_start, valid,
};
use crate::motion::{move_backward, move_forward, moved_backward, moved_forward, precedes};
use crate::jump::{
    JumpCells, find_label, jump_data, jump_labelled, jump_labels, jump_matches, jump_target, list_view,
};
use crate::search::{
    match_counts, match_number, total_matches, find_match_from, find_next_match, find_prev_match, match_from, match_from_wrapping, next_wrapping,
    prev_wrapping,
};
use crate::config::{
    Theme, default_theme, default_theme_value, theme_with, with_color, default_labels, configured_labels,
    configured_unified, labels_from, unified_from,
    FloatSize, Profile, Profiles, ProfilesModel, configured, configured_size, current_profile, cycled,
    profile_label, size_from, wants_full,
};

verus! {

/// A tab as the plugin sees it in a tab update.
#[derive(Clone, Copy)]
pub struct TabRecord {
    pub position: usize,
    pub active: bool,
}

/// A key press: the arrows (with Shift on the horizontal ones), the page
/// keys, Esc, Enter (with and without Shift), and the characters typed.
#[derive(Clone, Copy, PartialEq, Eq, Structural, Debug)]
pub enum Key {
    Esc,
    Up,
    Down,
    Left,
    Right,
    ShiftLeft,
    ShiftRight,
    PageUp,
    PageDown,
    Enter,
    ShiftEnter,
    Backspace,
    Char(char),
    Other,
}

/// A capture the host is to take: of which pane, and whether the lines
/// above its viewport are wanted.
#[derive(Clone, Copy, PartialEq, Eq, Structural, Debug)]
pub struct Capture {
    pub pane: u32,
    pub full: bool,
}

/// The events the plugin receives.
pub enum Event {
    /// The user answered the permission request.
    PermissionResult,
    /// The tabs of the session.
    TabUpdate(Vec<TabRecord>),
    /// The panes of the session.
    PaneUpdate(PaneManifest),
    /// A key press.
    Key(Key),
    /// Anything else.
    Other,
}

/// What the host is to do after an event, in this order: rename the
/// plugin's pane, try to capture the scrollback of a pane, copy the selected
/// text ([`State::selection_text`]) to the clipboard, write it into a pane,
/// close the plugin; and whether to draw again.
pub struct Effects {
    pub rename: Option<u32>,
    pub grab: Option<Capture>,
    pub close: bool,
    pub render: bool,
    /// Copy the selected text to the clipboard.
    pub copy: bool,
    /// Write the selected text into this pane.
    pub insert: Option<u32>,
}

/// The abstract state of the plugin.
pub struct StateModel {
    pub source_pane: Option<u32>,
    pub last_focused: Option<u32>,
    pub active_tab: Option<usize>,
    pub own_plugin_id: u32,
    pub viewer: ViewerModel,
    pub profiles: ProfilesModel,
    pub anchor: Option<(usize, usize)>,
    pub confirming: bool,
    pub line_jump: Option<bool>,
    pub word_jump: Option<(Seq<char>, bool)>,
    pub search: Option<(Seq<char>, bool)>,
    pub notice: bool,
    pub theme: Theme,
    pub labels: Seq<char>,
    pub unified: bool,
    pub buffer_bounds: Option<Area>,
}

/// The position of the first active tab.
pub open spec fn first_active(tabs: Seq<TabRecord>) -> Option<usize>
    decreases tabs.len(),
{
    if tabs.len() == 0 {
        None
    } else {
        match first_active(tabs.drop_last()) {
            Some(p) => Some(p),
            None => if tabs.last().active {
                Some(tabs.last().position)
            } else {
                None
            },
        }
    }
}

/// A capture of `pane` for profile `p`.
pub open spec fn capture_of(pane: Option<u32>, p: Profile) -> Option<Capture> {
    match pane {
        Some(id) => Some(Capture { pane: id, full: wants_full(p) }),
        None => None,
    }
}

/// The capture to take: of the source pane, for the profile in use, once the
/// active tab is known and while nothing has been captured.
pub open spec fn grab_target(m: StateModel) -> Option<Capture> {
    if !m.viewer.extraction_done && m.active_tab is Some {
        capture_of(m.source_pane, current_profile(m.profiles))
    } else {
        None
    }
}

/// The capture to take after the profile changed: of the source pane, for
/// the new profile, once the active tab is known.
pub open spec fn regrab_target(m: StateModel) -> Option<Capture> {
    if m.active_tab is Some {
        capture_of(m.source_pane, current_profile(m.profiles))
    } else {
        None
    }
}

/// The lines a capture for profile `p` keeps: the viewport alone, or the
/// last `n` lines of the scrollback and the viewport.
pub open spec fn capture_lines(p: Profile, above: Seq<Seq<char>>, viewport: Seq<Seq<char>>) -> Seq<
    Seq<char>,
> {
    match p {
        Profile::Viewport => viewport,
        Profile::Lines(n) => crate::viewer::kept_lines(above + viewport, n as int),
    }
}

/// After a tab update: the active tab is recorded; the first time it becomes
/// known, a source pane chosen before is dropped so that it is chosen again
/// within that tab.
pub open spec fn tab_updated(m: StateModel, tabs: Seq<TabRecord>) -> StateModel {
    match first_active(tabs) {
        Some(p) => StateModel {
            active_tab: Some(p),
            source_pane: if m.active_tab is None {
                None
            } else {
                m.source_pane
            },
            ..m
        },
        None => m,
    }
}

/// The hint after a pane update: the focused non-plugin pane of the panes
/// considered, recorded before the source is chosen, else the earlier hint.
pub open spec fn updated_hint(m: StateModel, tabs: Seq<TabPanes>) -> Option<u32> {
    or_else(last_focused(scope(tabs, m.active_tab)), m.last_focused)
}

/// The source chosen in a pane update.
pub open spec fn chosen_source(m: StateModel, tabs: Seq<TabPanes>) -> Option<u32> {
    picked(scope(tabs, m.active_tab), updated_hint(m, tabs))
}

/// After a pane update: the hint, and the source pane where one was chosen.
pub open spec fn pane_updated(m: StateModel, tabs: Seq<TabPanes>) -> StateModel {
    let chosen = chosen_source(m, tabs);
    StateModel {
        last_focused: updated_hint(m, tabs),
        source_pane: if chosen is Some {
            chosen
        } else {
            m.source_pane
        },
        ..m
    }
}

/// The viewer after a key: the arrows move the cursor by a character or a
/// line, Shift with the horizontal arrows pans the view, the page keys move
/// half a page, `0` and `$` go to the start and the last character of the
/// line, `w` `W` `b` `B` `e` `E` move by words; other keys leave it.
pub open spec fn key_moved(v: ViewerModel, k: Key) -> ViewerModel {
    match k {
        Key::Up => moved_up(v),
        Key::Down => moved_down(v),
        Key::Left => moved_left(v),
        Key::Right => moved_right(v),
        Key::ShiftLeft => panned_left(v),
        Key::ShiftRight => panned_right(v),
        Key::PageUp => paged_up(v),
        Key::PageDown => paged_down(v),
        Key::Char(c) => if c == '0' {
            to_line_start(v)
        } else if c == '$' {
            to_line_end(v)
        } else if c == 'w' {
            moved_forward(v, false, false)
        } else if c == 'W' {
            moved_forward(v, true, false)
        } else if c == 'e' {
            moved_forward(v, false, true)
        } else if c == 'E' {
            moved_forward(v, true, true)
        } else if c == 'b' {
            moved_backward(v, false)
        } else if c == 'B' {
            moved_backward(v, true)
        } else {
            v
        },
        _ => v,
    }
}

/// Whether a key moves the cursor or the view.
pub open spec fn is_motion(k: Key) -> bool {
    match k {
        Key::Esc | Key::Other | Key::Enter | Key::ShiftEnter | Key::Backspace => false,
        Key::Char(c) => c == '0' || c == '$' || c == 'w' || c == 'W' || c == 'e' || c == 'E' || c
            == 'b' || c == 'B',
        _ => true,
    }
}

/// The key that cycles the depth profiles.
pub open spec fn cycles_profile(k: Key) -> bool {
    k == Key::Char('g')
}

/// The key that sets or clears the selection anchor.
pub open spec fn toggles_anchor(k: Key) -> bool {
    k == Key::Char(' ')
}

/// The cursor position of a viewer.
pub open spec fn cursor_pos(v: ViewerModel) -> (usize, usize) {
    (v.line as usize, v.col as usize)
}

/// The selected range, from the anchor to the cursor in stream order, both
/// included; none without an anchor.
pub open spec fn selection(m: StateModel) -> Option<((usize, usize), (usize, usize))> {
    match m.anchor {
        Some(a) => {
            let c = cursor_pos(m.viewer);
            if precedes((c.0 as int, c.1 as int), (a.0 as int, a.1 as int)) {
                Some((c, a))
            } else {
                Some((a, c))
            }
        },
        None => None,
    }
}

/// The part of line `l` that lies in the range from `lo` to `hi`.
pub open spec fn segment(lines: Seq<Seq<char>>, lo: (int, int), hi: (int, int), l: int) -> Seq<char> {
    let len = line_len(lines, l);
    let from = if l == lo.0 {
        min(lo.1, len)
    } else {
        0
    };
    let to = if l == hi.0 {
        min(hi.1 + 1, len)
    } else {
        len
    };
    if from < to {
        lines[l].subrange(from, to)
    } else {
        Seq::empty()
    }
}

/// The text of the range from `lo` to `hi` through line `l`: the parts of
/// the lines from `lo`'s on, joined by line feeds.
pub open spec fn text_through(lines: Seq<Seq<char>>, lo: (int, int), hi: (int, int), l: int) -> Seq<
    char,
>
    decreases l - lo.0,
{
    if l <= lo.0 {
        segment(lines, lo, hi, lo.0)
    } else {
        text_through(lines, lo, hi, l - 1) + seq!['\n'] + segment(lines, lo, hi, l)
    }
}

/// The selected text.
pub open spec fn selected_text(m: StateModel) -> Option<Seq<char>> {
    match selection(m) {
        Some((lo, hi)) => Some(
            text_through(
                m.viewer.lines,
                (lo.0 as int, lo.1 as int),
                (hi.0 as int, hi.1 as int),
                hi.0 as int,
            ),
        ),
        None => None,
    }
}

/// Whether the selection spans more than one line, so that its text holds
/// line feeds.
pub open spec fn selection_spans_lines(m: StateModel) -> bool {
    match selection(m) {
        Some((lo, hi)) => lo.0 < hi.0,
        None => false,
    }
}

/// Whether line `t` is among the rows shown.
pub open spec fn shown_line(v: ViewerModel, t: int) -> bool {
    v.lines.len() > 0 && first_shown(v) <= t < end_shown(v, v.content_rows)
}

/// The first index of `c` in `u`.
pub open spec fn index_in(u: Seq<char>, c: char) -> Option<int>
    decreases u.len(),
{
    if u.len() == 0 {
        None
    } else if u[0] == c {
        Some(0)
    } else {
        match index_in(u.drop_first(), c) {
            Some(i) => Some(i + 1),
            None => None,
        }
    }
}

proof fn lemma_index_in(u: Seq<char>, c: char)
    ensures
        index_in(u, c) matches Some(i) ==> 0 <= i < u.len() && u[i] == c && forall|k: int|
            0 <= k < i ==> u[k] != c,
        index_in(u, c) is None ==> forall|k: int| 0 <= k < u.len() ==> u[k] != c,
    decreases u.len(),
{
    if u.len() > 0 {
        lemma_index_in(u.drop_first(), c);
        if u[0] != c {
            assert forall|k: int| 0 < k < u.len() implies u[k] == u.drop_first()[k - 1] by {}
        }
    }
}

/// The line a line-jump label names, where that line is shown. Directional
/// (`unified` empty): `a` to `z` the lines below the cursor, nearest first,
/// `A` to `Z` those above. Unified: a label in the first half of `unified`
/// names a line below, one in the second half a line above.
pub open spec fn label_target(v: ViewerModel, unified: Seq<char>, c: char) -> Option<int> {
    if unified.len() > 0 {
        match index_in(unified, c) {
            Some(i) => {
                let h = unified.len() / 2;
                let t = if i < h {
                    v.line + i + 1
                } else {
                    v.line - (i - h) - 1
                };
                if shown_line(v, t) {
                    Some(t)
                } else {
                    None
                }
            },
            None => None,
        }
    } else if 'a' <= c <= 'z' && shown_line(v, v.line + ((c as int) - ('a' as int)) + 1) {
        Some(v.line + ((c as int) - ('a' as int)) + 1)
    } else if 'A' <= c <= 'Z' && shown_line(v, v.line - ((c as int) - ('A' as int)) - 1) {
        Some(v.line - ((c as int) - ('A' as int)) - 1)
    } else {
        None
    }
}

/// The viewer after a line jump to `t`: the column kept where the line is
/// long enough, else 0; the viewport centred on the cursor.
pub open spec fn jumped(v: ViewerModel, t: int) -> ViewerModel {
    at_centered(
        v,
        t,
        if v.col <= line_len(v.lines, t) {
            v.col
        } else {
            0
        },
    )
}

/// The state after a key in line-jump mode: Esc leaves the mode; a label
/// of a shown line moves the cursor there and leaves the mode, setting the
/// anchor at the new cursor where the mode was entered with `L`; other keys
/// change nothing.
pub open spec fn after_jump_key(m: StateModel, select: bool, k: Key) -> StateModel {
    match k {
        Key::Esc => StateModel { line_jump: None, ..m },
        Key::Char(c) => match label_target(m.viewer, unified_set(m), c) {
            Some(t) => {
                let v = jumped(m.viewer, t);
                StateModel {
                    viewer: v,
                    line_jump: None,
                    anchor: if select {
                        Some(cursor_pos(v))
                    } else {
                        m.anchor
                    },
                    ..m
                }
            },
            None => m,
        },
        _ => m,
    }
}

/// The viewer with the cursor on `p`, the viewport centred on it; the
/// viewer unchanged where `p` is none.
pub open spec fn centred_on(v: ViewerModel, p: Option<(int, int)>) -> ViewerModel {
    match p {
        Some(q) => at_centered(v, q.0, q.1),
        None => v,
    }
}

/// The state after a key in word-jump mode: Esc leaves the mode;
/// Backspace removes the last typed character; a character that labels a
/// match moves the cursor there, centres the viewport and leaves the mode,
/// setting the anchor at the new cursor where the mode was entered with
/// `S`; any other character is typed; other keys change nothing.
pub open spec fn after_word_jump_key(m: StateModel, t: Seq<char>, select: bool, k: Key) -> StateModel {
    match k {
        Key::Esc => StateModel { word_jump: None, ..m },
        Key::Backspace => if t.len() > 0 {
            StateModel { word_jump: Some((t.drop_last(), select)), ..m }
        } else {
            m
        },
        Key::Char(c) => match jump_target(m.viewer, t, m.labels, c) {
            Some(p) => {
                let v = at_centered(m.viewer, p.0, p.1);
                StateModel {
                    viewer: v,
                    word_jump: None,
                    anchor: if select {
                        Some(cursor_pos(v))
                    } else {
                        m.anchor
                    },
                    ..m
                }
            },
            None => StateModel { word_jump: Some((t.push(c), select)), ..m },
        },
        _ => m,
    }
}

/// Whether a key in search mode asks for a frame: every key while
/// navigating; while typing, Esc, Enter, a character, and Backspace where
/// the query is not empty.
pub open spec fn search_key_redraws(q: Seq<char>, navigating: bool, k: Key) -> bool {
    if navigating {
        true
    } else {
        match k {
            Key::Esc | Key::Enter | Key::Char(_) => true,
            Key::Backspace => q.len() > 0,
            _ => false,
        }
    }
}

/// The state after a key in search mode. While the query is typed, a
/// character is appended, Backspace removes the last one, Esc leaves the
/// mode, and Enter confirms: the cursor goes to the first occurrence at or
/// after it (else the first of all) and navigation starts. While
/// navigating, `n` and `N` go to the next and previous occurrence, round
/// the text; Space sets the anchor at the cursor and leaves the mode; any
/// other key leaves the mode.
pub open spec fn after_search_key(m: StateModel, q: Seq<char>, navigating: bool, k: Key) -> StateModel {
    let pos = (m.viewer.line, m.viewer.col);
    if !navigating {
        match k {
            Key::Esc => StateModel { search: None, ..m },
            Key::Enter => StateModel {
                viewer: centred_on(m.viewer, match_from_wrapping(m.viewer.lines, q, pos)),
                search: Some((q, true)),
                ..m
            },
            Key::Backspace => StateModel {
                search: Some(
                    (
                        if q.len() > 0 {
                            q.drop_last()
                        } else {
                            q
                        },
                        false,
                    ),
                ),
                ..m
            },
            Key::Char(c) => StateModel { search: Some((q.push(c), false)), ..m },
            _ => m,
        }
    } else {
        match k {
            Key::Char(c) => if c == 'n' {
                StateModel { viewer: centred_on(m.viewer, next_wrapping(m.viewer.lines, q, pos)), ..m }
            } else if c == 'N' {
                StateModel { viewer: centred_on(m.viewer, prev_wrapping(m.viewer.lines, q, pos)), ..m }
            } else if c == ' ' {
                StateModel { anchor: Some(cursor_pos(m.viewer)), search: None, ..m }
            } else {
                StateModel { search: None, ..m }
            },
            _ => StateModel { search: None, ..m },
        }
    }
}

/// The state after a key. While an insert waits for approval, Esc cancels
/// it and other keys change nothing. In line-jump mode see
/// [`after_jump_key`], in word-jump mode [`after_word_jump_key`], in search
/// mode [`after_search_key`]. Else: `s` and `S` enter word-jump mode; `/`
/// enters search mode where no anchor is set; `l` and `L` enter line-jump
/// mode; Esc clears the anchor where
/// there is one; Space sets the anchor at the cursor, or clears it; Shift-
/// Enter on a selection of several lines asks for approval; `g` moves on to
/// the next profile; a motion moves the viewer.
pub open spec fn after_key_in(m: StateModel, k: Key) -> StateModel {
    if m.confirming {
        if k == Key::Esc {
            StateModel { confirming: false, ..m }
        } else {
            m
        }
    } else if m.line_jump is Some {
        after_jump_key(m, m.line_jump->0, k)
    } else if m.word_jump is Some {
        match m.word_jump {
            Some((t, select)) => after_word_jump_key(m, t, select, k),
            None => m,
        }
    } else if m.search is Some {
        match m.search {
            Some((q, navigating)) => after_search_key(m, q, navigating, k),
            None => m,
        }
    } else if k == Key::Char('s') || k == Key::Char('S') {
        StateModel { word_jump: Some((Seq::empty(), k == Key::Char('S'))), ..m }
    } else if k == Key::Char('/') {
        if m.anchor is None {
            StateModel { search: Some((Seq::empty(), false)), ..m }
        } else {
            m
        }
    } else if k == Key::Char('l') || k == Key::Char('L') {
        StateModel { line_jump: Some(k == Key::Char('L')), ..m }
    } else if k == Key::Esc {
        StateModel { anchor: None, ..m }
    } else if toggles_anchor(k) {
        StateModel {
            anchor: if m.anchor is Some {
                None
            } else {
                Some(cursor_pos(m.viewer))
            },
            ..m
        }
    } else if k == Key::ShiftEnter {
        StateModel { confirming: selection_spans_lines(m), ..m }
    } else if cycles_profile(k) {
        StateModel { profiles: cycled(m.profiles), ..m }
    } else {
        StateModel { viewer: key_moved(m.viewer, k), ..m }
    }
}

/// Write the selection into the source pane and close, where there is one.
pub open spec fn insert_and_close(m: StateModel) -> Effects {
    if m.source_pane is Some {
        Effects { rename: None, grab: None, close: true, render: false, copy: false, insert: m.source_pane }
    } else {
        quiet()
    }
}

/// What the host is to do after a key. While an insert waits for approval,
/// `y` and Enter write the selection into the source pane and close, Esc
/// asks for a frame. In line-jump and word-jump mode, and for `/`, `s` and
/// `S`, a frame where the key changed the state; in search mode see
/// [`search_key_redraws`]. Else: `l` and `L` ask for a frame; Esc closes the
/// plugin where no anchor is set and
/// else asks for a frame; Enter copies the selection and closes; Shift-Enter
/// writes a one-line selection into the source pane and closes, and asks for
/// a frame to show the approval prompt of a longer one (both nothing
/// without a selection); `g` asks for a capture for the new profile and a
/// frame; Space and a motion ask for a frame.
pub open spec fn key_effects_in(m: StateModel, k: Key) -> Effects {
    if m.confirming {
        if k == Key::Char('y') || k == Key::Enter {
            insert_and_close(m)
        } else if k == Key::Esc {
            Effects { rename: None, grab: None, close: false, render: true, copy: false, insert: None }
        } else {
            quiet()
        }
    } else if m.line_jump is Some || m.word_jump is Some || k == Key::Char('/') || k == Key::Char('s')
        || k == Key::Char('S') {
        Effects {
            rename: None,
            grab: None,
            close: false,
            render: after_key_in(m, k) != m,
            copy: false,
            insert: None,
        }
    } else if m.search is Some {
        Effects {
            rename: None,
            grab: None,
            close: false,
            render: match m.search {
                Some((q, navigating)) => search_key_redraws(q, navigating, k),
                None => false,
            },
            copy: false,
            insert: None,
        }
    } else if k == Key::Char('l') || k == Key::Char('L') {
        Effects { rename: None, grab: None, close: false, render: true, copy: false, insert: None }
    } else if k == Key::Esc {
        Effects {
            rename: None,
            grab: None,
            close: m.anchor is None,
            render: m.anchor is Some,
            copy: false,
            insert: None,
        }
    } else if k == Key::Enter {
        if m.anchor is Some {
            Effects { rename: None, grab: None, close: true, render: false, copy: true, insert: None }
        } else {
            quiet()
        }
    } else if k == Key::ShiftEnter {
        if m.anchor is None {
            quiet()
        } else if selection_spans_lines(m) {
            Effects { rename: None, grab: None, close: false, render: true, copy: false, insert: None }
        } else {
            insert_and_close(m)
        }
    } else if cycles_profile(k) {
        Effects {
            rename: None,
            grab: regrab_target(after_key_in(m, k)),
            close: false,
            render: true,
            copy: false,
            insert: None,
        }
    } else {
        Effects {
            rename: None,
            grab: None,
            close: false,
            render: is_motion(k) || toggles_anchor(k),
            copy: false,
            insert: None,
        }
    }
}

/// Whether a key warns that there is no selection: Enter or Shift-Enter
/// with no anchor set, outside the other modes.
pub open spec fn warns(m: StateModel, k: Key) -> bool {
    &&& !m.confirming
    &&& m.line_jump is None
    &&& m.word_jump is None
    &&& m.search is None
    &&& m.anchor is None
    &&& (k == Key::Enter || k == Key::ShiftEnter)
}

/// The state after a key: see [`after_key_in`]; the "no selection" notice
/// shows after a key that [`warns`], and goes with the next key.
pub open spec fn after_key(m: StateModel, k: Key) -> StateModel {
    StateModel { notice: warns(m, k), ..after_key_in(m, k) }
}

/// What the host is to do after a key: see [`key_effects_in`]; a frame also
/// where the notice comes or goes, unless the plugin closes.
pub open spec fn key_effects(m: StateModel, k: Key) -> Effects {
    let fx = key_effects_in(m, k);
    if warns(m, k) || (m.notice && !fx.close) {
        Effects { render: true, ..fx }
    } else {
        fx
    }
}

/// Nothing to do and nothing to draw.
pub open spec fn quiet() -> Effects {
    Effects { rename: None, grab: None, close: false, render: false, copy: false, insert: None }
}

/// Whether an effect record asks for exactly `rename`, `grab`, `close` and `render`.
pub open spec fn asks(fx: Effects, rename: Option<u32>, grab: Option<Capture>, close: bool, render: bool) -> bool {
    fx.rename == rename && fx.grab == grab && fx.close == close && fx.render == render && !fx.copy
        && fx.insert is None
}

/// The frame of a host area `rows` high and `cols` wide, at the origin; the
/// sizes are cut to 16 bits.
pub open spec fn frame_area(rows: usize, cols: usize) -> Area {
    Area { x: 0, y: 0, width: cols as u16, height: rows as u16 }
}

/// The number of lines a selection spans.
pub open spec fn selected_lines(s: StateModel) -> Option<nat> {
    match selection(s) {
        Some((lo, hi)) => Some((hi.0 - lo.0 + 1) as nat),
        None => None,
    }
}

/// The footer of state `s`: its profile, its selection, and the approval
/// prompt while an insert waits for it.
pub open spec fn footer_of(s: StateModel) -> Seq<Seq<SpanView>> {
    footer_view(
        s.viewer,
        profile_label(current_profile(s.profiles)),
        selected_lines(s),
        s.confirming,
        s.line_jump,
        match s.word_jump {
            Some((t, select)) => Some(
                (t, select, jump_matches(s.viewer, t).len(), jump_labelled(s.viewer, t, s.labels)),
            ),
            None => None,
        },
        s.search,
        search_counts(s),
        s.notice,
        s.theme,
    )
}

/// The number of the occurrence the search stands on (0 where there is
/// none) and the number of all occurrences.
pub open spec fn search_counts(s: StateModel) -> (nat, nat) {
    match s.search {
        Some((q, _)) => (
            match current_of(s) {
                Some(p) => match_number(s.viewer.lines, q, p),
                None => 0,
            },
            total_matches(s.viewer.lines, q),
        ),
        None => (0, 0),
    }
}

/// The query whose occurrences are highlighted: the search's, else none.
pub open spec fn query_of(s: StateModel) -> Seq<char> {
    match s.search {
        Some((q, _)) => q,
        None => Seq::empty(),
    }
}

/// The occurrence the search stands on: the first at or after the cursor.
pub open spec fn current_of(s: StateModel) -> Option<(int, int)> {
    match s.search {
        Some((q, _)) => match_from(s.viewer.lines, q, (s.viewer.line, s.viewer.col)),
        None => None,
    }
}

/// What the rows show of a word jump.
pub open spec fn jump_of(s: StateModel) -> Option<JumpCells> {
    match s.word_jump {
        Some((t, _)) => Some(
            JumpCells {
                list: jump_matches(s.viewer, t),
                labels: jump_labels(s.viewer, t, s.labels),
                tlen: t.len() as int,
                labelled: jump_labelled(s.viewer, t, s.labels),
            },
        ),
        None => None,
    }
}

/// The unified line-jump labels of state `s`, empty for directional ones.
pub open spec fn unified_set(s: StateModel) -> Seq<char> {
    if s.unified {
        s.labels
    } else {
        Seq::empty()
    }
}

/// The content rows of state `s` in an area `width` by `height`.
pub open spec fn content_of(s: StateModel, width: int, height: int) -> Seq<Seq<SpanView>> {
    content_view(
        s.viewer,
        sel_view(selection(s)),
        if s.line_jump is Some {
            Some(unified_set(s))
        } else {
            None
        },
        query_of(s),
        current_of(s),
        jump_of(s),
        s.theme,
        width,
        height,
    )
}

/// The cells of a frame of state `s` drawn over `cells`: a note when the
/// frame is too small; else the content area (a note when nothing was
/// captured) above the bordered footer.
pub open spec fn drawn_cells(s: StateModel, area: Area, cells: Map<(u16, u16), CellModel>) -> Map<
    (u16, u16),
    CellModel,
> {
    if area.width < 20 || area.height < 5 {
        paragraph_cells(cells, area, area, note_view("too small"@), named_style(dim_text(s.theme)))
    } else {
        let (content, footer) = content_footer_split(area);
        let with_content = if s.viewer.lines.len() == 0 {
            paragraph_cells(cells, area, content, note_view(empty_note(s.viewer)), named_style(dim_text(s.theme)))
        } else {
            paragraph_cells(
                cells,
                area,
                content,
                content_of(s, content.width as int, content.height as int),
                named_style(plain()),
            )
        };
        framed_cells(with_content, area, footer, footer_of(s))
    }
}

/// Nothing is captured before the active tab is known, and nothing more once
/// a capture was taken (but for a change of profile); a capture is of the
/// source pane, and wants the lines above the viewport exactly when the
/// profile in use counts lines.
pub proof fn lemma_capture_waits_for_tab_and_happens_once(m: StateModel)
    ensures
        m.active_tab is None ==> grab_target(m) is None,
        m.viewer.extraction_done ==> grab_target(m) is None,
        grab_target(m) matches Some(c) ==> Some(c.pane) == m.source_pane && c.full == (current_profile(
            m.profiles,
        ) is Lines),
{
}

/// The first tab update that names an active tab drops the source chosen
/// before it; later ones keep the source.
pub proof fn lemma_first_tab_update_drops_source(m: StateModel, tabs: Seq<TabRecord>)
    requires
        first_active(tabs) is Some,
    ensures
        tab_updated(m, tabs).active_tab == first_active(tabs),
        m.active_tab is None ==> tab_updated(m, tabs).source_pane is None,
        m.active_tab is Some ==> tab_updated(m, tabs).source_pane == m.source_pane,
{
}

/// A pane update records the focused non-plugin pane as the hint before it
/// chooses, so where the panes considered have one, it becomes the source.
pub proof fn lemma_pane_update_follows_focus(m: StateModel, tabs: Seq<TabPanes>)
    requires
        exists|i: int|
            0 <= i < scope(tabs, m.active_tab).len() && !scope(tabs, m.active_tab)[i].is_plugin
                && scope(tabs, m.active_tab)[i].is_focused,
    ensures
        last_focused(scope(tabs, m.active_tab)) is Some,
        pane_updated(m, tabs).last_focused == last_focused(scope(tabs, m.active_tab)),
        pane_updated(m, tabs).source_pane == last_focused(scope(tabs, m.active_tab)),
{
    crate::source_pane::lemma_focused_pane_wins(scope(tabs, m.active_tab), updated_hint(m, tabs));
}

/// After a pane update the source is a non-plugin pane of the panes
/// considered; only where there is none does the earlier source stay.
pub proof fn lemma_pane_update_source_is_terminal(m: StateModel, tabs: Seq<TabPanes>)
    ensures
        chosen_source(m, tabs) is Some ==> has_terminal(
            scope(tabs, m.active_tab),
            pane_updated(m, tabs).source_pane->0,
        ),
        chosen_source(m, tabs) is None <==> (forall|i: int|
            0 <= i < scope(tabs, m.active_tab).len() ==> #[trigger] scope(
                tabs,
                m.active_tab,
            )[i].is_plugin),
        chosen_source(m, tabs) is None ==> pane_updated(m, tabs).source_pane == m.source_pane,
{
    crate::source_pane::lemma_pick_is_terminal_in_scope(scope(tabs, m.active_tab), updated_hint(m, tabs));
}

/// Keys move only the cursor and the view: the captured lines, the content
/// size and whether a capture was taken stay; a pan keeps the cursor.
pub proof fn lemma_keys_keep_text(v: ViewerModel, k: Key)
    ensures
        key_moved(v, k).lines == v.lines,
        key_moved(v, k).content_rows == v.content_rows,
        key_moved(v, k).content_cols == v.content_cols,
        key_moved(v, k).extraction_done == v.extraction_done,
        (k == Key::ShiftLeft || k == Key::ShiftRight) ==> key_moved(v, k).line == v.line
            && key_moved(v, k).col == v.col,
{
}

/// `g` changes only the profile in use, and asks again for a capture of the
/// source pane, wanting the scrollback above the viewport exactly when the
/// new profile counts lines.
pub proof fn lemma_cycle_asks_capture(m: StateModel)
    requires
        m.line_jump is None,
        m.word_jump is None,
        m.search is None,
        !m.notice,
        !m.confirming,
    ensures
        after_key(m, Key::Char('g')) == (StateModel { profiles: cycled(m.profiles), ..m }),
        m.active_tab is Some && m.source_pane is Some ==> key_effects(m, Key::Char('g')).grab == Some(
            Capture {
                pane: m.source_pane->0,
                full: current_profile(cycled(m.profiles)) is Lines,
            },
        ),
{
}

/// Esc resolves the innermost context first: a pending insert is cancelled
/// (the selection kept), else the selection anchor is cleared, and only
/// without either does the plugin close.
pub proof fn lemma_esc_chain(m: StateModel)
    requires
        m.line_jump is None,
        m.word_jump is None,
        m.search is None,
        !m.notice,
    ensures
        m.confirming ==> after_key(m, Key::Esc) == (StateModel { confirming: false, ..m })
            && !key_effects(m, Key::Esc).close,
        !m.confirming && m.anchor is Some ==> after_key(m, Key::Esc) == (StateModel {
            anchor: None,
            ..m
        }) && !key_effects(m, Key::Esc).close,
        !m.confirming && m.anchor is None ==> after_key(m, Key::Esc) == m && key_effects(
            m,
            Key::Esc,
        ).close,
{
}

/// Space sets the anchor at the cursor, and a second Space clears it again.
pub proof fn lemma_space_twice_clears_anchor(m: StateModel)
    requires
        m.line_jump is None,
        m.word_jump is None,
        m.search is None,
        !m.notice,
        !m.confirming,
        m.anchor is None,
    ensures
        after_key(m, Key::Char(' ')).anchor == Some(cursor_pos(m.viewer)),
        after_key(after_key(m, Key::Char(' ')), Key::Char(' ')) == m,
{
}

/// Enter copies exactly when there is a selection, and then closes; the
/// selection does not change; without one it shows the "no selection"
/// notice.
pub proof fn lemma_enter_copies_selection(m: StateModel)
    requires
        m.line_jump is None,
        m.word_jump is None,
        m.search is None,
        !m.notice,
        !m.confirming,
    ensures
        key_effects(m, Key::Enter).copy == (m.anchor is Some),
        key_effects(m, Key::Enter).close == (m.anchor is Some),
        key_effects(m, Key::Enter).render == (m.anchor is None),
        after_key(m, Key::Enter) == (StateModel { notice: m.anchor is None, ..m }),
{
}

/// With an anchor set, the cells drawn as selected are exactly those
/// between the anchor and the cursor in stream order, both included,
/// whichever of the two comes first; without one none are.
pub proof fn lemma_selection_between_anchor_and_cursor(m: StateModel, r: (int, int))
    ensures
        m.anchor is None ==> !crate::view::in_sel(crate::view::sel_view(selection(m)), r.0, r.1),
        m.anchor matches Some(a) ==> {
            let aa = (a.0 as int, a.1 as int);
            let cc = (m.viewer.line as usize as int, m.viewer.col as usize as int);
            crate::view::in_sel(crate::view::sel_view(selection(m)), r.0, r.1) <==> ((!precedes(r, aa)
                && !precedes(cc, r)) || (!precedes(r, cc) && !precedes(aa, r)))
        },
{
}

/// A selection on one line is the characters from its first to its last
/// position, both included, as far as the line goes.
pub proof fn lemma_one_line_selection(lines: Seq<Seq<char>>, lo: (int, int), hi: (int, int))
    requires
        lo.0 == hi.0,
        0 <= lo.0 < lines.len(),
        0 <= lo.1 <= hi.1 < lines[lo.0].len(),
    ensures
        text_through(lines, lo, hi, hi.0) == lines[lo.0].subrange(lo.1, hi.1 + 1),
{
}

/// Moving the cursor changes the selected range but not its anchor; the
/// cursor stays one end of it.
pub proof fn lemma_moves_extend_selection(m: StateModel, k: Key)
    requires
        m.line_jump is None,
        m.word_jump is None,
        m.search is None,
        !m.notice,
        !m.confirming,
        m.anchor is Some,
        is_motion(k),
        !cycles_profile(k),
    ensures
        after_key(m, k).anchor == m.anchor,
        selection(after_key(m, k)) matches Some((lo, hi)) && (lo == cursor_pos(after_key(m, k).viewer)
            || hi == cursor_pos(after_key(m, k).viewer)) && (lo == m.anchor->0 || hi == m.anchor->0),
{
}

/// A label names the line that shows it: a key leads to line `t` exactly
/// when `t` is shown and carries that key's label, for directional labels
/// and for a unified set in which no character repeats.
pub proof fn lemma_labels_name_their_lines(v: ViewerModel, unified: Seq<char>, c: char, t: int)
    requires
        valid(v),
        crate::config::no_dups(unified),
    ensures
        label_target(v, unified, c) == Some(t) <==> (shown_line(v, t) && crate::view::line_label(
            unified,
            v.line,
            t,
        ) == Some(c)),
{
    lemma_index_in(unified, c);
    let h = unified.len() / 2;
    if unified.len() > 0 {
        if shown_line(v, t) && crate::view::line_label(unified, v.line, t) == Some(c) {
            let k = if t > v.line {
                t - v.line - 1
            } else {
                h + (v.line - t) - 1
            };
            assert(unified[k] == c);
            match index_in(unified, c) {
                Some(i) => {
                    if i != k {
                        if i < k {
                            assert(unified[i] != unified[k]);
                        } else {
                            assert(unified[k] != unified[i]);
                        }
                    }
                },
                None => {},
            }
        }
    } else if shown_line(v, t) && crate::view::line_label(unified, v.line, t) == Some(c) {
        if t > v.line {
            assert((c as int) == ('a' as int) + (t - v.line - 1));
        } else {
            assert((c as int) == ('A' as int) + (v.line - t - 1));
        }
    }
}

/// A line jump lands on the labelled line, leaves line-jump mode, keeps
/// the anchor unless the mode was entered with `L`, and then sets it at
/// the new cursor.
pub proof fn lemma_line_jump_lands(m: StateModel, c: char)
    requires
        !m.notice,
        !m.confirming,
        m.line_jump is Some,
        label_target(m.viewer, unified_set(m), c) is Some,
    ensures
        after_key(m, Key::Char(c)).viewer.line == label_target(m.viewer, unified_set(m), c)->0,
        after_key(m, Key::Char(c)).line_jump is None,
        after_key(m, Key::Char(c)).anchor == if m.line_jump == Some(true) {
            Some(cursor_pos(after_key(m, Key::Char(c)).viewer))
        } else {
            m.anchor
        },
{
}

/// In word-jump mode a key that is a match's label puts the cursor on that
/// match, centres the viewport on it, leaves the mode, keeps the anchor
/// unless the mode was entered with `S`, and then sets it at the new cursor;
/// another character is typed and narrows the search; Esc leaves the mode
/// with the cursor where it was.
pub proof fn lemma_word_jump_lands(m: StateModel, c: char)
    requires
        !m.notice,
        !m.confirming,
        m.line_jump is None,
        m.word_jump is Some,
    ensures
        ({
            let (t, select) = m.word_jump->0;
            let after = after_key(m, Key::Char(c));
            &&& jump_target(m.viewer, t, m.labels, c) matches Some(p) ==> {
                &&& after.viewer.line == p.0 && after.viewer.col == p.1
                &&& after.viewer == at_centered(m.viewer, p.0, p.1)
                &&& after.word_jump is None
                &&& after.anchor == if select {
                    Some(cursor_pos(after.viewer))
                } else {
                    m.anchor
                }
            }
            &&& jump_target(m.viewer, t, m.labels, c) is None ==> after == (StateModel {
                word_jump: Some((t.push(c), select)),
                ..m
            })
        }),
        after_key(m, Key::Esc) == (StateModel { word_jump: None, ..m }),
{
}

/// Frames leave the cursor where it is, keep at least one content row, and
/// show the cursor line; where the text width changes, they show the cursor
/// column too (at an unchanged width a pan stays as it is).
pub proof fn lemma_frame_keeps_cursor(v: ViewerModel, rows: usize, cols: usize)
    requires
        valid(v),
    ensures
        framed(v, rows, cols).line == v.line,
        framed(v, rows, cols).col == v.col,
        framed(v, rows, cols).content_rows >= 1,
        framed(v, rows, cols).scroll_y <= crate::viewer::max_scroll(v.lines, framed(v, rows, cols).content_rows),
        crate::viewer::cursor_visible(framed(v, rows, cols)),
        framed(v, rows, cols).content_cols != v.content_cols ==> crate::viewer::cursor_col_visible(
            framed(v, rows, cols),
        ),
        valid(framed(v, rows, cols)),
{
}

/// The state before any event: no source, hint or active tab, the plugin id
/// not yet known, nothing captured, no frame drawn.
pub open spec fn initial_state() -> StateModel {
    StateModel {
        source_pane: None,
        last_focused: None,
        active_tab: None,
        own_plugin_id: 0,
        viewer: initial_viewer(),
        profiles: configured(None),
        anchor: None,
        confirming: false,
        line_jump: None,
        word_jump: None,
        search: None,
        notice: false,
        theme: default_theme(),
        labels: default_labels(),
        unified: false,
        buffer_bounds: None,
    }
}

/// The frame buffer kept from one frame to the next, so that it is reused
/// while the frame keeps its size.
struct Frame {
    buffer: Option<Buffer>,
}

impl Frame {
    #[verifier::type_invariant]
    closed spec fn inv(self) -> bool {
        self.buffer matches Some(b) ==> buffer_cells(b).dom() == positions(buffer_bounds(b))
    }

    closed spec fn bounds(self) -> Option<Area> {
        match self.buffer {
            Some(b) => Some(buffer_bounds(b)),
            None => None,
        }
    }

    fn none() -> (f: Frame)
        ensures
            f.bounds() is None,
    {
        Frame { buffer: None }
    }

    fn holding(b: Buffer) -> (f: Frame)
        requires
            buffer_cells(b).dom() == positions(buffer_bounds(b)),
        ensures
            f.bounds() == Some(buffer_bounds(b)),
    {
        Frame { buffer: Some(b) }
    }

    /// A blank buffer over `area`: the kept one, reset, where it has that
    /// area, else a new one.
    fn into_blank(self, area: Area) -> (b: Buffer)
        ensures
            buffer_bounds(b) == area,
            buffer_cells(b) == blank_cells(area),
    {
        proof {
            use_type_invariant(&self);
        }
        let Frame { buffer } = self;
        match buffer {
            Some(mut b) => {
                if buffer_area(&b) == area {
                    buffer_reset(&mut b);
                    assert(buffer_cells(b) =~= blank_cells(area));
                    b
                } else {
                    buffer_empty(area)
                }
            },
            None => buffer_empty(area),
        }
    }
}

fn quiet_effects() -> (r: Effects)
    ensures
        r == quiet(),
{
    Effects { rename: None, grab: None, close: false, render: false, copy: false, insert: None }
}

fn segment_text(lines: &Vec<String>, lo: (usize, usize), hi: (usize, usize), l: usize) -> (r: String)
    ensures
        r@ == segment(lines_view(lines@), (lo.0 as int, lo.1 as int), (hi.0 as int, hi.1 as int), l as int),
{
    let ghost ls = lines_view(lines@);
    if l >= lines.len() {
        return String::new();
    }
    assert(ls[l as int] == lines@[l as int]@);
    let s = lines[l].as_str();
    let len = s.unicode_len();
    let from = if l == lo.0 {
        if lo.1 < len {
            lo.1
        } else {
            len
        }
    } else {
        0
    };
    let to = if l == hi.0 {
        if hi.1 < len {
            hi.1 + 1
        } else {
            len
        }
    } else {
        len
    };
    if from < to {
        String::from_str(s.substring_char(from, to))
    } else {
        String::new()
    }
}

/// The plugin's state.
pub struct State {
    source_pane: Option<u32>,
    last_focused_non_plugin: Option<u32>,
    active_tab_index: Option<usize>,
    own_plugin_id: u32,
    viewer: Viewer,
    profiles: Profiles,
    anchor: Option<(usize, usize)>,
    confirming: bool,
    line_jump: Option<bool>,
    word_jump: Option<(Vec<char>, bool)>,
    search: Option<(Vec<char>, bool)>,
    notice: bool,
    theme: Theme,
    labels: Vec<char>,
    unified: bool,
    frame: Frame,
}

impl View for State {
    type V = StateModel;

    closed spec fn view(&self) -> StateModel {
        StateModel {
            source_pane: self.source_pane,
            last_focused: self.last_focused_non_plugin,
            active_tab: self.active_tab_index,
            own_plugin_id: self.own_plugin_id,
            viewer: self.viewer@,
            profiles: self.profiles@,
            anchor: self.anchor,
            confirming: self.confirming,
            line_jump: self.line_jump,
            word_jump: match &self.word_jump {
                Some((t, select)) => Some((t@, *select)),
                None => None,
            },
            search: match &self.search {
                Some((q, navigating)) => Some((q@, *navigating)),
                None => None,
            },
            notice: self.notice,
            theme: self.theme,
            labels: self.labels@,
            unified: self.unified,
            buffer_bounds: self.frame.bounds(),
        }
    }
}

impl State {
    /// The state before any event: nothing known, nothing captured.
    pub fn new() -> (s: Self)
        ensures
            s@ == initial_state(),
    {
        State {
            source_pane: None,
            last_focused_non_plugin: None,
            active_tab_index: None,
            own_plugin_id: 0,
            viewer: Viewer::new(),
            profiles: Profiles::from_config(&None),
            anchor: None,
            confirming: false,
            line_jump: None,
            word_jump: None,
            search: None,
            notice: false,
            theme: default_theme_value(),
            labels: labels_from(&None),
            unified: false,
            frame: Frame::none(),
        }
    }

    /// The depth profiles.
    pub fn profiles(&self) -> (p: &Profiles)
        ensures
            p@ == self@.profiles,
    {
        &self.profiles
    }

    /// The viewer.
    pub fn viewer(&self) -> (v: &Viewer)
        ensures
            v@ == self@.viewer,
    {
        &self.viewer
    }

    /// The pane the scrollback is read from.
    pub fn source_pane(&self) -> (r: Option<u32>)
        ensures
            r == self@.source_pane,
    {
        self.source_pane
    }

    /// The last focused non-plugin pane seen.
    pub fn last_focused_non_plugin(&self) -> (r: Option<u32>)
        ensures
            r == self@.last_focused,
    {
        self.last_focused_non_plugin
    }

    /// The position of the active tab, once known.
    pub fn active_tab_index(&self) -> (r: Option<usize>)
        ensures
            r == self@.active_tab,
    {
        self.active_tab_index
    }

    /// The id of the plugin's own pane.
    pub fn own_plugin_id(&self) -> (r: u32)
        ensures
            r == self@.own_plugin_id,
    {
        self.own_plugin_id
    }

    /// Takes in the configuration at load time: records the plugin's own
    /// pane id, reads the depth profiles from the `profiles` value (the
    /// first in use) and returns the float the `size` value asks for, if any.
    pub fn load(&mut self, plugin_id: u32, profiles: Option<String>, size: Option<String>) -> (r: Option<
        FloatSize,
    >)
        ensures
            final(self)@ == (StateModel {
                own_plugin_id: plugin_id,
                profiles: configured(crate::term::opt_chars(profiles)),
                ..old(self)@
            }),
            r == configured_size(crate::term::opt_chars(size)),
    {
        self.own_plugin_id = plugin_id;
        self.profiles = Profiles::from_config(&profiles);
        size_from(&size)
    }

    fn capture(&self) -> (r: Option<Capture>)
        ensures
            r == capture_of(self@.source_pane, current_profile(self@.profiles)),
    {
        match self.source_pane {
            Some(id) => {
                let full = match self.profiles.current() {
                    Profile::Viewport => false,
                    Profile::Lines(_) => true,
                };
                Some(Capture { pane: id, full })
            },
            None => None,
        }
    }

    /// Sets the theme color that configuration key `key` names to `value`;
    /// unknown keys and invalid colors change nothing.
    pub fn set_color(&mut self, key: &str, value: &str)
        ensures
            final(self)@ == (StateModel { theme: with_color(old(self)@.theme, key@, value@), ..old(self)@ }),
    {
        self.theme = theme_with(self.theme, key, value);
    }

    /// Reads the jump labels from the configuration's `labels` value and the
    /// line-jump scheme from its `line_labels` value (`unified` splits the
    /// labels between the lines below and above; anything else keeps the
    /// directional `a`-`z` / `A`-`Z`).
    pub fn set_labels(&mut self, labels: Option<String>, line_labels: Option<String>)
        ensures
            final(self)@ == (StateModel {
                labels: configured_labels(crate::term::opt_chars(labels)),
                unified: configured_unified(crate::term::opt_chars(line_labels)),
                ..old(self)@
            }),
    {
        self.labels = labels_from(&labels);
        self.unified = unified_from(&line_labels);
    }

    /// The capture to take now, if any.
    pub fn grab_target(&self) -> (r: Option<Capture>)
        ensures
            r == grab_target(self@),
    {
        if self.viewer.extraction_done() || self.active_tab_index.is_none() {
            None
        } else {
            self.capture()
        }
    }

    /// Takes a capture of the source pane, the lines above its viewport and
    /// the viewport, and keeps what the profile in use asks for: the
    /// viewport alone, or the last lines up to the profile's count. The
    /// selection and a pending insert are dropped.
    pub fn accept_scrollback(&mut self, above: Vec<String>, viewport: Vec<String>)
        ensures
            final(self)@ == (StateModel {
                anchor: None,
                confirming: false,
                line_jump: None,
                word_jump: None,
                search: None,
                viewer: captured(
                    old(self)@.viewer,
                    capture_lines(
                        current_profile(old(self)@.profiles),
                        lines_view(above@),
                        lines_view(viewport@),
                    ),
                ),
                ..old(self)@
            }),
    {
        proof {
            assert(lines_view(above@ + viewport@) =~= lines_view(above@) + lines_view(viewport@));
        }
        self.anchor = None;
        self.confirming = false;
        self.line_jump = None;
        self.word_jump = None;
        self.search = None;
        match self.profiles.current() {
            Profile::Viewport => {
                let n = viewport.len();
                let none: Vec<String> = Vec::new();
                proof {
                    assert(none@ + viewport@ =~= viewport@);
                    assert(crate::viewer::kept_lines(lines_view(viewport@), n as int) =~= lines_view(
                        viewport@,
                    ));
                }
                self.viewer.accept_scrollback(none, viewport, n);
            },
            Profile::Lines(n) => {
                self.viewer.accept_scrollback(above, viewport, n);
            },
        }
    }

    fn tab_update(&mut self, tabs: &Vec<TabRecord>)
        ensures
            final(self)@ == tab_updated(old(self)@, tabs@),
    {
        let mut i: usize = 0;
        let mut found: Option<usize> = None;
        while i < tabs.len()
            invariant
                i <= tabs@.len(),
                found == first_active(tabs@.subrange(0, i as int)),
            decreases tabs@.len() - i,
        {
            assert(tabs@.subrange(0, i + 1).drop_last() =~= tabs@.subrange(0, i as int));
            if found.is_none() && tabs[i].active {
                found = Some(tabs[i].position);
            }
            i = i + 1;
        }
        assert(tabs@.subrange(0, i as int) =~= tabs@);
        if let Some(position) = found {
            if self.active_tab_index.is_none() {
                self.source_pane = None;
            }
            self.active_tab_index = Some(position);
        }
    }

    fn pane_update(&mut self, manifest: &PaneManifest) -> (changed: bool)
        ensures
            final(self)@ == pane_updated(old(self)@, manifest.tabs@),
            changed == (chosen_source(old(self)@, manifest.tabs@) is Some
                && chosen_source(old(self)@, manifest.tabs@) != old(self)@.source_pane),
    {
        let panes = tab_scope(manifest, self.active_tab_index);
        if let Some(id) = focused_terminal(&panes) {
            self.last_focused_non_plugin = Some(id);
        }
        let new_source = pick(manifest, self.last_focused_non_plugin, self.active_tab_index);
        let changed = new_source.is_some() && self.source_pane != new_source;
        if changed {
            self.source_pane = new_source;
        }
        changed
    }

    fn label_target(&self, c: char) -> (r: Option<usize>)
        ensures
            r matches Some(t) ==> label_target(self@.viewer, unified_set(self@), c) == Some(t as int) && t
                < self@.viewer.lines.len(),
            r is None ==> label_target(self@.viewer, unified_set(self@), c) is None,
    {
        let v = &self.viewer;
        v.check_valid();
        let total = v.lines().len();
        if total == 0 {
            return None;
        }
        let scroll = v.scroll_y();
        let first = if scroll < total - 1 {
            scroll
        } else {
            total - 1
        };
        let rows = v.content_rows();
        let end = if rows < total - first {
            first + rows
        } else {
            total
        };
        let line = v.cursor().0;
        if self.unified && self.labels.len() > 0 {
            let u = &self.labels;
            let n = u.len();
            let mut i: usize = 0;
            while i < n
                invariant
                    i <= n == u@.len(),
                    forall|k: int| 0 <= k < i ==> u@[k] != c,
                ensures
                    i <= n == u@.len(),
                    forall|k: int| 0 <= k < i ==> u@[k] != c,
                    i < n ==> u@[i as int] == c,
                decreases n - i,
            {
                if u[i] == c {
                    break;
                }
                i = i + 1;
            }
            proof {
                lemma_index_in(u@, c);
            }
            if i == n {
                return None;
            }
            assert(u@[i as int] == c);
            assert(index_in(u@, c) == Some(i as int)) by {
                match index_in(u@, c) {
                    Some(j) => {
                        if j > i {
                            assert(u@[i as int] == c);
                        }
                    },
                    None => {},
                }
            }
            let h = n / 2;
            if i < h {
                if line < total && i < total - line - 1 {
                    let t = line + i + 1;
                    if first <= t && t < end {
                        return Some(t);
                    }
                }
                return None;
            } else {
                if i - h < line {
                    let t = line - (i - h) - 1;
                    if first <= t && t < end {
                        return Some(t);
                    }
                }
                return None;
            }
        }
        if 'a' <= c && c <= 'z' {
            let k = (c as u32 - 'a' as u32) as usize;
            if line < total && k < total - line - 1 {
                let t = line + k + 1;
                if first <= t && t < end {
                    return Some(t);
                }
            }
            None
        } else if 'A' <= c && c <= 'Z' {
            let k = (c as u32 - 'A' as u32) as usize;
            if k < line {
                let t = line - k - 1;
                if first <= t && t < end {
                    return Some(t);
                }
            }
            None
        } else {
            None
        }
    }

    fn jump_key(&mut self, select: bool, key: Key) -> (fx: Effects)
        requires
            !old(self)@.confirming,
            old(self)@.line_jump == Some(select),
        ensures
            final(self)@ == after_key_in(old(self)@, key),
            fx == key_effects_in(old(self)@, key),
    {
        match key {
            Key::Esc => {
                self.line_jump = None;
                Effects { rename: None, grab: None, close: false, render: true, copy: false, insert: None }
            },
            Key::Char(c) => {
                match self.label_target(c) {
                    Some(t) => {
                        self.viewer.jump_to_line(t);
                        self.line_jump = None;
                        if select {
                            self.anchor = Some(self.viewer.cursor());
                        }
                        Effects { rename: None, grab: None, close: false, render: true, copy: false, insert: None }
                    },
                    None => quiet_effects(),
                }
            },
            _ => quiet_effects(),
        }
    }

    /// The occurrence to go to after a search key, computed on the captured
    /// lines: for Enter the first at or after the cursor, else the first
    /// of all; for `n` the next, round the text; for `N` the previous.
    fn search_target(&self, q: &Vec<char>, which: u8) -> (r: Option<(usize, usize)>)
        requires
            which < 3,
        ensures
            pos_view(r) == if which == 0 {
                match_from_wrapping(self@.viewer.lines, q@, (self@.viewer.line, self@.viewer.col))
            } else if which == 1 {
                next_wrapping(self@.viewer.lines, q@, (self@.viewer.line, self@.viewer.col))
            } else {
                prev_wrapping(self@.viewer.lines, q@, (self@.viewer.line, self@.viewer.col))
            },
            r matches Some(p) ==> valid_position(self@.viewer.lines, p.0 as int, p.1 as int),
    {
        self.viewer.check_valid();
        let lines = self.viewer.lines();
        let n = lines.len();
        let ghost ls = self@.viewer.lines;
        if n == 0 {
            proof {
                assert forall|p: (int, int)| !crate::search::is_next_match(ls, q@, (self@.viewer.line, self@.viewer.col), p) by {}
                assert forall|p: (int, int)| !crate::search::is_next_match(ls, q@, (0, 0), p) by {}
                assert forall|p: (int, int)| !crate::search::is_prev_match(ls, q@, (self@.viewer.line, self@.viewer.col), p) by {}
                assert forall|p: (int, int)| !crate::search::is_prev_match(ls, q@, (0, 0), p) by {}
            }
            return None;
        }
        let (l, c) = self.viewer.cursor();
        assert(ls[l as int] == lines@[l as int]@);
        let r = if which == 0 {
            match find_match_from(lines, q, l, c) {
                Some(p) => Some(p),
                None => find_match_from(lines, q, 0, 0),
            }
        } else if which == 1 {
            match find_next_match(lines, q, l, c) {
                Some(p) => Some(p),
                None => find_match_from(lines, q, 0, 0),
            }
        } else {
            match find_prev_match(lines, q, l, c) {
                Some(p) => Some(p),
                None => find_prev_match(lines, q, n, 0),
            }
        };
        proof {
            if let Some(p) = r {
                assert(crate::search::occurs(ls, q@, p.0 as int, p.1 as int)) by {
                    let pv = (p.0 as int, p.1 as int);
                    if which == 0 {
                        if crate::search::occurs(ls, q@, l as int, c as int) && pv == (l as int, c as int) {
                        }
                    }
                }
            }
        }
        r
    }

    fn word_jump_key(&mut self, key: Key) -> (fx: Effects)
        requires
            !old(self)@.confirming,
            old(self)@.line_jump is None,
            old(self)@.word_jump is Some,
        ensures
            final(self)@ == after_key_in(old(self)@, key),
            fx == key_effects_in(old(self)@, key),
    {
        let (mut t, select) = match self.word_jump.take() {
            Some(st) => st,
            None => (Vec::new(), false),
        };
        let changed = Effects { rename: None, grab: None, close: false, render: true, copy: false, insert: None };
        match key {
            Key::Esc => changed,
            Key::Backspace => {
                if t.len() > 0 {
                    t.pop();
                    self.word_jump = Some((t, select));
                    changed
                } else {
                    self.word_jump = Some((t, select));
                    quiet_effects()
                }
            },
            Key::Char(c) => {
                let d = jump_data(&self.viewer, &t, &self.labels);
                match find_label(&d.labels, c) {
                    Some(i) => {
                        proof {
                            assert(list_view(d.list@)[i as int] == (d.list@[i as int].0 as int, d.list@[i as int].1 as int));
                        }
                        let (l, col) = d.list[i];
                        self.viewer.center_on(l, col);
                        if select {
                            self.anchor = Some(self.viewer.cursor());
                        }
                        changed
                    },
                    None => {
                        t.push(c);
                        self.word_jump = Some((t, select));
                        changed
                    },
                }
            },
            _ => {
                self.word_jump = Some((t, select));
                quiet_effects()
            },
        }
    }

    fn search_key(&mut self, key: Key) -> (fx: Effects)
        requires
            !old(self)@.confirming,
            old(self)@.line_jump is None,
            old(self)@.word_jump is None,
            old(self)@.search is Some,
        ensures
            final(self)@ == after_key_in(old(self)@, key),
            fx == key_effects_in(old(self)@, key),
    {
        let ghost m = self@;
        let (mut q, navigating) = match self.search.take() {
            Some(st) => st,
            None => (Vec::new(), false),
        };
        let changed = Effects { rename: None, grab: None, close: false, render: true, copy: false, insert: None };
        if !navigating {
            match key {
                Key::Esc => {
                    return changed;
                },
                Key::Enter => {
                    let target = self.search_target(&q, 0);
                    if let Some(p) = target {
                        self.viewer.center_on(p.0, p.1);
                    }
                    self.search = Some((q, true));
                    return changed;
                },
                Key::Backspace => {
                    if q.len() > 0 {
                        q.pop();
                        self.search = Some((q, false));
                        return changed;
                    }
                    self.search = Some((q, false));
                    return quiet_effects();
                },
                Key::Char(c) => {
                    q.push(c);
                    self.search = Some((q, false));
                    return changed;
                },
                _ => {
                    self.search = Some((q, false));
                    return quiet_effects();
                },
            }
        }
        match key {
            Key::Char(c) => {
                if c == 'n' || c == 'N' {
                    let target = self.search_target(&q, if c == 'n' { 1 } else { 2 });
                    if let Some(p) = target {
                        self.viewer.center_on(p.0, p.1);
                    }
                    self.search = Some((q, true));
                    changed
                } else if c == ' ' {
                    self.anchor = Some(self.viewer.cursor());
                    changed
                } else {
                    changed
                }
            },
            _ => changed,
        }
    }

    fn insert_effects(&self) -> (r: Effects)
        ensures
            r == insert_and_close(self@),
    {
        if self.source_pane.is_some() {
            Effects { rename: None, grab: None, close: true, render: false, copy: false, insert: self.source_pane }
        } else {
            quiet_effects()
        }
    }

    fn selection(&self) -> (r: Option<((usize, usize), (usize, usize))>)
        ensures
            r == selection(self@),
    {
        match self.anchor {
            Some(a) => {
                let c = self.viewer.cursor();
                if c.0 < a.0 || (c.0 == a.0 && c.1 < a.1) {
                    Some((c, a))
                } else {
                    Some((a, c))
                }
            },
            None => None,
        }
    }

    /// The selected text: the parts of the lines from the anchor to the
    /// cursor (in stream order, both included), joined by line feeds; none
    /// without an anchor.
    pub fn selection_text(&self) -> (r: Option<String>)
        ensures
            crate::term::opt_chars(r) == selected_text(self@),
    {
        let (lo, hi) = match self.selection() {
            Some(range) => range,
            None => {
                return None;
            },
        };
        let lines = self.viewer.lines();
        let ghost ls = self@.viewer.lines;
        let ghost glo = (lo.0 as int, lo.1 as int);
        let ghost ghi = (hi.0 as int, hi.1 as int);
        let mut out = segment_text(lines, lo, hi, lo.0);
        let mut l = lo.0;
        while l < hi.0
            invariant
                lo.0 <= l <= hi.0,
                lines_view(lines@) == ls,
                glo == (lo.0 as int, lo.1 as int),
                ghi == (hi.0 as int, hi.1 as int),
                out@ == text_through(ls, glo, ghi, l as int),
            decreases hi.0 - l,
        {
            let ghost before = out@;
            l = l + 1;
            out.push('\n');
            let part = segment_text(lines, lo, hi, l);
            out.append(part.as_str());
            proof {
                assert(text_through(ls, glo, ghi, l as int) == text_through(ls, glo, ghi, l - 1) + seq![
                    '\n',
                ] + segment(ls, glo, ghi, l as int));
                assert(out@ =~= before + seq!['\n'] + segment(ls, glo, ghi, l as int));
            }
        }
        Some(out)
    }

    /// Answers a key. While an insert waits for approval, `y` and Enter
    /// write the selection into the source pane and close, Esc cancels.
    /// Else: Esc clears the selection anchor, or closes the plugin where
    /// there is none; Space sets the anchor at the cursor, or clears it;
    /// Enter copies the selection and closes; Shift-Enter writes the
    /// selection into the source pane and closes, after approval where it
    /// spans several lines; the arrows, Shift with the horizontal arrows,
    /// the page keys, `0`, `$` and the word motions move the cursor or the
    /// view and ask for a frame; `g` moves on to the next depth profile and
    /// asks for a new capture; `l` and `L` enter line-jump mode, `s` and `S`
    /// word-jump mode and `/` search mode (see [`after_jump_key`],
    /// [`after_word_jump_key`], [`after_search_key`]); other keys do nothing.
    pub fn handle_key(&mut self, key: Key) -> (fx: Effects)
        ensures
            final(self)@ == after_key(old(self)@, key),
            fx == key_effects(old(self)@, key),
    {
        let was = self.notice;
        let warn = !self.confirming && self.line_jump.is_none() && self.word_jump.is_none()
            && self.search.is_none()
            && self.anchor.is_none() && (key == Key::Enter || key == Key::ShiftEnter);
        let fx = self.handle_key_in(key);
        self.notice = warn;
        if warn || (was && !fx.close) {
            Effects { render: true, ..fx }
        } else {
            fx
        }
    }

    fn handle_key_in(&mut self, key: Key) -> (fx: Effects)
        ensures
            final(self)@ == after_key_in(old(self)@, key),
            fx == key_effects_in(old(self)@, key),
    {
        let moved = Effects { rename: None, grab: None, close: false, render: true, copy: false, insert: None };
        if self.confirming {
            return match key {
                Key::Char('y') | Key::Enter => self.insert_effects(),
                Key::Esc => {
                    self.confirming = false;
                    moved
                },
                _ => quiet_effects(),
            };
        }
        let nothing = quiet_effects();
        if let Some(select) = self.line_jump {
            return self.jump_key(select, key);
        }
        if self.word_jump.is_some() {
            return self.word_jump_key(key);
        }
        if self.search.is_some() {
            return self.search_key(key);
        }
        if key == Key::Char('/') {
            if self.anchor.is_none() {
                self.search = Some((Vec::new(), false));
                return moved;
            }
            return nothing;
        }
        match key {
            Key::Esc => {
                if self.anchor.is_some() {
                    self.anchor = None;
                    moved
                } else {
                    Effects { rename: None, grab: None, close: true, render: false, copy: false, insert: None }
                }
            },
            Key::Enter => {
                if self.anchor.is_some() {
                    Effects { rename: None, grab: None, close: true, render: false, copy: true, insert: None }
                } else {
                    nothing
                }
            },
            Key::ShiftEnter => {
                match self.selection() {
                    None => nothing,
                    Some((lo, hi)) => {
                        if lo.0 < hi.0 {
                            self.confirming = true;
                            moved
                        } else {
                            self.insert_effects()
                        }
                    },
                }
            },
            Key::Up => {
                self.viewer.move_up();
                moved
            },
            Key::Down => {
                self.viewer.move_down();
                moved
            },
            Key::Left => {
                self.viewer.move_left();
                moved
            },
            Key::Right => {
                self.viewer.move_right();
                moved
            },
            Key::ShiftLeft => {
                self.viewer.pan_left();
                moved
            },
            Key::ShiftRight => {
                self.viewer.pan_right();
                moved
            },
            Key::PageUp => {
                self.viewer.page_up();
                moved
            },
            Key::PageDown => {
                self.viewer.page_down();
                moved
            },
            Key::Char(c) => {
                if c == 's' || c == 'S' {
                    self.word_jump = Some((Vec::new(), c == 'S'));
                    moved
                } else if c == 'l' || c == 'L' {
                    self.line_jump = Some(c == 'L');
                    moved
                } else if c == ' ' {
                    self.anchor = if self.anchor.is_some() {
                        None
                    } else {
                        Some(self.viewer.cursor())
                    };
                    moved
                } else if c == '0' {
                    self.viewer.move_line_start();
                    moved
                } else if c == '$' {
                    self.viewer.move_line_end();
                    moved
                } else if c == 'w' || c == 'W' || c == 'e' || c == 'E' {
                    move_forward(&mut self.viewer, c == 'W' || c == 'E', c == 'e' || c == 'E');
                    moved
                } else if c == 'b' || c == 'B' {
                    move_backward(&mut self.viewer, c == 'B');
                    moved
                } else if c == 'g' {
                    self.profiles.advance();
                    let grab = if self.active_tab_index.is_some() {
                        self.capture()
                    } else {
                        None
                    };
                    Effects { rename: None, grab, close: false, render: true, copy: false, insert: None }
                } else {
                    nothing
                }
            },
            Key::Other | Key::Backspace => nothing,
        }
    }

    /// Answers an event.
    ///
    /// - Permission granted: rename the plugin's pane, try a capture, draw.
    /// - Tab update: record the active tab; nothing to draw.
    /// - Pane update: record the focused non-plugin pane as the hint, then
    ///   choose the source; while nothing is captured try a capture and draw,
    ///   else draw when the source changed.
    /// - Key: see [`State::handle_key`].
    pub fn update(&mut self, event: Event) -> (fx: Effects)
        ensures
            match event {
                Event::PermissionResult => final(self)@ == old(self)@ && asks(
                    fx,
                    Some(old(self)@.own_plugin_id),
                    grab_target(old(self)@),
                    false,
                    true,
                ),
                Event::TabUpdate(tabs) => final(self)@ == tab_updated(old(self)@, tabs@) && fx
                    == quiet(),
                Event::PaneUpdate(manifest) => {
                    let next = pane_updated(old(self)@, manifest.tabs@);
                    let chosen = chosen_source(old(self)@, manifest.tabs@);
                    &&& final(self)@ == next
                    &&& if !old(self)@.viewer.extraction_done {
                        asks(fx, None, grab_target(next), false, true)
                    } else {
                        asks(
                            fx,
                            None,
                            None,
                            false,
                            chosen is Some && chosen != old(self)@.source_pane,
                        )
                    }
                },
                Event::Key(k) => final(self)@ == after_key(old(self)@, k) && fx == key_effects(
                    old(self)@,
                    k,
                ),
                Event::Other => final(self)@ == old(self)@ && fx == quiet(),
            },
    {
        match event {
            Event::PermissionResult => Effects {
                rename: Some(self.own_plugin_id),
                grab: self.grab_target(),
                close: false,
                render: true,
                copy: false,
                insert: None,
            },
            Event::TabUpdate(tabs) => {
                self.tab_update(&tabs);
                Effects { rename: None, grab: None, close: false, render: false, copy: false, insert: None }
            },
            Event::PaneUpdate(manifest) => {
                let changed = self.pane_update(&manifest);
                if !self.viewer.extraction_done() {
                    return Effects {
                        rename: None,
                        grab: self.grab_target(),
                        close: false,
                        render: true,
                        copy: false,
                        insert: None,
                    };
                }
                Effects { rename: None, grab: None, close: false, render: changed, copy: false, insert: None }
            },
            Event::Key(key) => self.handle_key(key),
            Event::Other => Effects { rename: None, grab: None, close: false, render: false, copy: false, insert: None },
        }
    }
    /// The occurrence of `q` the search stands on: the first at or after
    /// the cursor.
    fn current_match(&self, q: &Vec<char>) -> (r: Option<(usize, usize)>)
        ensures
            pos_view(r) == match_from(self@.viewer.lines, q@, (self@.viewer.line, self@.viewer.col)),
            r matches Some(x) ==> x.0 < self@.viewer.lines.len() && x.1 <= self@.viewer.lines[x.0 as int].len(),
    {
        self.viewer.check_valid();
        let all = self.viewer.lines();
        let ghost ls = self@.viewer.lines;
        if all.len() == 0 {
            proof {
                assert forall|p: (int, int)|
                    !crate::search::is_next_match(ls, q@, (self@.viewer.line, self@.viewer.col), p) by {}
            }
            return None;
        }
        let (l, c) = self.viewer.cursor();
        assert(ls[l as int] == all@[l as int]@);
        let r = find_match_from(all, q, l, c);
        proof {
            if let Some(x) = r {
                assert(ls[x.0 as int] == all@[x.0 as int]@);
                assert(crate::search::occurs(ls, q@, x.0 as int, x.1 as int)) by {
                    if crate::search::occurs(ls, q@, l as int, c as int) && (x.0 as int, x.1 as int) == (
                        l as int,
                        c as int,
                    ) {
                    }
                }
            }
        }
        r
    }

    /// Draws the content rows into `area` of `buf`: the note where nothing
    /// was captured, else the rows from `scroll_y` clamped to the last line,
    /// the cursor on its line clamped likewise. Only cells inside `area`
    /// change, and the state does not.
    pub fn render_content(&self, area: Area, buf: &mut Buffer)
        requires
            covers_bounds(*old(buf)),
        ensures
            buffer_bounds(*final(buf)) == buffer_bounds(*old(buf)),
            buffer_cells(*final(buf)).dom() == buffer_cells(*old(buf)).dom(),
            same_outside(buffer_cells(*old(buf)), buffer_cells(*final(buf)), area),
            buffer_cells(*final(buf)) == if self@.viewer.lines.len() == 0 {
                paragraph_cells(
                    buffer_cells(*old(buf)),
                    buffer_bounds(*old(buf)),
                    area,
                    note_view(empty_note(self@.viewer)),
                    named_style(dim_text(self@.theme)),
                )
            } else {
                paragraph_cells(
                    buffer_cells(*old(buf)),
                    buffer_bounds(*old(buf)),
                    area,
                    content_of(self@, area.width as int, area.height as int),
                    named_style(plain()),
                )
            },
    {
        let dim = style_text(Style { fg: Some(self.theme.footer_dim), bg: None, modifiers: 0 });
        if self.viewer.lines().len() == 0 {
            let note = if self.viewer.extraction_done() {
                note_lines("No content captured.")
            } else {
                note_lines("Loading…")
            };
            draw_paragraph(buf, area, &note, &dim);
            return ;
        }
        let empty: Vec<char> = Vec::new();
        let (query, current) = match &self.search {
            Some((q, _)) => (q, self.current_match(q)),
            None => (&empty, None),
        };
        let no_labels: Vec<char> = Vec::new();
        let shown_labels = if self.line_jump.is_some() {
            Some(
                if self.unified {
                    &self.labels
                } else {
                    &no_labels
                },
            )
        } else {
            None
        };
        let jd = match &self.word_jump {
            Some((t, _)) => Some((jump_data(&self.viewer, t, &self.labels), t.len())),
            None => None,
        };
        let jump = match &jd {
            Some((d, n)) => Some((d, *n)),
            None => None,
        };
        let lines = content_lines(
            &self.viewer,
            self.selection(),
            shown_labels,
            query,
            current,
            jump,
            &self.theme,
            area.width,
            area.height,
        );
        let plain_style = style_text(Style { fg: None, bg: None, modifiers: 0 });
        draw_paragraph(buf, area, &lines, &plain_style);
    }

    fn render_footer(&self, area: Area, buf: &mut Buffer)
        requires
            covers_bounds(*old(buf)),
        ensures
            buffer_bounds(*final(buf)) == buffer_bounds(*old(buf)),
            buffer_cells(*final(buf)).dom() == buffer_cells(*old(buf)).dom(),
            same_outside(buffer_cells(*old(buf)), buffer_cells(*final(buf)), area),
            buffer_cells(*final(buf)) == framed_cells(
                buffer_cells(*old(buf)),
                buffer_bounds(*old(buf)),
                area,
                footer_of(self@),
            ),
    {
        let label = self.profiles.label();
        let count = match self.selection() {
            Some((lo, hi)) => Some((hi.0 - lo.0) as u128 + 1),
            None => None,
        };
        let (search, counts) = match &self.search {
            Some((q, navigating)) => {
                let current = self.current_match(q);
                let all = self.viewer.lines();
                proof {
                    if let Some(x) = current {
                        assert(self@.viewer.lines[x.0 as int] == all@[x.0 as int]@);
                    }
                }
                (Some((q, *navigating)), match_counts(all, q, current))
            },
            None => (None, (0, 0)),
        };
        let word_jump = match &self.word_jump {
            Some((t, select)) => {
                let d = jump_data(&self.viewer, t, &self.labels);
                Some((t, *select, d.list.len(), d.labelled))
            },
            None => None,
        };
        draw_framed(
            buf,
            area,
            &footer_lines(
                &self.viewer,
                label,
                count,
                self.confirming,
                self.line_jump,
                word_jump,
                search,
                counts,
                self.notice,
                &self.theme,
            ),
        );
    }

    fn render_all(&self, area: Area, buf: &mut Buffer)
        requires
            buffer_bounds(*old(buf)) == area,
            buffer_cells(*old(buf)).dom() == positions(area),
        ensures
            buffer_bounds(*final(buf)) == area,
            buffer_cells(*final(buf)).dom() == positions(area),
            buffer_cells(*final(buf)) == drawn_cells(self@, area, buffer_cells(*old(buf))),
    {
        if area.width < 20 || area.height < 5 {
            let dim = style_text(Style { fg: Some(self.theme.footer_dim), bg: None, modifiers: 0 });
            draw_paragraph(buf, area, &note_lines("too small"), &dim);
            return ;
        }
        let (content, footer) = split_content_footer(area);
        self.render_content(content, buf);
        self.render_footer(footer, buf);
    }

    /// Draws a frame `rows` high and `cols` wide and returns the escape
    /// sequences that put it on the terminal. The content area takes all rows
    /// but the footer's four (at least one) and `scroll_y` is clamped so that
    /// no empty rows are left below the last line, then moved to show the
    /// cursor line; the text width follows the frame; the frame buffer is
    /// kept for the next frame.
    pub fn render(&mut self, rows: usize, cols: usize) -> (out: String)
        ensures
            final(self)@.viewer.scroll_y <= final(self)@.viewer.line < final(self)@.viewer.scroll_y
                + final(self)@.viewer.content_rows,
            final(self)@ == (StateModel {
                viewer: framed(old(self)@.viewer, rows, cols),
                buffer_bounds: Some(frame_area(rows, cols)),
                ..old(self)@
            }),
            out@ == frame_text(
                frame_area(rows, cols),
                drawn_cells(final(self)@, frame_area(rows, cols), blank_cells(frame_area(rows, cols))),
            ),
    {
        let area = Area { x: 0, y: 0, width: cols as u16, height: rows as u16 };
        self.viewer.check_valid();
        self.viewer.set_frame_size(rows, cols);
        proof {
            lemma_frame_keeps_cursor(old(self)@.viewer, rows, cols);
        }
        let mut frame = Frame::none();
        std::mem::swap(&mut frame, &mut self.frame);
        let mut buf = frame.into_blank(area);
        assert(buffer_cells(buf).dom() =~= positions(area));
        self.render_all(area, &mut buf);
        let out = flush(&buf);
        self.frame = Frame::holding(buf);
        out
    }
}

impl Default for State {
    fn default() -> (s: Self)
        ensures
            s@ == initial_state(),
    {
        State::new()
    }
}

} // verus!
