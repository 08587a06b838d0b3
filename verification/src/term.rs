//! The frame buffer and the widgets that draw into it, from ratatui.
//!
//! A buffer is opaque here. What the library reads of it is named: its
//! bounds, and the cells it holds by position, each with its symbol, colors
//! and modifiers. What ratatui draws into it is named too and not stated.

use vstd::prelude::*;
use ratatui::buffer::Buffer;
use ratatui::layout::{Constraint, Direction, Layout, Rect};
use ratatui::style::{Color as TermColor, Modifier, Style as TermStyle};
use ratatui::text::{Line, Span, Text};
use ratatui::widgets::{Block, Paragraph, Widget};
use crate::render::{Color, color_name};

verus! {

#[verifier::external_type_specification]
#[verifier::external_body]
pub struct ExBuffer(Buffer);


/// A rectangle of cells.
#[derive(Clone, Copy, PartialEq, Eq, Structural)]
pub struct Area {
    pub x: u16,
    pub y: u16,
    pub width: u16,
    pub height: u16,
}

/// What a buffer holds at one position.
pub struct CellModel {
    pub symbol: Seq<char>,
    pub fg: Color,
    pub bg: Color,
    pub modifiers: u16,
}

/// A cell as the buffer reports it: its symbol, its colors by name, its
/// modifier bits.
pub struct CellText {
    pub symbol: String,
    pub fg: String,
    pub bg: String,
    pub modifiers: u16,
}

/// A style to draw with: colors by name, modifier bits.
pub struct StyleText {
    pub fg: Option<String>,
    pub bg: Option<String>,
    pub modifiers: u16,
}

/// A run of text drawn in one style.
pub struct SpanText {
    pub text: String,
    pub style: StyleText,
}

/// The plain values of a [`StyleText`].
pub struct StyleView {
    pub fg: Option<Seq<char>>,
    pub bg: Option<Seq<char>>,
    pub modifiers: u16,
}

/// The plain values of a [`SpanText`].
pub struct SpanView {
    pub text: Seq<char>,
    pub style: StyleView,
}

pub open spec fn opt_chars(s: Option<String>) -> Option<Seq<char>> {
    match s {
        Some(t) => Some(t@),
        None => None,
    }
}

pub open spec fn style_view(s: StyleText) -> StyleView {
    StyleView { fg: opt_chars(s.fg), bg: opt_chars(s.bg), modifiers: s.modifiers }
}

pub open spec fn span_view(s: SpanText) -> SpanView {
    SpanView { text: s.text@, style: style_view(s.style) }
}

/// The plain values of lines of spans.
pub open spec fn lines_of_spans(lines: Seq<Vec<SpanText>>) -> Seq<Seq<SpanView>> {
    lines.map_values(|l: Vec<SpanText>| l@.map_values(|s: SpanText| span_view(s)))
}

/// Whether `s` is the name of some color.
pub open spec fn is_color_name(s: Seq<char>) -> bool {
    exists|c: Color| color_name(c) == s
}

pub open spec fn names_colors(s: StyleText) -> bool {
    &&& (s.fg matches Some(n) ==> is_color_name(n@))
    &&& (s.bg matches Some(n) ==> is_color_name(n@))
}

/// Every color in `lines` is named by its color name.
pub open spec fn spans_name_colors(lines: Seq<Vec<SpanText>>) -> bool {
    forall|i: int, j: int|
        0 <= i < lines.len() && 0 <= j < lines[i]@.len() ==> names_colors(
            #[trigger] lines[i]@[j].style,
        )
}

/// The bounds of a buffer.
pub uninterp spec fn buffer_bounds(buf: Buffer) -> Area;

/// The cells of a buffer by `(x, y)`: a position is present exactly where
/// the buffer has a cell for it.
pub uninterp spec fn buffer_cells(buf: Buffer) -> Map<(u16, u16), CellModel>;

/// The cells after a paragraph of `lines` in style `style` is drawn in `area`
/// over a buffer with bounds `bounds` and cells `cells`.
pub uninterp spec fn paragraph_cells(
    cells: Map<(u16, u16), CellModel>,
    bounds: Area,
    area: Area,
    lines: Seq<Seq<SpanView>>,
    style: StyleView,
) -> Map<(u16, u16), CellModel>;

/// The cells after a paragraph of `lines` inside a block bordered on all
/// sides is drawn in `area` over a buffer with bounds `bounds` and cells `cells`.
pub uninterp spec fn framed_cells(
    cells: Map<(u16, u16), CellModel>,
    bounds: Area,
    area: Area,
    lines: Seq<Seq<SpanView>>,
) -> Map<(u16, u16), CellModel>;

/// The content and footer areas of a vertical layout of `area` with a
/// content part of at least one row and a footer of four rows.
pub uninterp spec fn content_footer_split(area: Area) -> (Area, Area);

/// Whether a rectangle contains a position; its right and bottom edges
/// saturate at `u16::MAX`.
pub open spec fn contains(area: Area, p: (u16, u16)) -> bool {
    let right = if area.x + area.width > u16::MAX {
        u16::MAX as int
    } else {
        area.x + area.width
    };
    let bottom = if area.y + area.height > u16::MAX {
        u16::MAX as int
    } else {
        area.y + area.height
    };
    area.x <= p.0 < right && area.y <= p.1 < bottom
}

/// The positions of a rectangle.
pub open spec fn positions(area: Area) -> Set<(u16, u16)> {
    Set::new(|p: (u16, u16)| contains(area, p))
}

/// The buffer has a cell at every position of its bounds, and at no other.
pub open spec fn covers_bounds(buf: Buffer) -> bool {
    buffer_cells(buf).dom() == positions(buffer_bounds(buf))
}

/// The cells of `after` outside `area` are those of `before`.
pub open spec fn same_outside(
    before: Map<(u16, u16), CellModel>,
    after: Map<(u16, u16), CellModel>,
    area: Area,
) -> bool {
    forall|p: (u16, u16)|
        before.dom().contains(p) && !contains(area, p) ==> #[trigger] after[p] == before[p]
}

/// An empty cell: a space, default colors, no modifiers.
pub open spec fn blank_cell() -> CellModel {
    CellModel { symbol: seq![' '], fg: Color::Reset, bg: Color::Reset, modifiers: 0 }
}

/// Blank cells at every position of `area`.
pub open spec fn blank_cells(area: Area) -> Map<(u16, u16), CellModel> {
    Map::new(|p: (u16, u16)| contains(area, p), |p: (u16, u16)| blank_cell())
}

/// `Buffer::empty`: a buffer over `area` whose cells are all `Cell::EMPTY`
/// (symbol " ", both colors `Reset`, no modifiers); it has a cell for every
/// position of the area (its content holds `width * height` cells).
#[verifier::external_body]
pub(crate) fn buffer_empty(area: Area) -> (buf: Buffer)
    ensures
        buffer_bounds(buf) == area,
        buffer_cells(buf) == blank_cells(area),
{
    Buffer::empty(Rect { x: area.x, y: area.y, width: area.width, height: area.height })
}

/// `Buffer::area`: the bounds of the buffer, as named.
#[verifier::external_body]
pub(crate) fn buffer_area(buf: &Buffer) -> (area: Area)
    ensures
        area == buffer_bounds(*buf),
{
    let r = buf.area();
    Area { x: r.x, y: r.y, width: r.width, height: r.height }
}

/// `Buffer::reset`: every cell becomes `Cell::EMPTY`; the bounds and the
/// positions that have a cell stay (the content is not resized).
#[verifier::external_body]
pub(crate) fn buffer_reset(buf: &mut Buffer)
    ensures
        buffer_bounds(*final(buf)) == buffer_bounds(*old(buf)),
        buffer_cells(*final(buf)) == Map::new(
            |p: (u16, u16)| buffer_cells(*old(buf)).dom().contains(p),
            |p: (u16, u16)| blank_cell(),
        ),
{
    buf.reset();
}

/// `Buffer::cell`: there is a cell at `(x, y)` exactly where the named cells
/// have one; it is reported by its symbol (`Cell::symbol`), the `Display`
/// names of its colors (`Reset`, `DarkGray`, `#RRGGBB`, a 256-color index, as
/// `color_name` spells them) and its modifier bits.
#[verifier::external_body]
pub(crate) fn cell_at(buf: &Buffer, x: u16, y: u16) -> (r: Option<CellText>)
    ensures
        r is Some <==> buffer_cells(*buf).dom().contains((x, y)),
        r matches Some(c) ==> {
            let m = buffer_cells(*buf)[(x, y)];
            &&& c.symbol@ == m.symbol
            &&& c.fg@ == color_name(m.fg)
            &&& c.bg@ == color_name(m.bg)
            &&& c.modifiers == m.modifiers
        },
{
    buf.cell((x, y)).map(
        |c| CellText {
            symbol: c.symbol().to_string(),
            fg: c.fg.to_string(),
            bg: c.bg.to_string(),
            modifiers: c.modifier.bits(),
        },
    )
}

/// `Paragraph::new(lines).style(style).render(area, buf)`, each line a `Line`
/// of styled `Span`s, each color parsed with `Color::from_str`, which reads
/// back every name that `Display` writes. The contract claims that the bounds
/// and the positions that have a cell stay and that the cells outside `area`
/// keep their values (the paragraph writes cells of its area in place; a
/// buffer whose content does not cover its bounds is refused, as `set_style`
/// indexes every cell of the area), and names the cells afterwards as a function of the cells and
/// bounds before, the area, the lines and the style; what ratatui draws there
/// (wrapping, widths, clipping) is not stated.
#[verifier::external_body]
pub(crate) fn draw_paragraph(buf: &mut Buffer, area: Area, lines: &Vec<Vec<SpanText>>, style: &StyleText)
    requires
        covers_bounds(*old(buf)),
        spans_name_colors(lines@),
        names_colors(*style),
    ensures
        buffer_bounds(*final(buf)) == buffer_bounds(*old(buf)),
        buffer_cells(*final(buf)).dom() == buffer_cells(*old(buf)).dom(),
        same_outside(buffer_cells(*old(buf)), buffer_cells(*final(buf)), area),
        buffer_cells(*final(buf)) == paragraph_cells(
            buffer_cells(*old(buf)),
            buffer_bounds(*old(buf)),
            area,
            lines_of_spans(lines@),
            style_view(*style),
        ),
{
    let color = |n: &Option<String>| n.as_ref().map(|n| n.parse::<TermColor>().unwrap());
    let term = |s: &StyleText| TermStyle {
        fg: color(&s.fg),
        bg: color(&s.bg),
        add_modifier: Modifier::from_bits_truncate(s.modifiers),
        ..TermStyle::default()
    };
    let text: Text = lines.iter().map(
        |l| l.iter().map(|s| Span::styled(s.text.clone(), term(&s.style))).collect::<Line>(),
    ).collect();
    Paragraph::new(text).style(term(style)).render(Rect::new(area.x, area.y, area.width, area.height), buf);
}

/// `Paragraph::new(lines).block(Block::bordered()).render(area, buf)`: the
/// paragraph inside a block with all borders (as
/// `Block::default().borders(Borders::ALL)`), converted as in
/// `draw_paragraph`. The contract claims, for a buffer whose content covers its bounds, that the
/// bounds and the positions that have a cell stay and that the cells outside
/// `area` keep their values, and names the cells afterwards as a function of the
/// cells and bounds before, the area and the lines; what ratatui draws is not
/// stated.
#[verifier::external_body]
pub(crate) fn draw_framed(buf: &mut Buffer, area: Area, lines: &Vec<Vec<SpanText>>)
    requires
        covers_bounds(*old(buf)),
        spans_name_colors(lines@),
    ensures
        buffer_bounds(*final(buf)) == buffer_bounds(*old(buf)),
        buffer_cells(*final(buf)).dom() == buffer_cells(*old(buf)).dom(),
        same_outside(buffer_cells(*old(buf)), buffer_cells(*final(buf)), area),
        buffer_cells(*final(buf)) == framed_cells(
            buffer_cells(*old(buf)),
            buffer_bounds(*old(buf)),
            area,
            lines_of_spans(lines@),
        ),
{
    let color = |n: &Option<String>| n.as_ref().map(|n| n.parse::<TermColor>().unwrap());
    let term = |s: &StyleText| TermStyle {
        fg: color(&s.fg),
        bg: color(&s.bg),
        add_modifier: Modifier::from_bits_truncate(s.modifiers),
        ..TermStyle::default()
    };
    let text: Text = lines.iter().map(
        |l| l.iter().map(|s| Span::styled(s.text.clone(), term(&s.style))).collect::<Line>(),
    ).collect();
    Paragraph::new(text).block(Block::bordered()).render(Rect::new(area.x, area.y, area.width, area.height), buf);
}

/// `Layout::split` of `area`, vertical, with `Constraint::Min(1)` and
/// `Constraint::Length(4)`: the content and footer areas. The contract names
/// the two areas as a function of `area`: where the area is at least five rows
/// high, the content area is its top rows but four and the footer its last four.
#[verifier::external_body]
pub(crate) fn split_content_footer(area: Area) -> (r: (Area, Area))
    ensures
        r == content_footer_split(area),
        area.height >= 5 && area.y + area.height <= u16::MAX ==> r.0 == (Area {
            height: (area.height - 4) as u16,
            ..area
        }) && r.1 == (Area { y: (area.y + area.height - 4) as u16, height: 4, ..area }),
{
    let rect = Rect { x: area.x, y: area.y, width: area.width, height: area.height };
    let chunks = Layout::default().direction(Direction::Vertical).constraints(
        [Constraint::Min(1), Constraint::Length(4)],
    ).split(rect);
    let (a, b) = (chunks[0], chunks[1]);
    (
        Area { x: a.x, y: a.y, width: a.width, height: a.height },
        Area { x: b.x, y: b.y, width: b.width, height: b.height },
    )
}

} // verus!
