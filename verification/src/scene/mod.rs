//! What the screen shows, as a list of drawing operations.
//!
//! Each tile has a function that turns its state and its rectangle into a
//! list of [`Draw`]s. Painting them, in order, is the terminal library's
//! part.

pub mod docker;
pub mod fleet;
pub mod format;
pub mod overlay;
pub mod picker;
pub mod ports;
pub mod pty;
pub mod screen;
pub mod status;

use vstd::prelude::*;

use crate::geometry::Rect;

verus! {

/// A colour.
#[derive(Debug, Clone, Copy, PartialEq, Eq, Structural)]
pub enum Color {
    Black,
    Red,
    Green,
    Yellow,
    Blue,
    Cyan,
    Gray,
    DarkGray,
    White,
    Indexed(u8),
    Rgb(u8, u8, u8),
}

/// Text attributes.
#[derive(Debug, Clone, Copy, PartialEq, Eq, Structural)]
pub struct Modifier {
    pub bold: bool,
    pub dim: bool,
    pub italic: bool,
    pub underlined: bool,
    pub slow_blink: bool,
    pub reversed: bool,
}

/// How a piece of text looks. What is `None` is left as it was.
#[derive(Debug, Clone, Copy, PartialEq, Eq, Structural)]
pub struct Style {
    pub fg: Option<Color>,
    pub bg: Option<Color>,
    pub modifier: Modifier,
}

/// No attributes.
#[verifier::allow_in_spec]
pub fn no_modifier() -> Modifier
    returns
        (Modifier {
            bold: false,
            dim: false,
            italic: false,
            underlined: false,
            slow_blink: false,
            reversed: false,
        }),
{
    Modifier {
        bold: false,
        dim: false,
        italic: false,
        underlined: false,
        slow_blink: false,
        reversed: false,
    }
}

/// No style.
#[verifier::allow_in_spec]
pub fn plain() -> Style
    returns
        (Style { fg: None, bg: None, modifier: no_modifier() }),
{
    Style { fg: None, bg: None, modifier: no_modifier() }
}

/// A foreground colour.
#[verifier::allow_in_spec]
pub fn fg(color: Color) -> Style
    returns
        (Style { fg: Some(color), ..plain() }),
{
    Style { fg: Some(color), ..plain() }
}

impl Style {
    /// The style in another foreground colour.
    #[verifier::allow_in_spec]
    pub fn with_fg(self, color: Color) -> Style
        returns
            (Style { fg: Some(color), ..self }),
    {
        Style { fg: Some(color), ..self }
    }

    /// The style in bold.
    #[verifier::allow_in_spec]
    pub fn bold(self) -> Style
        returns
            (Style { modifier: Modifier { bold: true, ..self.modifier }, ..self }),
    {
        Style { modifier: Modifier { bold: true, ..self.modifier }, ..self }
    }

    /// The style dimmed.
    #[verifier::allow_in_spec]
    pub fn dim(self) -> Style
        returns
            (Style { modifier: Modifier { dim: true, ..self.modifier }, ..self }),
    {
        Style { modifier: Modifier { dim: true, ..self.modifier }, ..self }
    }

    /// The style in italics.
    #[verifier::allow_in_spec]
    pub fn italic(self) -> Style
        returns
            (Style { modifier: Modifier { italic: true, ..self.modifier }, ..self }),
    {
        Style { modifier: Modifier { italic: true, ..self.modifier }, ..self }
    }

    /// The style with both colours swapped.
    #[verifier::allow_in_spec]
    pub fn reversed(self) -> Style
        returns
            (Style { modifier: Modifier { reversed: true, ..self.modifier }, ..self }),
    {
        Style { modifier: Modifier { reversed: true, ..self.modifier }, ..self }
    }

    /// The style blinking slowly.
    #[verifier::allow_in_spec]
    pub fn slow_blink(self) -> Style
        returns
            (Style { modifier: Modifier { slow_blink: true, ..self.modifier }, ..self }),
    {
        Style { modifier: Modifier { slow_blink: true, ..self.modifier }, ..self }
    }
}

/// A piece of text in one style.
#[derive(Debug, Clone)]
pub struct Span {
    pub text: String,
    pub style: Style,
}

/// A line of text.
#[derive(Debug, Clone)]
pub struct Line {
    pub spans: Vec<Span>,
    pub centered: bool,
}

/// Height or width asked for.
#[derive(Debug, Clone, Copy, PartialEq, Eq, Structural)]
pub enum Extent {
    /// This many cells.
    Length(u16),
    /// At least this many cells.
    Min(u16),
}

/// A row of a table.
#[derive(Debug, Clone)]
pub struct TableRow {
    pub cells: Vec<Span>,
    pub style: Style,
}

/// A drawing operation.
#[derive(Debug, Clone)]
pub enum Draw {
    /// Blank the area.
    Clear { area: Rect },
    /// A border around the area, with a title in it.
    Frame { area: Rect, title: String, title_style: Style, border_style: Style },
    /// Lines of text.
    Text { area: Rect, lines: Vec<Line>, centered: bool, wrap: bool },
    /// A table with columns one cell apart.
    Table { area: Rect, header: Option<TableRow>, rows: Vec<TableRow>, widths: Vec<Extent> },
    /// One cell.
    Cell { x: u16, y: u16, symbol: String, style: Style },
    /// Swap the colours of one cell.
    Reverse { x: u16, y: u16 },
}

/// [`Span`] with its text as a sequence of characters.
#[verifier::ext_equal]
pub ghost struct SpanView {
    pub text: Seq<char>,
    pub style: Style,
}

/// [`Line`] with its spans viewed.
#[verifier::ext_equal]
pub ghost struct LineView {
    pub spans: Seq<SpanView>,
    pub centered: bool,
}

/// [`TableRow`] with its cells viewed.
#[verifier::ext_equal]
pub ghost struct RowView {
    pub cells: Seq<SpanView>,
    pub style: Style,
}

/// [`Draw`] with its contents viewed.
#[verifier::ext_equal]
pub ghost enum DrawView {
    Clear { area: Rect },
    Frame { area: Rect, title: Seq<char>, title_style: Style, border_style: Style },
    Text { area: Rect, lines: Seq<LineView>, centered: bool, wrap: bool },
    Table { area: Rect, header: Option<RowView>, rows: Seq<RowView>, widths: Seq<Extent> },
    Cell { x: u16, y: u16, symbol: Seq<char>, style: Style },
    Reverse { x: u16, y: u16 },
}

impl View for Span {
    type V = SpanView;

    open spec fn view(&self) -> SpanView {
        SpanView { text: self.text@, style: self.style }
    }
}

/// The views of a list of spans.
pub open spec fn span_views(spans: Seq<Span>) -> Seq<SpanView> {
    spans.map_values(|s: Span| s@)
}

impl View for Line {
    type V = LineView;

    open spec fn view(&self) -> LineView {
        LineView { spans: span_views(self.spans@), centered: self.centered }
    }
}

/// The views of a list of lines.
pub open spec fn line_views(lines: Seq<Line>) -> Seq<LineView> {
    lines.map_values(|l: Line| l@)
}

impl View for TableRow {
    type V = RowView;

    open spec fn view(&self) -> RowView {
        RowView { cells: span_views(self.cells@), style: self.style }
    }
}

/// The views of a list of rows.
pub open spec fn row_views(rows: Seq<TableRow>) -> Seq<RowView> {
    rows.map_values(|r: TableRow| r@)
}

impl View for Draw {
    type V = DrawView;

    open spec fn view(&self) -> DrawView {
        match *self {
            Draw::Clear { area } => DrawView::Clear { area },
            Draw::Frame { area, title, title_style, border_style } => DrawView::Frame {
                area,
                title: title@,
                title_style,
                border_style,
            },
            Draw::Text { area, lines, centered, wrap } => DrawView::Text {
                area,
                lines: line_views(lines@),
                centered,
                wrap,
            },
            Draw::Table { area, header, rows, widths } => DrawView::Table {
                area,
                header: match header {
                    Some(row) => Some(row@),
                    None => None,
                },
                rows: row_views(rows@),
                widths: widths@,
            },
            Draw::Cell { x, y, symbol, style } => DrawView::Cell { x, y, symbol: symbol@, style },
            Draw::Reverse { x, y } => DrawView::Reverse { x, y },
        }
    }
}

/// The views of a list of drawing operations.
pub open spec fn draw_views(draws: Seq<Draw>) -> Seq<DrawView> {
    draws.map_values(|d: Draw| d@)
}

/// Pushing a span pushes its view.
pub broadcast proof fn span_views_push(s: Seq<Span>, x: Span)
    ensures
        #[trigger] span_views(s.push(x)) == span_views(s).push(x@),
{
    assert(span_views(s.push(x)) =~= span_views(s).push(x@));
}

/// Pushing a line pushes its view.
pub broadcast proof fn line_views_push(s: Seq<Line>, x: Line)
    ensures
        #[trigger] line_views(s.push(x)) == line_views(s).push(x@),
{
    assert(line_views(s.push(x)) =~= line_views(s).push(x@));
}

/// Pushing a row pushes its view.
pub broadcast proof fn row_views_push(s: Seq<TableRow>, x: TableRow)
    ensures
        #[trigger] row_views(s.push(x)) == row_views(s).push(x@),
{
    assert(row_views(s.push(x)) =~= row_views(s).push(x@));
}

/// Pushing a drawing operation pushes its view.
pub broadcast proof fn draw_views_push(s: Seq<Draw>, x: Draw)
    ensures
        #[trigger] draw_views(s.push(x)) == draw_views(s).push(x@),
{
    assert(draw_views(s.push(x)) =~= draw_views(s).push(x@));
}

/// Appending drawing operations appends their views.
pub broadcast proof fn draw_views_add(s: Seq<Draw>, t: Seq<Draw>)
    ensures
        #[trigger] draw_views(s + t) == draw_views(s) + draw_views(t),
{
    assert(draw_views(s + t) =~= draw_views(s) + draw_views(t));
}

/// Nothing has no view.
pub broadcast proof fn empty_views()
    ensures
        #![trigger span_views(Seq::empty())]
        #![trigger line_views(Seq::empty())]
        #![trigger row_views(Seq::empty())]
        #![trigger draw_views(Seq::empty())]
        span_views(Seq::empty()) == Seq::<SpanView>::empty(),
        line_views(Seq::empty()) == Seq::<LineView>::empty(),
        row_views(Seq::empty()) == Seq::<RowView>::empty(),
        draw_views(Seq::empty()) == Seq::<DrawView>::empty(),
{
    assert(span_views(Seq::empty()) =~= Seq::<SpanView>::empty());
    assert(line_views(Seq::empty()) =~= Seq::<LineView>::empty());
    assert(row_views(Seq::empty()) =~= Seq::<RowView>::empty());
    assert(draw_views(Seq::empty()) =~= Seq::<DrawView>::empty());
}

pub broadcast group group_scene {
    span_views_push,
    line_views_push,
    row_views_push,
    draw_views_push,
    draw_views_add,
    empty_views,
}

/// A span.
pub open spec fn spec_span(text: Seq<char>, style: Style) -> SpanView {
    SpanView { text, style }
}

/// A line of one span.
pub open spec fn one_span(text: Seq<char>, style: Style, centered: bool) -> LineView {
    LineView { spans: seq![SpanView { text, style }], centered }
}

/// An empty line.
pub open spec fn no_spans() -> LineView {
    LineView { spans: Seq::empty(), centered: false }
}

/// A span.
pub fn span(text: String, style: Style) -> (s: Span)
    ensures
        s@ == spec_span(text@, style),
{
    Span { text, style }
}

/// A line of the given spans.
pub fn line(spans: Vec<Span>) -> (l: Line)
    ensures
        l@ == (LineView { spans: span_views(spans@), centered: false }),
{
    Line { spans, centered: false }
}

/// A line of one span.
pub fn styled_line(text: String, style: Style, centered: bool) -> (l: Line)
    ensures
        l@ == one_span(text@, style, centered),
{
    broadcast use group_scene;

    let mut spans: Vec<Span> = Vec::new();
    spans.push(Span { text, style });
    assert(span_views(spans@) =~= seq![SpanView { text: text@, style }]);
    Line { spans, centered }
}

/// An empty line.
pub fn blank_line() -> (l: Line)
    ensures
        l@ == no_spans(),
{
    broadcast use group_scene;

    Line { spans: Vec::new(), centered: false }
}

/// One line of text in one style.
pub open spec fn spec_bar(area: Rect, text: Seq<char>, style: Style) -> DrawView {
    DrawView::Text { area, lines: seq![one_span(text, style, false)], centered: false, wrap: false }
}

/// One line of text in one style.
pub fn bar(area: Rect, text: String, style: Style) -> (d: Draw)
    ensures
        d@ == spec_bar(area, text@, style),
{
    broadcast use group_scene;

    let mut lines: Vec<Line> = Vec::new();
    lines.push(styled_line(text, style, false));
    assert(line_views(lines@) =~= seq![one_span(text@, style, false)]);
    Draw::Text { area, lines, centered: false, wrap: false }
}

/// What a border with a title leaves of an area.
pub open spec fn spec_inner(area: Rect) -> Rect {
    Rect {
        x: if area.width == 0 { area.x } else { (area.x + 1) as u16 },
        y: if area.height == 0 { area.y } else { (area.y + 1) as u16 },
        width: if area.width < 2 { 0 } else { (area.width - 2) as u16 },
        height: if area.height < 2 { 0 } else { (area.height - 2) as u16 },
    }
}

/// What a border with a title leaves of an area.
pub fn inner(area: Rect) -> (r: Rect)
    requires
        area.edges_fit(),
    ensures
        r == spec_inner(area),
        r.edges_fit(),
{
    Rect {
        x: if area.width == 0 {
            area.x
        } else {
            area.x + 1
        },
        y: if area.height == 0 {
            area.y
        } else {
            area.y + 1
        },
        width: if area.width < 2 {
            0
        } else {
            area.width - 2
        },
        height: if area.height < 2 {
            0
        } else {
            area.height - 2
        },
    }
}

/// Colour and attributes of a tile's border. The focused tile is bright, the
/// tile under the pointer dimly lit, and any other dark.
pub open spec fn spec_border_style(focused: bool, hovered: bool) -> (Color, Modifier) {
    if focused {
        (Color::Cyan, no_modifier())
    } else if hovered {
        (Color::Cyan, Modifier { dim: true, ..no_modifier() })
    } else {
        (Color::DarkGray, Modifier { dim: true, ..no_modifier() })
    }
}

/// Colour and attributes of a tile's border.
pub fn border_style(focused: bool, hovered: bool) -> (r: (Color, Modifier))
    ensures
        r == spec_border_style(focused, hovered),
{
    if focused {
        (Color::Cyan, no_modifier())
    } else if hovered {
        (Color::Cyan, Modifier { dim: true, ..no_modifier() })
    } else {
        (Color::DarkGray, Modifier { dim: true, ..no_modifier() })
    }
}

/// The border of a tile.
pub open spec fn spec_tile_frame(
    area: Rect,
    title: Seq<char>,
    focused: bool,
    hovered: bool,
) -> DrawView {
    let (color, modifier) = spec_border_style(focused, hovered);
    DrawView::Frame {
        area,
        title,
        title_style: fg(color).bold(),
        border_style: Style { modifier, ..fg(color) },
    }
}

/// The border of a tile.
pub fn tile_frame(area: Rect, title: String, focused: bool, hovered: bool) -> (d: Draw)
    ensures
        d@ == spec_tile_frame(area, title@, focused, hovered),
{
    let (color, modifier) = border_style(focused, hovered);
    Draw::Frame {
        area,
        title,
        title_style: fg(color).bold(),
        border_style: Style { modifier, ..fg(color) },
    }
}

/// Rows that the extents ask for in all.
pub open spec fn asked(extents: Seq<Extent>) -> nat
    decreases extents.len(),
{
    if extents.len() == 0 {
        0
    } else {
        asked(extents.drop_last()) + match extents.last() {
            Extent::Length(n) => n as nat,
            Extent::Min(n) => n as nat,
        }
    }
}

/// One extent takes what the others leave.
pub open spec fn one_grows(extents: Seq<Extent>) -> bool {
    exists|k: int|
        0 <= k < extents.len() && (#[trigger] extents[k]) is Min && forall|i: int|
            0 <= i < extents.len() && i != k ==> (#[trigger] extents[i]) is Length
}

/// The pieces lie one below another and fill the area from top to bottom, and
/// every fixed extent has its length.
pub open spec fn stacked(area: Rect, extents: Seq<Extent>, chunks: Seq<Rect>) -> bool {
    &&& chunks[0].y == area.y
    &&& chunks.last().bottom_edge() == area.bottom_edge()
    &&& forall|i: int, j: int|
        #![trigger chunks[i], chunks[j]]
        0 <= i && j == i + 1 && j < chunks.len() ==> chunks[j].y == chunks[i].bottom_edge()
    &&& forall|i: int|
        0 <= i < extents.len() ==> ((#[trigger] extents[i]) matches Extent::Length(n) ==> chunks[i].height
            == n)
}

/// `chunks` is one way to cut `area` into rows of the given extents: as many
/// pieces as extents, each as wide as the area and inside it. Where one
/// extent grows and there is room for all of them, this leaves no choice.
pub open spec fn cuts_rows(area: Rect, extents: Seq<Extent>, chunks: Seq<Rect>) -> bool {
    &&& chunks.len() == extents.len()
    &&& forall|i: int|
        0 <= i < chunks.len() ==> {
            &&& (#[trigger] chunks[i]).x == area.x
            &&& chunks[i].width == area.width
            &&& area.y <= chunks[i].y
            &&& chunks[i].bottom_edge() <= area.bottom_edge()
        }
    &&& one_grows(extents) && asked(extents) <= area.height ==> stacked(area, extents, chunks)
}

proof fn lemma_same_tops(
    area: Rect,
    extents: Seq<Extent>,
    a: Seq<Rect>,
    b: Seq<Rect>,
    k: int,
    i: int,
)
    requires
        a.len() == extents.len(),
        b.len() == extents.len(),
        stacked(area, extents, a),
        stacked(area, extents, b),
        0 <= i <= k < extents.len(),
        forall|j: int| 0 <= j < extents.len() && j != k ==> (#[trigger] extents[j]) is Length,
    ensures
        a[i].y == b[i].y,
    decreases i,
{
    if i > 0 {
        lemma_same_tops(area, extents, a, b, k, i - 1);
        assert(extents[i - 1] is Length);
        assert(a[i].y == a[i - 1].bottom_edge());
        assert(b[i].y == b[i - 1].bottom_edge());
    }
}

proof fn lemma_same_bottoms(
    area: Rect,
    extents: Seq<Extent>,
    a: Seq<Rect>,
    b: Seq<Rect>,
    k: int,
    i: int,
)
    requires
        a.len() == extents.len(),
        b.len() == extents.len(),
        stacked(area, extents, a),
        stacked(area, extents, b),
        0 <= k <= i < extents.len(),
        forall|j: int| 0 <= j < extents.len() && j != k ==> (#[trigger] extents[j]) is Length,
    ensures
        a[i].bottom_edge() == b[i].bottom_edge(),
    decreases extents.len() - i,
{
    if i < extents.len() - 1 {
        lemma_same_bottoms(area, extents, a, b, k, i + 1);
        assert(extents[i + 1] is Length);
        assert(a[i + 1].y == a[i].bottom_edge());
        assert(b[i + 1].y == b[i].bottom_edge());
    }
}

/// Where one extent grows and the area has room for all of them, there is
/// only one way to cut it.
pub proof fn cut_with_room_is_unique(
    area: Rect,
    extents: Seq<Extent>,
    a: Seq<Rect>,
    b: Seq<Rect>,
)
    requires
        cuts_rows(area, extents, a),
        cuts_rows(area, extents, b),
        one_grows(extents),
        asked(extents) <= area.height,
    ensures
        a == b,
{
    let k = choose|k: int|
        0 <= k < extents.len() && (#[trigger] extents[k]) is Min && forall|i: int|
            0 <= i < extents.len() && i != k ==> (#[trigger] extents[i]) is Length;
    assert forall|i: int| 0 <= i < a.len() implies a[i] == b[i] by {
        if i <= k {
            lemma_same_tops(area, extents, a, b, k, i);
        }
        if i >= k {
            lemma_same_bottoms(area, extents, a, b, k, i);
        }
        if i != k {
            assert(extents[i] is Length);
        }
    }
    assert(a =~= b);
}

/// `ratatui::layout::Layout::vertical` and `split`: cuts an area into rows.
/// Pieces never leave the area. If one extent is a minimum, the others are
/// lengths and the area has room for all, lengths are kept and the minimum
/// grows over the rest. Where the area is too small the crate's constraint
/// solver decides what gives way, and that is not spelled out.
#[verifier::external_body]
pub(crate) fn split_rows(area: Rect, extents: &Vec<Extent>) -> (chunks: Vec<Rect>)
    requires
        area.edges_fit(),
    ensures
        cuts_rows(area, extents@, chunks@),
{
    let constraints = extents.iter().map(|e| match e {
        Extent::Length(n) => ratatui::layout::Constraint::Length(*n),
        Extent::Min(n) => ratatui::layout::Constraint::Min(*n),
    });
    let whole = ratatui::layout::Rect {
        x: area.x,
        y: area.y,
        width: area.width,
        height: area.height,
    };
    let rects = ratatui::layout::Layout::vertical(constraints).split(whole);
    rects.iter().map(|r| Rect { x: r.x, y: r.y, width: r.width, height: r.height }).collect()
}

/// Rows of a list tile: status bar, perhaps a filter bar, body and help bar.
pub open spec fn spec_list_extents(filter_bar: bool) -> Seq<Extent> {
    if filter_bar {
        seq![Extent::Length(1), Extent::Length(1), Extent::Min(1), Extent::Length(1)]
    } else {
        seq![Extent::Length(1), Extent::Min(1), Extent::Length(1)]
    }
}

/// Rows of a list tile.
pub fn list_extents(filter_bar: bool) -> (r: Vec<Extent>)
    ensures
        r@ == spec_list_extents(filter_bar),
{
    let mut v: Vec<Extent> = Vec::new();
    v.push(Extent::Length(1));
    if filter_bar {
        v.push(Extent::Length(1));
    }
    v.push(Extent::Min(1));
    v.push(Extent::Length(1));
    assert(v@ =~= spec_list_extents(filter_bar));
    v
}

/// How a table row starts.
pub open spec fn row_marker(selected: bool) -> Seq<char> {
    if selected {
        "▶ "@
    } else {
        "  "@
    }
}

} // verus!
