//! The pty tile: a tab for each pane, and the screen of the active one.
//!
//! The cursor is shown only while the tile is focused.

use vstd::prelude::*;

use crate::geometry::Rect;
use crate::pty::{
    pty_cell, pty_cursor, pty_cursor_hidden, pty_size, PaneEntry, PtyCell, PtyCellView, PtyInput,
    PtyTerminal, TermColor,
};
use crate::scene::{
    draw_views, fg, group_scene, inner, line, no_modifier, plain, span, span_views,
    spec_inner, spec_span, spec_tile_frame, tile_frame, Color, Draw, DrawView, Line, LineView,
    Modifier, Span, SpanView, Style,
};
use crate::text::{decimal, decimal_string};

verus! {

broadcast use group_scene;

/// Panes that get a tab of their own; the rest are counted.
pub const MAX_TAB_DIGIT_SLOTS: usize = 9;

/// A terminal colour as a screen colour. The default colour is left as it is.
#[verifier::allow_in_spec]
pub fn convert_color(c: TermColor) -> Option<Color>
    returns
        (match c {
            TermColor::Default => None,
            TermColor::Idx(i) => Some(Color::Indexed(i)),
            TermColor::Rgb(r, g, b) => Some(Color::Rgb(r, g, b)),
        }),
{
    match c {
        TermColor::Default => None,
        TermColor::Idx(i) => Some(Color::Indexed(i)),
        TermColor::Rgb(r, g, b) => Some(Color::Rgb(r, g, b)),
    }
}

/// How a terminal cell is drawn at `x`, `y`. An empty cell is a blank.
pub open spec fn cell_draw(c: PtyCellView, x: int, y: int) -> DrawView {
    DrawView::Cell {
        x: x as u16,
        y: y as u16,
        symbol: if c.contents.len() == 0 {
            " "@
        } else {
            c.contents
        },
        style: Style {
            fg: convert_color(c.fg),
            bg: convert_color(c.bg),
            modifier: Modifier {
                bold: c.bold,
                italic: c.italic,
                underlined: c.underline,
                reversed: c.inverse,
                ..no_modifier()
            },
        },
    }
}

fn write_cell(c: PtyCell, x: u16, y: u16) -> (d: Draw)
    ensures
        d@ == cell_draw(c@, x as int, y as int),
{
    let symbol: String = if c.contents.as_str().is_empty() {
        String::from_str(" ")
    } else {
        c.contents
    };
    Draw::Cell {
        x,
        y,
        symbol,
        style: Style {
            fg: convert_color(c.fg),
            bg: convert_color(c.bg),
            modifier: Modifier {
                bold: c.bold,
                italic: c.italic,
                underlined: c.underline,
                reversed: c.inverse,
                ..no_modifier()
            },
        },
    }
}

/// The first `cols` cells of a row of the screen.
pub open spec fn row_cells(fed: Seq<PtyInput>, area: Rect, row: int, cols: nat) -> Seq<DrawView> {
    Seq::new(
        cols,
        |col: int| cell_draw(
            pty_cell(fed, row as u16, col as u16)->0,
            area.x + col,
            area.y + row,
        ),
    )
}

/// The first `rows` rows of the screen, each up to `cols` cells.
pub open spec fn screen_cells(fed: Seq<PtyInput>, area: Rect, rows: nat, cols: nat) -> Seq<DrawView>
    decreases rows,
{
    if rows == 0 {
        Seq::empty()
    } else {
        screen_cells(fed, area, (rows - 1) as nat, cols) + row_cells(fed, area, rows - 1, cols)
    }
}

/// The smaller of two sizes.
pub open spec fn smaller(a: u16, b: u16) -> u16 {
    if a < b {
        a
    } else {
        b
    }
}

/// The screen as far as it fits the area, and the cursor on top.
pub open spec fn screen_scene(fed: Seq<PtyInput>, area: Rect, focused: bool) -> Seq<DrawView> {
    let rows = smaller(area.height, pty_size(fed).0);
    let cols = smaller(area.width, pty_size(fed).1);
    let (row, col) = pty_cursor(fed);
    let cells = screen_cells(fed, area, rows as nat, cols as nat);
    if focused && !pty_cursor_hidden(fed) && row < rows && col < cols {
        cells.push(DrawView::Reverse { x: (area.x + col) as u16, y: (area.y + row) as u16 })
    } else {
        cells
    }
}

/// Draws the screen of an emulator.
pub fn render_screen(parser: &PtyTerminal, area: Rect, focused: bool) -> (draws: Vec<Draw>)
    requires
        area.edges_fit(),
    ensures
        draw_views(draws@) == screen_scene(parser@, area, focused),
{
    let ghost fed = parser@;
    let (screen_rows, screen_cols) = parser.size();
    let rows: u16 = if area.height < screen_rows {
        area.height
    } else {
        screen_rows
    };
    let cols: u16 = if area.width < screen_cols {
        area.width
    } else {
        screen_cols
    };
    let mut draws: Vec<Draw> = Vec::new();
    let mut row: u16 = 0;
    while row < rows
        invariant
            area.edges_fit(),
            fed == parser@,
            rows <= area.height,
            cols <= area.width,
            rows <= pty_size(fed).0,
            cols <= pty_size(fed).1,
            0 <= row <= rows,
            draw_views(draws@) == screen_cells(fed, area, row as nat, cols as nat),
        decreases rows - row,
    {
        let ghost above = draw_views(draws@);
        let ghost this_row = row_cells(fed, area, row as int, cols as nat);
        let mut col: u16 = 0;
        assert(above + this_row.take(0) =~= above);
        while col < cols
            invariant
                area.edges_fit(),
                fed == parser@,
                row < rows <= area.height,
                cols <= area.width,
                rows <= pty_size(fed).0,
                cols <= pty_size(fed).1,
                0 <= col <= cols,
                this_row == row_cells(fed, area, row as int, cols as nat),
                draw_views(draws@) == above + this_row.take(col as int),
            decreases cols - col,
        {
            if let Some(cell) = parser.cell(row, col) {
                draws.push(write_cell(cell, area.x + col, area.y + row));
            }
            assert(draw_views(draws@) =~= above + this_row.take(col as int + 1));
            col += 1;
        }
        assert(this_row.take(cols as int) =~= this_row);
        row += 1;
    }
    if focused && !parser.hide_cursor() {
        let (cursor_row, cursor_col) = parser.cursor_position();
        if cursor_row < rows && cursor_col < cols {
            draws.push(Draw::Reverse { x: area.x + cursor_col, y: area.y + cursor_row });
        }
    }
    draws
}

/// A pane's tab. The active one is starred.
pub open spec fn tab(slot: int, label: Seq<char>, active: bool) -> SpanView {
    spec_span(
        "["@ + decimal((slot + 1) as nat) + " "@ + label + (if active {
            "*"@
        } else {
            ""@
        }) + "]"@,
        if active {
            plain().bold()
        } else {
            fg(Color::DarkGray).dim()
        },
    )
}

/// The tabs of the first `n` panes, each with a blank behind it.
pub open spec fn tabs(panes: Seq<PaneEntry>, active: int, n: nat) -> Seq<SpanView>
    decreases n,
{
    if n == 0 {
        Seq::empty()
    } else {
        tabs(panes, active, (n - 1) as nat).push(
            tab(n - 1, panes[n - 1].label@, n - 1 == active),
        ).push(spec_span(" "@, plain()))
    }
}

/// The tab strip.
pub open spec fn tab_strip(panes: Seq<PaneEntry>, active: int, area: Rect) -> DrawView {
    let spans = if panes.len() > MAX_TAB_DIGIT_SLOTS {
        tabs(panes, active, MAX_TAB_DIGIT_SLOTS as nat).push(
            spec_span(
                "[+"@ + decimal((panes.len() - MAX_TAB_DIGIT_SLOTS) as nat) + "]"@,
                fg(Color::DarkGray).dim(),
            ),
        )
    } else {
        tabs(panes, active, panes.len())
    };
    DrawView::Text {
        area,
        lines: seq![LineView { spans, centered: false }],
        centered: false,
        wrap: false,
    }
}

fn render_tab_strip(panes: &Vec<PaneEntry>, active: usize, area: Rect) -> (d: Draw)
    ensures
        d@ == tab_strip(panes@, active as int, area),
{
    let n: usize = if panes.len() > MAX_TAB_DIGIT_SLOTS {
        MAX_TAB_DIGIT_SLOTS
    } else {
        panes.len()
    };
    let mut spans: Vec<Span> = Vec::new();
    let mut i: usize = 0;
    while i < n
        invariant
            n <= panes@.len(),
            n <= MAX_TAB_DIGIT_SLOTS,
            0 <= i <= n,
            span_views(spans@) == tabs(panes@, active as int, i as nat),
        decreases n - i,
    {
        let is_active: bool = i == active;
        let star: &str = if is_active {
            "*"
        } else {
            ""
        };
        let style: Style = if is_active {
            plain().bold()
        } else {
            fg(Color::DarkGray).dim()
        };
        spans.push(
            span(
                String::from_str("[").concat(decimal_string(i as u64 + 1).as_str()).concat(
                    " ",
                ).concat(panes[i].label.as_str()).concat(star).concat("]"),
                style,
            ),
        );
        spans.push(span(String::from_str(" "), plain()));
        i += 1;
    }
    if panes.len() > MAX_TAB_DIGIT_SLOTS {
        let more: u64 = (panes.len() - MAX_TAB_DIGIT_SLOTS) as u64;
        spans.push(
            span(
                String::from_str("[+").concat(decimal_string(more).as_str()).concat("]"),
                fg(Color::DarkGray).dim(),
            ),
        );
    }
    let mut lines: Vec<Line> = Vec::new();
    lines.push(line(spans));
    let d = Draw::Text { area, lines, centered: false, wrap: false };
    assert(d@ =~= tab_strip(panes@, active as int, area));
    d
}

/// The pty tile. A tile with a single row inside has no tabs.
pub open spec fn pty_scene(
    panes: Seq<PaneEntry>,
    active: int,
    area: Rect,
    focused: bool,
) -> Seq<DrawView> {
    let inside = spec_inner(area);
    let frame = seq![spec_tile_frame(area, "pty"@, focused, false)];
    let (top, content) = if inside.height >= 2 {
        (
            frame.push(tab_strip(panes, active, (Rect { height: 1, ..inside }))),
            Rect {
                y: (inside.y + 1) as u16,
                height: (inside.height - 1) as u16,
                ..inside
            },
        )
    } else {
        (frame, inside)
    };
    if 0 <= active < panes.len() {
        top + screen_scene(panes[active].parser@, content, focused)
    } else {
        top
    }
}

/// Draws the pty tile.
pub fn render(panes: &Vec<PaneEntry>, active: usize, area: Rect, focused: bool) -> (draws: Vec<
    Draw,
>)
    requires
        area.edges_fit(),
    ensures
        draw_views(draws@) == pty_scene(panes@, active as int, area, focused),
{
    let inside = inner(area);
    let mut draws: Vec<Draw> = Vec::new();
    draws.push(tile_frame(area, String::from_str("pty"), focused, false));
    let mut content = inside;
    if inside.height >= 2 {
        draws.push(render_tab_strip(panes, active, Rect { height: 1, ..inside }));
        content = Rect { y: inside.y + 1, height: inside.height - 1, ..inside };
    }
    if active < panes.len() {
        let mut cells = render_screen(&panes[active].parser, content, focused);
        draws.append(&mut cells);
    }
    assert(draw_views(draws@) =~= pty_scene(panes@, active as int, area, focused));
    draws
}

/// The pty tile of a session with a single pane, which needs no tabs.
pub open spec fn single_pane_scene(fed: Seq<PtyInput>, area: Rect, focused: bool) -> Seq<DrawView> {
    seq![spec_tile_frame(area, "pty"@, focused, false)] + screen_scene(
        fed,
        spec_inner(area),
        focused,
    )
}

/// Draws the pty tile of a session with a single pane.
pub fn render_single_pane(parser: &PtyTerminal, area: Rect, focused: bool) -> (draws: Vec<Draw>)
    requires
        area.edges_fit(),
    ensures
        draw_views(draws@) == single_pane_scene(parser@, area, focused),
{
    let mut draws: Vec<Draw> = Vec::new();
    draws.push(tile_frame(area, String::from_str("pty"), focused, false));
    let mut cells = render_screen(parser, inner(area), focused);
    draws.append(&mut cells);
    assert(draw_views(draws@) =~= single_pane_scene(parser@, area, focused));
    draws
}

} // verus!
