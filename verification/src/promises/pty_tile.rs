//! The pty tile on the screen.

use vstd::prelude::*;

use crate::geometry::Rect;
use crate::pty::{pty_cell, pty_cursor, pty_cursor_hidden, pty_size, PaneEntry, PtyInput, TermColor};
use crate::scene::Color;
use crate::scene::pty::{
    pty_scene, row_cells, screen_cells, screen_scene, single_pane_scene, tab_strip, tabs,
};
use crate::text::decimal;

verus! {

proof fn lemma_cells_in_rows(
    fed: Seq<PtyInput>,
    area: Rect,
    rows: nat,
    cols: nat,
    row: int,
    col: int,
)
    ensures
        screen_cells(fed, area, rows, cols).len() == rows * cols,
        0 <= row < rows && 0 <= col < cols ==> {
            &&& 0 <= row * cols + col < rows * cols
            &&& screen_cells(fed, area, rows, cols)[row * cols + col] == row_cells(
                fed,
                area,
                row,
                cols,
            )[col]
        },
    decreases rows,
{
    if rows > 0 {
        let fewer = (rows - 1) as nat;
        lemma_cells_in_rows(fed, area, fewer, cols, row, col);
        assert(rows * cols == fewer * cols + cols) by (nonlinear_arith)
            requires
                rows == fewer + 1,
        ;
    } else {
        assert(rows * cols == 0) by (nonlinear_arith)
            requires
                rows == 0,
        ;
    }
}

/// The emulator's screen is drawn cell by cell, row after row, as far as both
/// the tile and the screen go: each cell in its place, with its contents or a
/// blank, its colours and attributes. The cursor is drawn last, and only where
/// the tile is focused and the cursor is to be seen.
pub proof fn the_screen_is_drawn_cell_by_cell(
    fed: Seq<PtyInput>,
    area: Rect,
    focused: bool,
    row: int,
    col: int,
)
    requires
        area.x + area.width <= 65_535,
        area.y + area.height <= 65_535,
        0 <= row < area.height,
        0 <= col < area.width,
        row < pty_size(fed).0,
        col < pty_size(fed).1,
    ensures
        ({
            let scene = screen_scene(fed, area, focused);
            let rows = if area.height < pty_size(fed).0 {
                area.height as int
            } else {
                pty_size(fed).0 as int
            };
            let cols = if area.width < pty_size(fed).1 {
                area.width as int
            } else {
                pty_size(fed).1 as int
            };
            let d = scene[row * cols + col];
            let c = pty_cell(fed, row as u16, col as u16)->0;
            let (at_row, at_col) = pty_cursor(fed);
            let cursor = focused && !pty_cursor_hidden(fed) && at_row < rows && at_col < cols;
            &&& d is Cell
            &&& d->Cell_x == area.x + col
            &&& d->Cell_y == area.y + row
            &&& c.contents.len() > 0 ==> d->symbol == c.contents
            &&& c.contents.len() == 0 ==> d->symbol == " "@
            &&& d->style.modifier.bold == c.bold
            &&& d->style.modifier.italic == c.italic
            &&& d->style.modifier.underlined == c.underline
            &&& d->style.modifier.reversed == c.inverse
            &&& c.fg == TermColor::Default ==> d->style.fg is None
            &&& (c.fg matches TermColor::Idx(i) ==> d->style.fg == Some(Color::Indexed(i)))
            &&& (c.fg matches TermColor::Rgb(r, g, b) ==> d->style.fg == Some(Color::Rgb(r, g, b)))
            &&& c.bg == TermColor::Default ==> d->style.bg is None
            &&& (c.bg matches TermColor::Idx(i) ==> d->style.bg == Some(Color::Indexed(i)))
            &&& (c.bg matches TermColor::Rgb(r, g, b) ==> d->style.bg == Some(Color::Rgb(r, g, b)))
            &&& cursor ==> {
                &&& scene.len() == rows * cols + 1
                &&& scene.last() is Reverse
                &&& scene.last()->Reverse_x == area.x + at_col
                &&& scene.last()->Reverse_y == area.y + at_row
            }
            &&& !cursor ==> scene.len() == rows * cols
        }),
{
    let rows: nat = if area.height < pty_size(fed).0 {
        area.height as nat
    } else {
        pty_size(fed).0 as nat
    };
    let cols: nat = if area.width < pty_size(fed).1 {
        area.width as nat
    } else {
        pty_size(fed).1 as nat
    };
    lemma_cells_in_rows(fed, area, rows, cols, row, col);
}

/// The tile of a session with one pane: its border, and the screen inside it.
pub proof fn the_pty_tile_frames_the_screen(fed: Seq<PtyInput>, area: Rect, focused: bool)
    requires
        area.width >= 2,
        area.height >= 2,
        area.x + area.width <= 65_535,
        area.y + area.height <= 65_535,
    ensures
        ({
            let scene = single_pane_scene(fed, area, focused);
            let inside = Rect {
                x: (area.x + 1) as u16,
                y: (area.y + 1) as u16,
                width: (area.width - 2) as u16,
                height: (area.height - 2) as u16,
            };
            &&& scene.len() == 1 + screen_scene(fed, inside, focused).len()
            &&& scene[0] is Frame
            &&& scene[0]->Frame_area == area
            &&& scene[0]->Frame_title == "pty"@
            &&& scene[0]->Frame_border_style.fg == Some(
                if focused {
                    Color::Cyan
                } else {
                    Color::DarkGray
                },
            )
            &&& scene.subrange(1, scene.len() as int) == screen_scene(fed, inside, focused)
        }),
{
    let scene = single_pane_scene(fed, area, focused);
    let inside = Rect {
        x: (area.x + 1) as u16,
        y: (area.y + 1) as u16,
        width: (area.width - 2) as u16,
        height: (area.height - 2) as u16,
    };
    assert(scene.subrange(1, scene.len() as int) =~= screen_scene(fed, inside, focused));
}

proof fn lemma_tabs(panes: Seq<PaneEntry>, active: int, n: nat, i: int)
    ensures
        tabs(panes, active, n).len() == 2 * n,
        0 <= i < n ==> {
            &&& i == active ==> tabs(panes, active, n)[2 * i].text == "["@ + decimal(
                (i + 1) as nat,
            ) + " "@ + panes[i].label@ + "*"@ + "]"@ && tabs(
                panes,
                active,
                n,
            )[2 * i].style.modifier.bold
            &&& i != active ==> tabs(panes, active, n)[2 * i].text == "["@ + decimal(
                (i + 1) as nat,
            ) + " "@ + panes[i].label@ + ""@ + "]"@ && !tabs(
                panes,
                active,
                n,
            )[2 * i].style.modifier.bold
        },
    decreases n,
{
    if n > 0 {
        lemma_tabs(panes, active, (n - 1) as nat, i);
    }
}

/// The tabs: one for each of the first nine panes, numbered from one, with
/// its label, the active one starred; and how many there are beyond.
pub proof fn panes_have_their_tabs(panes: Seq<PaneEntry>, active: int, area: Rect, i: int)
    requires
        0 <= i < panes.len(),
        i < 9,
    ensures
        ({
            let spans = tab_strip(panes, active, area)->Text_lines[0].spans;
            &&& tab_strip(panes, active, area) is Text
            &&& tab_strip(panes, active, area)->Text_area == area
            &&& panes.len() <= 9 ==> spans.len() == 2 * panes.len()
            &&& panes.len() > 9 ==> spans.len() == 19 && spans[18].text == "[+"@ + decimal(
                (panes.len() - 9) as nat,
            ) + "]"@
            &&& i == active ==> spans[2 * i].text == "["@ + decimal((i + 1) as nat) + " "@
                + panes[i].label@ + "*"@ + "]"@
            &&& i != active ==> spans[2 * i].text == "["@ + decimal((i + 1) as nat) + " "@
                + panes[i].label@ + ""@ + "]"@
        }),
{
    lemma_tabs(
        panes,
        active,
        if panes.len() > 9 {
            9
        } else {
            panes.len()
        },
        i,
    );
}

/// The tile of a session with tabs: they take the first row inside, and the
/// screen of the active pane the rest.
pub proof fn the_active_pane_is_below_the_tabs(
    panes: Seq<PaneEntry>,
    active: int,
    area: Rect,
    focused: bool,
)
    requires
        0 <= active < panes.len(),
        area.width >= 2,
        area.height >= 4,
        area.x + area.width <= 65_535,
        area.y + area.height <= 65_535,
    ensures
        ({
            let scene = pty_scene(panes, active, area, focused);
            let top = Rect {
                x: (area.x + 1) as u16,
                y: (area.y + 1) as u16,
                width: (area.width - 2) as u16,
                height: 1,
            };
            let rest = Rect {
                x: (area.x + 1) as u16,
                y: (area.y + 2) as u16,
                width: (area.width - 2) as u16,
                height: (area.height - 3) as u16,
            };
            &&& scene.len() >= 2
            &&& scene[0] is Frame
            &&& scene[0]->Frame_title == "pty"@
            &&& scene[0]->Frame_area == area
            &&& scene[1] == tab_strip(panes, active, top)
            &&& scene.subrange(2, scene.len() as int) == screen_scene(
                panes[active].parser@,
                rest,
                focused,
            )
        }),
{
    let scene = pty_scene(panes, active, area, focused);
    let rest = Rect {
        x: (area.x + 1) as u16,
        y: (area.y + 2) as u16,
        width: (area.width - 2) as u16,
        height: (area.height - 3) as u16,
    };
    assert(scene.subrange(2, scene.len() as int) =~= screen_scene(
        panes[active].parser@,
        rest,
        focused,
    ));
}

} // verus!
