//! Rectangles and tiles, whatever their layout.

use vstd::prelude::*;

use crate::geometry::{FocusDir, Rect};
use crate::tile::{
    find_tile, first_covering, first_with_id, lemma_focus_move_is_unique, TileDefView, TileId,
    TileLayoutView,
};

verus! {

/// A rectangle covers the cells from its corner on, as many as it is wide and
/// high; one that would leave the screen is cut off at its edge.
pub proof fn rectangles_cover_their_cells(
    x: u16,
    y: u16,
    width: u16,
    height: u16,
    cx: int,
    cy: int,
)
    ensures
        ({
            let r = Rect::spec_new(x, y, width, height);
            &&& r.x == x && r.y == y
            &&& x + width <= 65_535 ==> r.width == width
            &&& x + width > 65_535 ==> r.x + r.width == 65_535
            &&& y + height <= 65_535 ==> r.height == height
            &&& y + height > 65_535 ==> r.y + r.height == 65_535
            &&& r.covers(cx, cy) <==> r.x <= cx < r.x + r.width && r.y <= cy < r.y + r.height
        }),
{
}

/// A tile is found by its id, the first that has it.
pub proof fn tiles_are_found_by_their_id(tiles: Seq<TileDefView>, id: TileId, i: int)
    ensures
        0 <= i < tiles.len() && tiles[i].id == id && (forall|k: int|
            0 <= k < i ==> (#[trigger] tiles[k]).id != id) ==> find_tile(tiles, id) == Some(
            tiles[i],
        ) && first_with_id(tiles, id) == Some(i),
        (forall|k: int| 0 <= k < tiles.len() ==> (#[trigger] tiles[k]).id != id) ==> find_tile(
            tiles,
            id,
        ) is None && first_with_id(tiles, id) is None,
{
    lemma_found_from_the_front(tiles, id, i);
    lemma_found_from_the_back(tiles, id, i);
}

proof fn lemma_found_from_the_front(tiles: Seq<TileDefView>, id: TileId, i: int)
    ensures
        0 <= i < tiles.len() && tiles[i].id == id && (forall|k: int|
            0 <= k < i ==> (#[trigger] tiles[k]).id != id) ==> find_tile(tiles, id) == Some(
            tiles[i],
        ),
        (forall|k: int| 0 <= k < tiles.len() ==> (#[trigger] tiles[k]).id != id) ==> find_tile(
            tiles,
            id,
        ) is None,
    decreases tiles.len(),
{
    if tiles.len() > 0 {
        let rest = tiles.drop_first();
        lemma_found_from_the_front(rest, id, i - 1);
        if 0 < i < tiles.len() && tiles[i].id == id && (forall|k: int|
            0 <= k < i ==> (#[trigger] tiles[k]).id != id) {
            assert(tiles[0].id != id);
            assert(rest[i - 1] == tiles[i]);
            assert forall|k: int| 0 <= k < i - 1 implies (#[trigger] rest[k]).id != id by {
                assert(tiles[k + 1].id != id);
            }
        }
        if forall|k: int| 0 <= k < tiles.len() ==> (#[trigger] tiles[k]).id != id {
            assert(tiles[0].id != id);
            assert forall|k: int| 0 <= k < rest.len() implies (#[trigger] rest[k]).id != id by {
                assert(tiles[k + 1].id != id);
            }
        }
    }
}

proof fn lemma_found_from_the_back(tiles: Seq<TileDefView>, id: TileId, i: int)
    ensures
        0 <= i < tiles.len() && tiles[i].id == id && (forall|k: int|
            0 <= k < i ==> (#[trigger] tiles[k]).id != id) ==> first_with_id(tiles, id) == Some(i),
        (forall|k: int| 0 <= k < tiles.len() ==> (#[trigger] tiles[k]).id != id) ==> first_with_id(
            tiles,
            id,
        ) is None,
    decreases tiles.len(),
{
    if tiles.len() > 0 {
        let front = tiles.drop_last();
        lemma_found_from_the_back(front, id, i);
        assert forall|k: int| 0 <= k < front.len() implies front[k] == tiles[k] by {}
        if 0 <= i < tiles.len() && tiles[i].id == id && (forall|k: int|
            0 <= k < i ==> (#[trigger] tiles[k]).id != id) {
            if i == tiles.len() - 1 {
                assert forall|k: int| 0 <= k < front.len() implies (#[trigger] front[k]).id != id by {
                    assert(front[k] == tiles[k]);
                }
            }
        }
        if forall|k: int| 0 <= k < tiles.len() ==> (#[trigger] tiles[k]).id != id {
            assert forall|k: int| 0 <= k < front.len() implies (#[trigger] front[k]).id != id by {
                assert(front[k] == tiles[k]);
            }
            assert(tiles[tiles.len() - 1].id != id);
        }
    }
}

/// The tile under a cell is the first that covers it.
pub proof fn the_first_tile_over_a_cell_has_it(
    tiles: Seq<TileDefView>,
    x: u16,
    y: u16,
    i: int,
)
    ensures
        ({
            let covers = |r: Rect|
                r.x <= x && x < r.x + r.width && r.y <= y && y < r.y + r.height;
            &&& 0 <= i < tiles.len() && covers(tiles[i].rect) && (forall|k: int|
                0 <= k < i ==> !covers((#[trigger] tiles[k]).rect)) ==> first_covering(
                tiles,
                x,
                y,
            ) == Some(tiles[i].id)
            &&& (forall|k: int| 0 <= k < tiles.len() ==> !covers((#[trigger] tiles[k]).rect))
                ==> first_covering(tiles, x, y) is None
        }),
    decreases tiles.len(),
{
    let covers = |r: Rect| r.x <= x && x < r.x + r.width && r.y <= y && y < r.y + r.height;
    if tiles.len() > 0 {
        let rest = tiles.drop_first();
        the_first_tile_over_a_cell_has_it(rest, x, y, i - 1);
        if 0 < i < tiles.len() && covers(tiles[i].rect) && (forall|k: int|
            0 <= k < i ==> !covers((#[trigger] tiles[k]).rect)) {
            assert(!covers(tiles[0].rect));
            assert(rest[i - 1] == tiles[i]);
            assert forall|k: int| 0 <= k < i - 1 implies !covers((#[trigger] rest[k]).rect) by {
                assert(!covers(tiles[k + 1].rect));
            }
        }
        if forall|k: int| 0 <= k < tiles.len() ==> !covers((#[trigger] tiles[k]).rect) {
            assert(!covers(tiles[0].rect));
            assert forall|k: int| 0 <= k < rest.len() implies !covers((#[trigger] rest[k]).rect) by {
                assert(!covers(tiles[k + 1].rect));
            }
        }
    }
}

/// A move of the focus to the right, in any layout: it ends on a tile that
/// begins where its own ends or further right; none of those begins nearer;
/// and of those as near none is better aligned.
pub proof fn moves_to_the_right_go_to_the_nearest(
    layout: TileLayoutView,
    from: TileDefView,
    i: int,
    j: int,
)
    requires
        from.id != TileId::TooSmall,
        find_tile(layout.tiles, from.id) == Some(from),
        layout.is_best(from.id, from.rect, FocusDir::Right, i),
        0 <= j < layout.tiles.len(),
        layout.tiles[j].id != from.id,
        layout.tiles[j].id != TileId::TooSmall,
        layout.tiles[j].rect.x >= from.rect.x + from.rect.width,
    ensures
        ({
            let a = layout.tiles[i].rect;
            let b = layout.tiles[j].rect;
            let off_a = if a.y < from.rect.y {
                from.rect.y - a.y
            } else {
                a.y - from.rect.y
            };
            let off_b = if b.y < from.rect.y {
                from.rect.y - b.y
            } else {
                b.y - from.rect.y
            };
            &&& a.x >= from.rect.x + from.rect.width
            &&& layout.tiles[i].id != from.id
            &&& a.x <= b.x
            &&& a.x == b.x ==> off_a <= off_b
            &&& a.x == b.x && off_a == off_b ==> i <= j
        }),
{
    assert(layout.is_candidate(from.id, from.rect, FocusDir::Right, j));
}

/// A move to the left.
pub proof fn moves_to_the_left_go_to_the_nearest(
    layout: TileLayoutView,
    from: TileDefView,
    i: int,
    j: int,
)
    requires
        from.id != TileId::TooSmall,
        find_tile(layout.tiles, from.id) == Some(from),
        layout.is_best(from.id, from.rect, FocusDir::Left, i),
        0 <= j < layout.tiles.len(),
        layout.tiles[j].id != from.id,
        layout.tiles[j].id != TileId::TooSmall,
        layout.tiles[j].rect.x + layout.tiles[j].rect.width <= from.rect.x,
    ensures
        ({
            let a = layout.tiles[i].rect;
            let b = layout.tiles[j].rect;
            let off_a = if a.y < from.rect.y {
                from.rect.y - a.y
            } else {
                a.y - from.rect.y
            };
            let off_b = if b.y < from.rect.y {
                from.rect.y - b.y
            } else {
                b.y - from.rect.y
            };
            &&& a.x + a.width <= from.rect.x
            &&& layout.tiles[i].id != from.id
            &&& a.x + a.width >= b.x + b.width
            &&& a.x + a.width == b.x + b.width ==> off_a <= off_b
            &&& a.x + a.width == b.x + b.width && off_a == off_b ==> i <= j
        }),
{
    assert(layout.is_candidate(from.id, from.rect, FocusDir::Left, j));
}

/// A move down.
pub proof fn moves_down_go_to_the_nearest(
    layout: TileLayoutView,
    from: TileDefView,
    i: int,
    j: int,
)
    requires
        from.id != TileId::TooSmall,
        find_tile(layout.tiles, from.id) == Some(from),
        layout.is_best(from.id, from.rect, FocusDir::Down, i),
        0 <= j < layout.tiles.len(),
        layout.tiles[j].id != from.id,
        layout.tiles[j].id != TileId::TooSmall,
        layout.tiles[j].rect.y >= from.rect.y + from.rect.height,
    ensures
        ({
            let a = layout.tiles[i].rect;
            let b = layout.tiles[j].rect;
            let off_a = if a.x < from.rect.x {
                from.rect.x - a.x
            } else {
                a.x - from.rect.x
            };
            let off_b = if b.x < from.rect.x {
                from.rect.x - b.x
            } else {
                b.x - from.rect.x
            };
            &&& a.y >= from.rect.y + from.rect.height
            &&& layout.tiles[i].id != from.id
            &&& a.y <= b.y
            &&& a.y == b.y ==> off_a <= off_b
            &&& a.y == b.y && off_a == off_b ==> i <= j
        }),
{
    assert(layout.is_candidate(from.id, from.rect, FocusDir::Down, j));
}

/// A move up.
pub proof fn moves_up_go_to_the_nearest(
    layout: TileLayoutView,
    from: TileDefView,
    i: int,
    j: int,
)
    requires
        from.id != TileId::TooSmall,
        find_tile(layout.tiles, from.id) == Some(from),
        layout.is_best(from.id, from.rect, FocusDir::Up, i),
        0 <= j < layout.tiles.len(),
        layout.tiles[j].id != from.id,
        layout.tiles[j].id != TileId::TooSmall,
        layout.tiles[j].rect.y + layout.tiles[j].rect.height <= from.rect.y,
    ensures
        ({
            let a = layout.tiles[i].rect;
            let b = layout.tiles[j].rect;
            let off_a = if a.x < from.rect.x {
                from.rect.x - a.x
            } else {
                a.x - from.rect.x
            };
            let off_b = if b.x < from.rect.x {
                from.rect.x - b.x
            } else {
                b.x - from.rect.x
            };
            &&& a.y + a.height <= from.rect.y
            &&& layout.tiles[i].id != from.id
            &&& a.y + a.height >= b.y + b.height
            &&& a.y + a.height == b.y + b.height ==> off_a <= off_b
            &&& a.y + a.height == b.y + b.height && off_a == off_b ==> i <= j
        }),
{
    assert(layout.is_candidate(from.id, from.rect, FocusDir::Up, j));
}

/// The best tile on a side is where the focus goes; where there is no tile on
/// that side it goes nowhere.
pub proof fn the_focus_goes_to_the_best_tile(
    layout: TileLayoutView,
    from: TileDefView,
    dir: FocusDir,
    i: int,
)
    requires
        from.id != TileId::TooSmall,
        find_tile(layout.tiles, from.id) == Some(from),
    ensures
        layout.is_best(from.id, from.rect, dir, i) ==> layout.next_focus(from.id, dir) == Some(
            layout.tiles[i].id,
        ),
        (forall|k: int| !#[trigger] layout.is_candidate(from.id, from.rect, dir, k))
            ==> layout.next_focus(from.id, dir) is None,
{
    if layout.is_best(from.id, from.rect, dir, i) {
        let to = Some(layout.tiles[i].id);
        assert(layout.focus_moves(from.id, dir, to));
        lemma_focus_move_is_unique(layout, from.id, dir, to, layout.next_focus(from.id, dir));
    }
    if forall|k: int| !#[trigger] layout.is_candidate(from.id, from.rect, dir, k) {
        assert(layout.focus_moves(from.id, dir, None));
        lemma_focus_move_is_unique(layout, from.id, dir, None, layout.next_focus(from.id, dir));
    }
}

/// Going around the tiles, in any layout: to the next in the list, and from
/// the last to the first; or the other way.
pub proof fn cycles_go_around_the_list(layout: TileLayoutView, from: TileId, i: int)
    requires
        0 <= i < layout.tiles.len(),
        layout.tiles[i].id == from,
        forall|k: int| 0 <= k < i ==> (#[trigger] layout.tiles[k]).id != from,
    ensures
        ({
            let n = layout.tiles.len();
            &&& i + 1 < n ==> layout.cycle_focus(from, true) == Some(layout.tiles[i + 1].id)
            &&& i + 1 == n ==> layout.cycle_focus(from, true) == Some(layout.tiles[0].id)
            &&& i > 0 ==> layout.cycle_focus(from, false) == Some(layout.tiles[i - 1].id)
            &&& i == 0 ==> layout.cycle_focus(from, false) == Some(layout.tiles[n - 1].id)
        }),
{
    tiles_are_found_by_their_id(layout.tiles, from, i);
}

} // verus!
