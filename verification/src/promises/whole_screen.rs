//! The whole screen.

use vstd::prelude::*;

use crate::geometry::Rect;
use crate::model::AppModel;
use crate::scene::{asked, cuts_rows, one_grows, spec_inner, DrawView, Extent};
use crate::scene::docker::{docker_extents, docker_scene};
use crate::scene::fleet::fleet_scene;
use crate::scene::overlay::{placeholder_scene, toast_scene, too_small_scene};
use crate::scene::ports::{ports_extents, ports_scene};
use crate::scene::pty::single_pane_scene;
use crate::scene::screen::{in_order, shows_app, shows_tile, shows_tiles, tile_extents, tile_scene};
use crate::tile::{default_layout, TileId};

verus! {

/// The screen of the god view: the five tiles in order, each in its place,
/// then the toasts.
pub proof fn the_screen_shows_the_tiles_in_order(
    m: AppModel,
    area: Rect,
    draws: Seq<DrawView>,
)
    requires
        area.width >= 80,
        area.height >= 24,
        m.layout == default_layout(area),
        shows_app(m, draws),
    ensures
        exists|a: Seq<DrawView>,
            b: Seq<DrawView>,
            c: Seq<DrawView>,
            d: Seq<DrawView>,
            e: Seq<DrawView>|
         {
            &&& #[trigger] shows_tile(m, m.layout.tiles[0], a)
            &&& #[trigger] shows_tile(m, m.layout.tiles[1], b)
            &&& #[trigger] shows_tile(m, m.layout.tiles[2], c)
            &&& #[trigger] shows_tile(m, m.layout.tiles[3], d)
            &&& #[trigger] shows_tile(m, m.layout.tiles[4], e)
            &&& draws == a + b + c + d + e + toast_scene(m.toasts, m.layout)
        },
{
    let tiles = m.layout.tiles;
    assert(tiles.len() == 5);
    let parts = choose|parts: Seq<Seq<DrawView>>| #[trigger]
        shows_tiles(m, tiles, parts) && draws == in_order(parts) + toast_scene(
            m.toasts,
            m.layout,
        );
    reveal_with_fuel(in_order, 6);
    let four = parts.drop_last();
    let three = four.drop_last();
    let two = three.drop_last();
    let one = two.drop_last();
    assert(one.drop_last() =~= Seq::empty());
    assert(shows_tile(m, tiles[0], parts[0]));
    assert(shows_tile(m, tiles[1], parts[1]));
    assert(shows_tile(m, tiles[2], parts[2]));
    assert(shows_tile(m, tiles[3], parts[3]));
    assert(shows_tile(m, tiles[4], parts[4]));
    assert(in_order(parts) =~= parts[0] + parts[1] + parts[2] + parts[3] + parts[4]);
}

/// What each tile of the god view shows: the pty, the containers, the ports,
/// the hosts and the assistant's placeholder, each of them bright where it has
/// the focus.
pub proof fn each_tile_shows_its_own(m: AppModel, area: Rect, draws: Seq<DrawView>)
    requires
        area.width >= 80,
        area.height >= 24,
        m.layout == default_layout(area),
    ensures
        ({
            let tiles = m.layout.tiles;
            &&& shows_tile(m, tiles[0], draws) ==> draws == single_pane_scene(
                m.pty,
                tiles[0].rect,
                m.focused == TileId::Pty,
            )
            &&& shows_tile(m, tiles[1], draws) ==> exists|chunks: Seq<Rect>| #[trigger]
                draws_docker(m, tiles[1].rect, chunks, draws)
            &&& shows_tile(m, tiles[2], draws) ==> exists|chunks: Seq<Rect>| #[trigger]
                draws_ports(m, tiles[2].rect, chunks, draws)
            &&& shows_tile(m, tiles[3], draws) ==> exists|chunks: Seq<Rect>| #[trigger]
                draws_fleet(m, tiles[3].rect, chunks, draws)
            &&& shows_tile(m, tiles[4], draws) ==> draws == placeholder_scene(
                "ClaudeCode — Phase 9"@,
                9,
                tiles[4].rect,
                m.focused == TileId::ClaudeCode,
            )
        }),
{
    let tiles = m.layout.tiles;
    assert(tiles.len() == 5);
    if shows_tile(m, tiles[1], draws) {
        let chunks = choose|chunks: Seq<Rect>| #[trigger]
            cuts_rows(
                spec_inner(tiles[1].rect),
                tile_extents(m, tiles[1].kind),
                chunks,
            ) && draws == tile_scene(m, tiles[1], chunks);
        assert(draws_docker(m, tiles[1].rect, chunks, draws));
    }
    if shows_tile(m, tiles[2], draws) {
        let chunks = choose|chunks: Seq<Rect>| #[trigger]
            cuts_rows(
                spec_inner(tiles[2].rect),
                tile_extents(m, tiles[2].kind),
                chunks,
            ) && draws == tile_scene(m, tiles[2], chunks);
        assert(draws_ports(m, tiles[2].rect, chunks, draws));
    }
    if shows_tile(m, tiles[3], draws) {
        let chunks = choose|chunks: Seq<Rect>| #[trigger]
            cuts_rows(
                spec_inner(tiles[3].rect),
                tile_extents(m, tiles[3].kind),
                chunks,
            ) && draws == tile_scene(m, tiles[3], chunks);
        assert(draws_fleet(m, tiles[3].rect, chunks, draws));
    }
}

/// The containers are drawn inside a border around `rect`, in rows `chunks`.
pub open spec fn draws_docker(
    m: AppModel,
    rect: Rect,
    chunks: Seq<Rect>,
    draws: Seq<DrawView>,
) -> bool {
    &&& cuts_rows(spec_inner(rect), docker_extents(m.docker), chunks)
    &&& draws == docker_scene(
        m.docker,
        rect,
        m.focused == TileId::Docker,
        m.focused != TileId::Docker && m.hovered == Some(TileId::Docker),
        chunks,
    )
}

/// The ports or processes are drawn inside a border around `rect`.
pub open spec fn draws_ports(
    m: AppModel,
    rect: Rect,
    chunks: Seq<Rect>,
    draws: Seq<DrawView>,
) -> bool {
    &&& cuts_rows(spec_inner(rect), ports_extents(m.ports), chunks)
    &&& draws == ports_scene(
        m.ports,
        rect,
        m.focused == TileId::Ports,
        m.focused != TileId::Ports && m.hovered == Some(TileId::Ports),
        chunks,
    )
}

/// The hosts are drawn inside a border around `rect`, with a row for the
/// filter where there is one.
pub open spec fn draws_fleet(
    m: AppModel,
    rect: Rect,
    chunks: Seq<Rect>,
    draws: Seq<DrawView>,
) -> bool {
    &&& cuts_rows(
        spec_inner(rect),
        if m.fleet.cursor.filter_active || m.fleet.cursor.filter.len() > 0 {
            seq![Extent::Length(1), Extent::Length(1), Extent::Min(1), Extent::Length(1)]
        } else {
            seq![Extent::Length(1), Extent::Min(1), Extent::Length(1)]
        },
        chunks,
    )
    &&& draws == fleet_scene(m.fleet, rect, m.focused == TileId::Fleet, chunks)
}

/// On a terminal that is too small there is the notice and nothing else.
pub proof fn a_small_terminal_shows_the_notice(m: AppModel, area: Rect, draws: Seq<DrawView>)
    requires
        area.width < 80 || area.height < 24,
        m.layout == default_layout(area),
        shows_app(m, draws),
    ensures
        draws == too_small_scene(area),
{
}

/// What a border leaves of an area: one cell less on each side.
pub proof fn a_border_takes_one_cell_on_each_side(area: Rect)
    requires
        area.width >= 2,
        area.height >= 2,
        area.x + area.width <= 65_535,
        area.y + area.height <= 65_535,
    ensures
        spec_inner(area).x == area.x + 1,
        spec_inner(area).y == area.y + 1,
        spec_inner(area).width == area.width - 2,
        spec_inner(area).height == area.height - 2,
{
}

/// The bars of a list in numbers: the status bar is the first row, the filter
/// bar if there is one the second, the help bar the last, and the body what is
/// between them.
pub proof fn bars_take_one_row_each(area: Rect, filter_bar: bool, chunks: Seq<Rect>)
    requires
        area.height >= 4,
        cuts_rows(
            area,
            if filter_bar {
                seq![Extent::Length(1), Extent::Length(1), Extent::Min(1), Extent::Length(1)]
            } else {
                seq![Extent::Length(1), Extent::Min(1), Extent::Length(1)]
            },
            chunks,
        ),
    ensures
        ({
            let n = if filter_bar {
                4int
            } else {
                3int
            };
            &&& chunks.len() == n
            &&& chunks[0].y == area.y && chunks[0].height == 1
            &&& filter_bar ==> chunks[1].y == area.y + 1 && chunks[1].height == 1
            &&& chunks[n - 2].y == area.y + n - 2
            &&& chunks[n - 2].height == area.height - (n - 1)
            &&& chunks[n - 1].y == area.y + area.height - 1 && chunks[n - 1].height == 1
            &&& forall|i: int|
                0 <= i < n ==> (#[trigger] chunks[i]).x == area.x && chunks[i].width == area.width
        }),
{
    let extents = if filter_bar {
        seq![Extent::Length(1), Extent::Length(1), Extent::Min(1), Extent::Length(1)]
    } else {
        seq![Extent::Length(1), Extent::Min(1), Extent::Length(1)]
    };
    let grows: int = if filter_bar {
        2
    } else {
        1
    };
    assert(extents[grows] is Min);
    assert(one_grows(extents));
    reveal_with_fuel(asked, 5);
    assert(asked(extents) <= 4) by {
        let a = extents.drop_last();
        let b = a.drop_last();
        let c = b.drop_last();
        assert(a.last() == extents[extents.len() - 2]);
        assert(b.last() == extents[extents.len() - 3]);
        if filter_bar {
            assert(c.last() == extents[0]);
            assert(c.drop_last().len() == 0);
        } else {
            assert(c.len() == 0);
        }
    }
    assert(extents[0] is Length);
    assert(chunks[0].height == 1);
    assert(chunks[1].y == chunks[0].bottom_edge());
    if filter_bar {
        assert(extents[1] is Length);
        assert(extents[3] is Length);
        assert(chunks[2].y == chunks[1].bottom_edge());
        assert(chunks[3].y == chunks[2].bottom_edge());
    } else {
        assert(extents[2] is Length);
        assert(chunks[2].y == chunks[1].bottom_edge());
    }
}

} // verus!
