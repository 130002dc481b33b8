//! The whole screen: every tile in its place, and the toasts on top.

use vstd::prelude::*;

use crate::app::{toast_views, App, Toast};
use crate::geometry::Rect;
use crate::model::AppModel;
use crate::scene::docker::{docker_extents, docker_scene};
use crate::scene::fleet::{fleet_scene, has_filter_bar};
use crate::scene::overlay::{
    placeholder_scene, render_placeholder, render_toasts, render_too_small, toast_scene,
    too_small_scene,
};
use crate::scene::ports::{ports_extents, ports_scene};
use crate::scene::pty::{render_single_pane, single_pane_scene};
use crate::scene::{
    asked, cut_with_room_is_unique, cuts_rows, draw_views, group_scene, one_grows, spec_inner,
    spec_list_extents, Draw, DrawView, Extent,
};
use crate::tile::{ScopeKind, TileDef, TileDefView, TileId, TileKind, TileKindView};

verus! {

broadcast use group_scene;

/// A tile is lit while the pointer is over it, unless it is focused anyway.
pub open spec fn lit(m: AppModel, id: TileId) -> bool {
    id != m.focused && m.hovered == Some(id)
}

/// The rows that a tile's inside is cut into.
pub open spec fn tile_extents(m: AppModel, kind: TileKindView) -> Seq<Extent> {
    match kind {
        TileKindView::Scope(ScopeKind::Docker) => docker_extents(m.docker),
        TileKindView::Scope(ScopeKind::Ports) => ports_extents(m.ports),
        TileKindView::Scope(ScopeKind::Fleet) => spec_list_extents(has_filter_bar(m.fleet)),
        _ => Seq::empty(),
    }
}

/// A tile, with its inside cut into the rows `chunks`.
pub open spec fn tile_scene(m: AppModel, tile: TileDefView, chunks: Seq<Rect>) -> Seq<DrawView> {
    let focused = tile.id == m.focused;
    match tile.kind {
        TileKindView::Pty => single_pane_scene(m.pty, tile.rect, focused),
        TileKindView::Scope(ScopeKind::Docker) => docker_scene(
            m.docker,
            tile.rect,
            focused,
            lit(m, tile.id),
            chunks,
        ),
        TileKindView::Scope(ScopeKind::Ports) => ports_scene(
            m.ports,
            tile.rect,
            focused,
            lit(m, tile.id),
            chunks,
        ),
        TileKindView::Scope(ScopeKind::Fleet) => fleet_scene(m.fleet, tile.rect, focused, chunks),
        TileKindView::Placeholder { label, eta_phase } => placeholder_scene(
            label,
            eta_phase,
            tile.rect,
            focused,
        ),
        TileKindView::TooSmall => too_small_scene(tile.rect),
    }
}

/// `draws` shows a tile.
pub open spec fn shows_tile(m: AppModel, tile: TileDefView, draws: Seq<DrawView>) -> bool {
    exists|chunks: Seq<Rect>| #[trigger]
        cuts_rows(spec_inner(tile.rect), tile_extents(m, tile.kind), chunks) && draws == tile_scene(
            m,
            tile,
            chunks,
        )
}

/// The pieces one after another.
pub open spec fn in_order(parts: Seq<Seq<DrawView>>) -> Seq<DrawView>
    decreases parts.len(),
{
    if parts.len() == 0 {
        Seq::empty()
    } else {
        in_order(parts.drop_last()) + parts.last()
    }
}

/// `parts` shows the tiles one by one.
pub open spec fn shows_tiles(
    m: AppModel,
    tiles: Seq<TileDefView>,
    parts: Seq<Seq<DrawView>>,
) -> bool {
    parts.len() == tiles.len() && forall|i: int|
        0 <= i < tiles.len() ==> shows_tile(m, tiles[i], #[trigger] parts[i])
}

/// A tile with at least four rows inside is shown in exactly one way.
pub proof fn a_tall_tile_is_shown_in_one_way(
    m: AppModel,
    tile: TileDefView,
    a: Seq<DrawView>,
    b: Seq<DrawView>,
)
    requires
        shows_tile(m, tile, a),
        shows_tile(m, tile, b),
        spec_inner(tile.rect).height >= 4,
    ensures
        a == b,
{
    let inside = spec_inner(tile.rect);
    let extents = tile_extents(m, tile.kind);
    let p = choose|c: Seq<Rect>| #[trigger]
        cuts_rows(inside, extents, c) && a == tile_scene(m, tile, c);
    let q = choose|c: Seq<Rect>| #[trigger]
        cuts_rows(inside, extents, c) && b == tile_scene(m, tile, c);
    if tile.kind is Scope {
        lemma_list_rows_fit(false);
        lemma_list_rows_fit(true);
        cut_with_room_is_unique(inside, extents, p, q);
    }
}

proof fn lemma_list_rows_fit(filter_bar: bool)
    ensures
        one_grows(spec_list_extents(filter_bar)),
        asked(spec_list_extents(filter_bar)) <= 4,
{
    let extents = spec_list_extents(filter_bar);
    reveal_with_fuel(asked, 5);
    let k: int = if filter_bar {
        2
    } else {
        1
    };
    assert(extents[k] is Min);
}

/// The terminal is too small for the god view.
pub open spec fn is_fallback(m: AppModel) -> bool {
    m.layout.tiles.len() == 1 && m.layout.tiles[0].id == TileId::TooSmall
}

/// `draws` shows the application: its tiles in the order of the layout, and
/// the toasts on top of them.
pub open spec fn shows_app(m: AppModel, draws: Seq<DrawView>) -> bool {
    if is_fallback(m) {
        draws == too_small_scene(m.layout.tiles[0].rect)
    } else {
        exists|parts: Seq<Seq<DrawView>>| #[trigger]
            shows_tiles(m, m.layout.tiles, parts) && draws == in_order(parts) + toast_scene(
                m.toasts,
                m.layout,
            )
    }
}

fn render_tile(app: &App, tile: &TileDef) -> (draws: Vec<Draw>)
    requires
        app.wf(),
        tile.rect.edges_fit(),
    ensures
        shows_tile(app@, tile@, draw_views(draws@)),
{
    let focused: bool = tile.id == app.view.focused;
    let hovered: bool = !focused && match app.view.hovered {
        Some(id) => id == tile.id,
        None => false,
    };
    let ghost inside = spec_inner(tile.rect);
    let ghost extents = tile_extents(app@, tile@.kind);
    let ghost mut chunks: Seq<Rect> = Seq::empty();
    let draws = match &tile.kind {
        TileKind::Pty => render_single_pane(&app.pty_parser, tile.rect, focused),
        TileKind::Scope(ScopeKind::Docker) => {
            let draws = crate::scene::docker::render(&app.docker, tile.rect, focused, hovered);
            proof {
                chunks =
                choose|c: Seq<Rect>| #[trigger]
                    cuts_rows(inside, docker_extents(app@.docker), c) && draw_views(draws@)
                        == docker_scene(app@.docker, tile.rect, focused, hovered, c);
            }
            draws
        },
        TileKind::Scope(ScopeKind::Ports) => {
            let draws = crate::scene::ports::render(&app.ports, tile.rect, focused, hovered);
            proof {
                chunks =
                choose|c: Seq<Rect>| #[trigger]
                    cuts_rows(inside, ports_extents(app@.ports), c) && draw_views(draws@)
                        == ports_scene(app@.ports, tile.rect, focused, hovered, c);
            }
            draws
        },
        TileKind::Scope(ScopeKind::Fleet) => {
            let draws = crate::scene::fleet::render(&app.fleet, tile.rect, focused);
            proof {
                chunks =
                choose|c: Seq<Rect>| #[trigger]
                    cuts_rows(inside, spec_list_extents(has_filter_bar(app@.fleet)), c)
                        && draw_views(draws@) == fleet_scene(app@.fleet, tile.rect, focused, c);
            }
            draws
        },
        TileKind::Placeholder { label, eta_phase } => render_placeholder(
            label.as_str(),
            *eta_phase,
            tile.rect,
            focused,
        ),
        TileKind::TooSmall => render_too_small(tile.rect),
    };
    proof {
        assert(hovered == lit(app@, tile@.id));
        assert(cuts_rows(inside, extents, chunks));
        assert(draw_views(draws@) == tile_scene(app@, tile@, chunks));
    }
    draws
}

fn toast_list(app: &App) -> (toasts: Vec<Toast>)
    ensures
        toast_views(toasts@) == app@.toasts,
{
    let mut toasts: Vec<Toast> = Vec::new();
    let n: usize = app.toasts.len();
    let mut i: usize = 0;
    assert(toast_views(app.toasts@).len() == app.toasts@.len());
    while i < n
        invariant
            n == app.toasts@.len(),
            0 <= i <= n,
            toast_views(toasts@) == toast_views(app.toasts@).take(i as int),
        decreases n - i,
    {
        let t = &app.toasts[i];
        let copy = Toast { kind: t.kind, message: t.message.clone(), expires_at: t.expires_at };
        let ghost before = toast_views(toasts@);
        toasts.push(copy);
        proof {
            assert(copy@ == app.toasts@[i as int]@);
            assert(toast_views(toasts@) =~= before.push(copy@));
            assert(toast_views(app.toasts@).take(i + 1) =~= before.push(copy@));
        }
        i += 1;
    }
    assert(toast_views(app.toasts@).take(n as int) =~= toast_views(app.toasts@));
    toasts
}

/// Draws the application.
pub fn render_tiles(app: &App) -> (draws: Vec<Draw>)
    requires
        app.wf(),
    ensures
        shows_app(app@, draw_views(draws@)),
{
    let tiles = &app.view.layout.tiles;
    let n: usize = tiles.len();
    proof {
        assert(app@.layout.tiles.len() == n);
        assert forall|i: int| 0 <= i < n implies app@.layout.tiles[i] == #[trigger] tiles@[i]@ by {}
    }
    if n == 1 && tiles[0].id == TileId::TooSmall {
        assert(app@.layout.tiles[0].rect.edges_fit());
        return render_too_small(tiles[0].rect);
    }
    let mut draws: Vec<Draw> = Vec::new();
    let ghost mut parts: Seq<Seq<DrawView>> = Seq::empty();
    let mut i: usize = 0;
    while i < n
        invariant
            app.wf(),
            tiles == app.view.layout.tiles,
            n == tiles@.len(),
            n == app@.layout.tiles.len(),
            forall|i: int| 0 <= i < n ==> app@.layout.tiles[i] == #[trigger] tiles@[i]@,
            0 <= i <= n,
            parts.len() == i,
            forall|j: int|
                0 <= j < i ==> shows_tile(app@, app@.layout.tiles[j], #[trigger] parts[j]),
            draw_views(draws@) == in_order(parts),
        decreases n - i,
    {
        proof {
            assert(tiles@[i as int]@ == app@.layout.tiles[i as int]);
            assert(app@.layout.tiles[i as int].rect.edges_fit());
        }
        let mut part = render_tile(app, &tiles[i]);
        let ghost shown = draw_views(part@);
        draws.append(&mut part);
        proof {
            assert(parts.push(shown).drop_last() =~= parts);
            parts = parts.push(shown);
            assert(draw_views(draws@) =~= in_order(parts));
        }
        i += 1;
    }
    let mut strip = render_toasts(toast_list(app).as_slice(), &app.view.layout);
    draws.append(&mut strip);
    proof {
        assert(shows_tiles(app@, app@.layout.tiles, parts));
        assert(draw_views(draws@) =~= in_order(parts) + toast_scene(app@.toasts, app@.layout));
    }
    draws
}

} // verus!
