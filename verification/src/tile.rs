//! Tile layout and focus navigation for the god view.
//!
//! ```text
//! ┌──────────────────── PTY ────────────────────────────┐
//! ├─ Docker ────────┬─ Ports ────────┬─ Fleet ──────────┤
//! ├────────────── ClaudeCode ───────────────────────────┤
//! └─────────────────────────────────────────────────────┘
//! ```
//!
//! Below [`MIN_COLS`] × [`MIN_ROWS`] the view is unreadable, and a single
//! [`TileId::TooSmall`] tile takes the whole screen.

use vstd::prelude::*;

use crate::geometry::{FocusDir, Rect};

verus! {

/// Smallest terminal width that carries the god view.
pub const MIN_COLS: u16 = 80;

/// Smallest terminal height that carries the god view.
pub const MIN_ROWS: u16 = 24;

/// Rows of the assistant strip: border, content, border.
pub const CLAUDE_ROWS: u16 = 3;

/// Rows the pty keeps on a tight terminal.
pub const MIN_PTY_ROWS: u16 = 6;

/// Stable identifier of a tile.
#[derive(Debug, Clone, Copy, PartialEq, Eq, Hash, Structural)]
pub enum TileId {
    Pty,
    Docker,
    Ports,
    Fleet,
    ClaudeCode,
    /// The only tile of a terminal too small for the god view.
    TooSmall,
}

/// Which scope panel a tile hosts.
#[derive(Debug, Clone, Copy, PartialEq, Eq, Structural)]
pub enum ScopeKind {
    Docker,
    Ports,
    Fleet,
}

/// Content of a tile. It decides rendering and input routing.
#[derive(Debug, Clone)]
pub enum TileKind {
    Pty,
    Scope(ScopeKind),
    /// A scope that is not there yet. Input is dropped when focused.
    Placeholder { label: String, eta_phase: u8 },
    /// "Terminal too small" notice.
    TooSmall,
}

/// [`TileKind`] with its label as a sequence of characters.
pub ghost enum TileKindView {
    Pty,
    Scope(ScopeKind),
    Placeholder { label: Seq<char>, eta_phase: u8 },
    TooSmall,
}

impl View for TileKind {
    type V = TileKindView;

    open spec fn view(&self) -> TileKindView {
        match self {
            TileKind::Pty => TileKindView::Pty,
            TileKind::Scope(kind) => TileKindView::Scope(*kind),
            TileKind::Placeholder { label, eta_phase } => TileKindView::Placeholder {
                label: label@,
                eta_phase: *eta_phase,
            },
            TileKind::TooSmall => TileKindView::TooSmall,
        }
    }
}

/// One tile: its id, its content and its place on the screen.
#[derive(Debug, Clone)]
pub struct TileDef {
    pub id: TileId,
    pub kind: TileKind,
    pub rect: Rect,
}

/// [`TileDef`] with its kind viewed.
pub ghost struct TileDefView {
    pub id: TileId,
    pub kind: TileKindView,
    pub rect: Rect,
}

impl View for TileDef {
    type V = TileDefView;

    open spec fn view(&self) -> TileDefView {
        TileDefView { id: self.id, kind: self.kind@, rect: self.rect }
    }
}

/// The tiles of a screen, and which of them a fresh view focuses.
#[derive(Debug, Clone)]
pub struct TileLayout {
    pub tiles: Vec<TileDef>,
    pub default_focus: TileId,
}

/// [`TileLayout`] with its tiles viewed.
#[verifier::ext_equal]
pub ghost struct TileLayoutView {
    pub tiles: Seq<TileDefView>,
    pub default_focus: TileId,
}

impl View for TileLayout {
    type V = TileLayoutView;

    open spec fn view(&self) -> TileLayoutView {
        TileLayoutView {
            tiles: self.tiles@.map_values(|t: TileDef| t@),
            default_focus: self.default_focus,
        }
    }
}

/// The god view does not fit into `area`.
pub open spec fn too_small(area: Rect) -> bool {
    area.width < MIN_COLS || area.height < MIN_ROWS
}

/// Rows of the pty tile in a screen of `height` rows: three fifths of what
/// the assistant strip leaves, but never fewer than [`MIN_PTY_ROWS`].
pub open spec fn pty_rows(height: int) -> int {
    let share = (height - CLAUDE_ROWS) * 3 / 5;
    if share < MIN_PTY_ROWS {
        MIN_PTY_ROWS as int
    } else {
        share
    }
}

/// Rows of the scope tiles: what the pty and the strip leave.
pub open spec fn scope_rows(height: int) -> int {
    height - CLAUDE_ROWS - pty_rows(height)
}

/// The sizes and corners of the five tiles can be computed in `u16`.
pub open spec fn layout_fits(area: Rect) -> bool {
    too_small(area) || {
        &&& (area.height - CLAUDE_ROWS) * 3 <= u16::MAX
        &&& area.x + 2 * (area.width / 3) <= u16::MAX
        &&& area.y + area.height - CLAUDE_ROWS <= u16::MAX
    }
}

/// Label of the assistant strip.
pub open spec fn claude_label() -> Seq<char> {
    "ClaudeCode — Phase 9"@
}

/// The layout for a terminal that occupies `area`: three equal scope columns
/// between the pty and the assistant strip, with Fleet taking what the
/// division by three leaves.
pub open spec fn default_layout(area: Rect) -> TileLayoutView {
    if too_small(area) {
        TileLayoutView {
            tiles: seq![
                TileDefView { id: TileId::TooSmall, kind: TileKindView::TooSmall, rect: area },
            ],
            default_focus: TileId::TooSmall,
        }
    } else {
        let x = area.x;
        let y = area.y;
        let col = area.width / 3;
        let top = pty_rows(area.height as int);
        let mid = scope_rows(area.height as int);
        TileLayoutView {
            tiles: seq![
                TileDefView {
                    id: TileId::Pty,
                    kind: TileKindView::Pty,
                    rect: Rect::spec_new(x, y, area.width, top as u16),
                },
                TileDefView {
                    id: TileId::Docker,
                    kind: TileKindView::Scope(ScopeKind::Docker),
                    rect: Rect::spec_new(x, (y + top) as u16, col, mid as u16),
                },
                TileDefView {
                    id: TileId::Ports,
                    kind: TileKindView::Scope(ScopeKind::Ports),
                    rect: Rect::spec_new((x + col) as u16, (y + top) as u16, col, mid as u16),
                },
                TileDefView {
                    id: TileId::Fleet,
                    kind: TileKindView::Scope(ScopeKind::Fleet),
                    rect: Rect::spec_new(
                        (x + 2 * col) as u16,
                        (y + top) as u16,
                        (area.width - 2 * col) as u16,
                        mid as u16,
                    ),
                },
                TileDefView {
                    id: TileId::ClaudeCode,
                    kind: TileKindView::Placeholder { label: claude_label(), eta_phase: 9 },
                    rect: Rect::spec_new(x, (y + top + mid) as u16, area.width, CLAUDE_ROWS),
                },
            ],
            default_focus: TileId::Pty,
        }
    }
}

/// The first tile with the given id.
pub open spec fn find_tile(tiles: Seq<TileDefView>, id: TileId) -> Option<TileDefView>
    decreases tiles.len(),
{
    if tiles.len() == 0 {
        None
    } else if tiles[0].id == id {
        Some(tiles[0])
    } else {
        find_tile(tiles.drop_first(), id)
    }
}

/// Where the first tile with the given id is in the list.
pub open spec fn first_with_id(tiles: Seq<TileDefView>, id: TileId) -> Option<int>
    decreases tiles.len(),
{
    if tiles.len() == 0 {
        None
    } else {
        match first_with_id(tiles.drop_last(), id) {
            Some(i) => Some(i),
            None => if tiles.last().id == id {
                Some(tiles.len() - 1)
            } else {
                None
            },
        }
    }
}

/// The first tile that covers cell `(x, y)`.
pub open spec fn first_covering(tiles: Seq<TileDefView>, x: u16, y: u16) -> Option<TileId>
    decreases tiles.len(),
{
    if tiles.len() == 0 {
        None
    } else if tiles[0].rect.covers(x as int, y as int) {
        Some(tiles[0].id)
    } else {
        first_covering(tiles.drop_first(), x, y)
    }
}

/// `rect` lies wholly to the `dir` side of `from`.
pub open spec fn lies_toward(from: Rect, rect: Rect, dir: FocusDir) -> bool {
    match dir {
        FocusDir::Up => rect.bottom_edge() <= from.y,
        FocusDir::Down => rect.y >= from.bottom_edge(),
        FocusDir::Left => rect.right_edge() <= from.x,
        FocusDir::Right => rect.x >= from.right_edge(),
    }
}

/// Cells between `from` and `rect` in direction `dir`.
pub open spec fn gap(from: Rect, rect: Rect, dir: FocusDir) -> int {
    match dir {
        FocusDir::Up => from.y - rect.bottom_edge(),
        FocusDir::Down => rect.y - from.bottom_edge(),
        FocusDir::Left => from.x - rect.right_edge(),
        FocusDir::Right => rect.x - from.right_edge(),
    }
}

/// Absolute difference.
pub open spec fn distance(a: int, b: int) -> int {
    if a < b {
        b - a
    } else {
        a - b
    }
}

/// How far the corners of `from` and `rect` are apart across `dir`.
pub open spec fn misalignment(from: Rect, rect: Rect, dir: FocusDir) -> int {
    match dir {
        FocusDir::Up | FocusDir::Down => distance(rect.x as int, from.x as int),
        FocusDir::Left | FocusDir::Right => distance(rect.y as int, from.y as int),
    }
}

/// `a` is a strictly better focus target than `b`: nearer, or as near and
/// better aligned.
pub open spec fn closer(from: Rect, a: Rect, b: Rect, dir: FocusDir) -> bool {
    ||| gap(from, a, dir) < gap(from, b, dir)
    ||| gap(from, a, dir) == gap(from, b, dir) && misalignment(from, a, dir) < misalignment(
        from,
        b,
        dir,
    )
}

impl TileLayoutView {
    /// Focus may move from tile `from`, which occupies `from_rect`, to tile
    /// number `i`.
    pub open spec fn is_candidate(self, from: TileId, from_rect: Rect, dir: FocusDir, i: int) -> bool {
        &&& 0 <= i < self.tiles.len()
        &&& self.tiles[i].id != from
        &&& self.tiles[i].id != TileId::TooSmall
        &&& lies_toward(from_rect, self.tiles[i].rect, dir)
    }

    /// Tile number `i` is the best candidate, the first among equals.
    pub open spec fn is_best(self, from: TileId, from_rect: Rect, dir: FocusDir, i: int) -> bool {
        &&& self.is_candidate(from, from_rect, dir, i)
        &&& forall|j: int| #[trigger]
            self.is_candidate(from, from_rect, dir, j) ==> {
                &&& !closer(from_rect, self.tiles[j].rect, self.tiles[i].rect, dir)
                &&& j < i ==> closer(from_rect, self.tiles[i].rect, self.tiles[j].rect, dir)
            }
    }

    /// Moving focus from `from` in direction `dir` ends at `to`: at the best
    /// candidate, or nowhere when there is none, when `from` is not shown or
    /// when it is the too-small notice.
    pub open spec fn focus_moves(self, from: TileId, dir: FocusDir, to: Option<TileId>) -> bool {
        let start = find_tile(self.tiles, from);
        if from == TileId::TooSmall || start is None {
            to is None
        } else {
            let rect = start->0.rect;
            match to {
                Some(id) => exists|i: int| #[trigger]
                    self.is_best(from, rect, dir, i) && self.tiles[i].id == id,
                None => forall|i: int| !#[trigger] self.is_candidate(from, rect, dir, i),
            }
        }
    }

    /// Where moving focus from `from` in direction `dir` ends.
    pub open spec fn next_focus(self, from: TileId, dir: FocusDir) -> Option<TileId> {
        choose|to: Option<TileId>| self.focus_moves(from, dir, to)
    }

    /// The tile after `from`, or before it, around the ends of the list.
    pub open spec fn cycle_focus(self, from: TileId, forward: bool) -> Option<TileId> {
        match first_with_id(self.tiles, from) {
            Some(i) => {
                let n = self.tiles.len();
                let j = if forward {
                    if i + 1 == n { 0 } else { i + 1 }
                } else {
                    if i == 0 { n - 1 } else { i - 1 }
                };
                Some(self.tiles[j].id)
            },
            None => None,
        }
    }

    /// The first tile that covers cell `(x, y)`.
    pub open spec fn tile_at(self, x: u16, y: u16) -> Option<TileId> {
        first_covering(self.tiles, x, y)
    }

    /// Every tile's far edges are cell coordinates.
    pub open spec fn edges_fit(self) -> bool {
        forall|i: int| 0 <= i < self.tiles.len() ==> (#[trigger] self.tiles[i]).rect.edges_fit()
    }
}

/// How a tile takes input.
pub open spec fn scope_of(kind: TileKindView) -> Option<ScopeKind> {
    match kind {
        TileKindView::Scope(scope) => Some(scope),
        _ => None,
    }
}

fn larger_u16(a: u16, b: u16) -> (r: u16)
    ensures
        r == if a < b { b } else { a },
{
    if a < b {
        b
    } else {
        a
    }
}

fn abs_diff(a: u16, b: u16) -> (r: u16)
    ensures
        r == distance(a as int, b as int),
{
    if a < b {
        b - a
    } else {
        a - b
    }
}

impl TileLayout {
    /// God-view layout for a terminal that occupies `area`, or the single
    /// fallback tile when it is too small. `area` must leave room for the
    /// arithmetic, which every real terminal does.
    pub fn default_for(area: Rect) -> (layout: TileLayout)
        requires
            layout_fits(area),
        ensures
            layout@ == default_layout(area),
    {
        if area.width < MIN_COLS || area.height < MIN_ROWS {
            return TileLayout::tiny_fallback(area);
        }
        let remaining: u16 = area.height - CLAUDE_ROWS;
        let pty: u16 = larger_u16(remaining * 3 / 5, MIN_PTY_ROWS);
        let scope: u16 = remaining - pty;
        let col: u16 = area.width / 3;
        let pty_rect = Rect::new(area.x, area.y, area.width, pty);
        let docker_rect = Rect::new(area.x, area.y + pty, col, scope);
        let ports_rect = Rect::new(area.x + col, area.y + pty, col, scope);
        let fleet_rect = Rect::new(
            area.x + col + col,
            area.y + pty,
            area.width - 2 * col,
            scope,
        );
        let cc_rect = Rect::new(area.x, area.y + pty + scope, area.width, CLAUDE_ROWS);
        let tiles: Vec<TileDef> = vec![
            TileDef { id: TileId::Pty, kind: TileKind::Pty, rect: pty_rect },
            TileDef {
                id: TileId::Docker,
                kind: TileKind::Scope(ScopeKind::Docker),
                rect: docker_rect,
            },
            TileDef { id: TileId::Ports, kind: TileKind::Scope(ScopeKind::Ports), rect: ports_rect },
            TileDef { id: TileId::Fleet, kind: TileKind::Scope(ScopeKind::Fleet), rect: fleet_rect },
            TileDef {
                id: TileId::ClaudeCode,
                kind: TileKind::Placeholder {
                    label: "ClaudeCode — Phase 9".to_string(),
                    eta_phase: 9,
                },
                rect: cc_rect,
            },
        ];
        let layout = TileLayout { tiles, default_focus: TileId::Pty };
        assert(layout@.tiles =~= default_layout(area).tiles);
        layout
    }

    fn tiny_fallback(area: Rect) -> (layout: TileLayout)
        requires
            too_small(area),
        ensures
            layout@ == default_layout(area),
    {
        let tiles: Vec<TileDef> = vec![
            TileDef { id: TileId::TooSmall, kind: TileKind::TooSmall, rect: area },
        ];
        let layout = TileLayout { tiles, default_focus: TileId::TooSmall };
        assert(layout@.tiles =~= default_layout(area).tiles);
        layout
    }

    /// The tile with the given id.
    pub fn tile(&self, id: TileId) -> (r: Option<&TileDef>)
        ensures
            match r {
                Some(t) => find_tile(self@.tiles, id) == Some(t@),
                None => find_tile(self@.tiles, id) is None,
            },
    {
        let mut i: usize = 0;
        let n: usize = self.tiles.len();
        proof {
            assert(self@.tiles.skip(0) =~= self@.tiles);
        }
        while i < n
            invariant
                n == self.tiles@.len(),
                0 <= i <= n,
                find_tile(self@.tiles, id) == find_tile(self@.tiles.skip(i as int), id),
            decreases n - i,
        {
            proof {
                assert(self@.tiles.skip(i as int).drop_first() =~= self@.tiles.skip(i as int + 1));
                assert(self@.tiles.skip(i as int)[0] == self.tiles@[i as int]@);
            }
            if self.tiles[i].id == id {
                return Some(&self.tiles[i]);
            }
            i += 1;
        }
        None
    }

    /// Where the tile with the given id is.
    pub fn rect_of(&self, id: TileId) -> (r: Option<Rect>)
        ensures
            r == match find_tile(self@.tiles, id) {
                Some(t) => Some(t.rect),
                None => None,
            },
    {
        match self.tile(id) {
            Some(t) => Some(t.rect),
            None => None,
        }
    }

    /// The tile that focus reaches from `from` in direction `dir`.
    ///
    /// The nearest tile wins; among equally near ones the best aligned. So
    /// `Down` from the full-width pty lands on Docker, with which it shares
    /// its left edge.
    pub fn next_focus(&self, from: TileId, dir: FocusDir) -> (to: Option<TileId>)
        ensures
            self@.focus_moves(from, dir, to),
            to == self@.next_focus(from, dir),
    {
        proof {
            assert forall|a: Option<TileId>, b: Option<TileId>|
                self@.focus_moves(from, dir, a) && self@.focus_moves(from, dir, b) implies a == b by {
                lemma_focus_move_is_unique(self@, from, dir, a, b);
            }
        }
        if from == TileId::TooSmall {
            assert(self@.focus_moves(from, dir, None));
            return None;
        }
        let from_rect: Rect = match self.tile(from) {
            Some(t) => t.rect,
            None => {
                assert(self@.focus_moves(from, dir, None));
                return None;
            },
        };
        assert(find_tile(self@.tiles, from)->0.rect == from_rect);
        let mut best: Option<usize> = None;
        let n: usize = self.tiles.len();
        let mut i: usize = 0;
        while i < n
            invariant
                n == self.tiles@.len(),
                0 <= i <= n,
                match best {
                    Some(k) => {
                        &&& k < i
                        &&& self@.is_candidate(from, from_rect, dir, k as int)
                        &&& forall|j: int| #[trigger]
                            self@.is_candidate(from, from_rect, dir, j) && j < i ==> {
                                &&& !closer(
                                    from_rect,
                                    self@.tiles[j].rect,
                                    self@.tiles[k as int].rect,
                                    dir,
                                )
                                &&& j < k ==> closer(
                                    from_rect,
                                    self@.tiles[k as int].rect,
                                    self@.tiles[j].rect,
                                    dir,
                                )
                            }
                    },
                    None => forall|j: int| j < i ==> !#[trigger]
                        self@.is_candidate(from, from_rect, dir, j),
                },
            decreases n - i,
        {
            let t = &self.tiles[i];
            assert(self@.tiles[i as int] == t@);
            if t.id != from && t.id != TileId::TooSmall && Self::lies_toward(from_rect, t.rect, dir) {
                assert(self@.is_candidate(from, from_rect, dir, i as int));
                match best {
                    Some(k) => {
                        assert(self@.tiles[k as int] == self.tiles@[k as int]@);
                        if Self::closer(from_rect, t.rect, self.tiles[k].rect, dir) {
                            best = Some(i);
                        }
                    },
                    None => {
                        best = Some(i);
                    },
                }
            } else {
                assert(!self@.is_candidate(from, from_rect, dir, i as int));
            }
            i += 1;
        }
        let to: Option<TileId> = match best {
            Some(k) => {
                assert(self@.is_best(from, from_rect, dir, k as int));
                assert(self@.tiles[k as int] == self.tiles@[k as int]@);
                Some(self.tiles[k].id)
            },
            None => {
                assert forall|j: int| !#[trigger] self@.is_candidate(from, from_rect, dir, j) by {
                    assert(self@.tiles.len() == n);
                }
                None
            },
        };
        proof {
            assert(self@.focus_moves(from, dir, to));
            lemma_focus_move_is_unique(self@, from, dir, to, self@.next_focus(from, dir));
        }
        to
    }

    /// The tile before or after `from`, around the ends of the list. `None`
    /// if `from` is not shown.
    pub fn cycle_focus(&self, from: TileId, forward: bool) -> (to: Option<TileId>)
        ensures
            to == self@.cycle_focus(from, forward),
    {
        let n: usize = self.tiles.len();
        let mut i: usize = 0;
        assert(self@.tiles.take(0) =~= Seq::empty());
        while i < n
            invariant
                n == self.tiles@.len(),
                0 <= i <= n,
                first_with_id(self@.tiles.take(i as int), from) is None,
            decreases n - i,
        {
            proof {
                assert(self@.tiles.take(i as int + 1).drop_last() =~= self@.tiles.take(i as int));
                assert(self@.tiles[i as int] == self.tiles@[i as int]@);
            }
            if self.tiles[i].id == from {
                let j: usize = if forward {
                    if i + 1 == n {
                        0
                    } else {
                        i + 1
                    }
                } else if i == 0 {
                    n - 1
                } else {
                    i - 1
                };
                proof {
                    lemma_first_with_id_prefix(self@.tiles, from, i as int + 1);
                    assert(self@.tiles[j as int] == self.tiles@[j as int]@);
                }
                return Some(self.tiles[j].id);
            }
            i += 1;
        }
        assert(self@.tiles.take(n as int) =~= self@.tiles);
        None
    }

    /// The tile under cell `(x, y)`.
    pub fn tile_at(&self, x: u16, y: u16) -> (r: Option<TileId>)
        ensures
            r == self@.tile_at(x, y),
    {
        let n: usize = self.tiles.len();
        let mut i: usize = 0;
        assert(self@.tiles.skip(0) =~= self@.tiles);
        while i < n
            invariant
                n == self.tiles@.len(),
                0 <= i <= n,
                first_covering(self@.tiles, x, y) == first_covering(
                    self@.tiles.skip(i as int),
                    x,
                    y,
                ),
            decreases n - i,
        {
            proof {
                assert(self@.tiles.skip(i as int).drop_first() =~= self@.tiles.skip(i as int + 1));
                assert(self@.tiles.skip(i as int)[0] == self.tiles@[i as int]@);
            }
            if self.tiles[i].rect.contains(x, y) {
                return Some(self.tiles[i].id);
            }
            i += 1;
        }
        None
    }

    fn lies_toward(from: Rect, rect: Rect, dir: FocusDir) -> (r: bool)
        ensures
            r == lies_toward(from, rect, dir),
    {
        match dir {
            FocusDir::Up => rect.y as u32 + rect.height as u32 <= from.y as u32,
            FocusDir::Down => rect.y as u32 >= from.y as u32 + from.height as u32,
            FocusDir::Left => rect.x as u32 + rect.width as u32 <= from.x as u32,
            FocusDir::Right => rect.x as u32 >= from.x as u32 + from.width as u32,
        }
    }

    /// The gap to `rect` and its misalignment.
    fn remoteness(from: Rect, rect: Rect, dir: FocusDir) -> (r: (u32, u16))
        requires
            lies_toward(from, rect, dir),
        ensures
            r.0 == gap(from, rect, dir),
            r.1 == misalignment(from, rect, dir),
    {
        match dir {
            FocusDir::Up => (
                from.y as u32 - (rect.y as u32 + rect.height as u32),
                abs_diff(rect.x, from.x),
            ),
            FocusDir::Down => (
                rect.y as u32 - (from.y as u32 + from.height as u32),
                abs_diff(rect.x, from.x),
            ),
            FocusDir::Left => (
                from.x as u32 - (rect.x as u32 + rect.width as u32),
                abs_diff(rect.y, from.y),
            ),
            FocusDir::Right => (
                rect.x as u32 - (from.x as u32 + from.width as u32),
                abs_diff(rect.y, from.y),
            ),
        }
    }

    fn closer(from: Rect, a: Rect, b: Rect, dir: FocusDir) -> (r: bool)
        requires
            lies_toward(from, a, dir),
            lies_toward(from, b, dir),
        ensures
            r == closer(from, a, b, dir),
    {
        let (gap_a, off_a): (u32, u16) = Self::remoteness(from, a, dir);
        let (gap_b, off_b): (u32, u16) = Self::remoteness(from, b, dir);
        gap_a < gap_b || (gap_a == gap_b && off_a < off_b)
    }

    /// Whether the tile sends its input straight to the pty.
    pub fn routes_to_pty(&self, id: TileId) -> (r: bool)
        ensures
            r == (match find_tile(self@.tiles, id) {
                Some(t) => t.kind is Pty,
                None => false,
            }),
    {
        match self.tile(id) {
            Some(t) => match t.kind {
                TileKind::Pty => true,
                _ => false,
            },
            None => false,
        }
    }

    /// The scope that the tile sends its input to, or `None` where input is
    /// dropped or is not for a scope.
    pub fn routes_to_scope(&self, id: TileId) -> (r: Option<ScopeKind>)
        ensures
            r == (match find_tile(self@.tiles, id) {
                Some(t) => scope_of(t.kind),
                None => None,
            }),
    {
        match self.tile(id) {
            Some(t) => match t.kind {
                TileKind::Scope(kind) => Some(kind),
                _ => None,
            },
            None => None,
        }
    }
}

proof fn lemma_first_with_id_prefix(tiles: Seq<TileDefView>, id: TileId, i: int)
    requires
        0 <= i <= tiles.len(),
        first_with_id(tiles.take(i), id) is Some,
    ensures
        first_with_id(tiles, id) == first_with_id(tiles.take(i), id),
    decreases tiles.len() - i,
{
    if i == tiles.len() {
        assert(tiles.take(i) =~= tiles);
    } else {
        assert(tiles.take(i + 1).drop_last() =~= tiles.take(i));
        lemma_first_with_id_prefix(tiles, id, i + 1);
    }
}

/// A focus move has one outcome.
pub proof fn lemma_focus_move_is_unique(
    layout: TileLayoutView,
    from: TileId,
    dir: FocusDir,
    a: Option<TileId>,
    b: Option<TileId>,
)
    requires
        layout.focus_moves(from, dir, a),
        layout.focus_moves(from, dir, b),
    ensures
        a == b,
{
    let start = find_tile(layout.tiles, from);
    if from != TileId::TooSmall && start is Some {
        let rect = start->0.rect;
        match (a, b) {
            (Some(to), Some(other)) => {
                focus_moves_to_another_tile(layout, from, dir, to, other);
            },
            (Some(to), None) => {
                let i = choose|i: int| #[trigger]
                    layout.is_best(from, rect, dir, i) && layout.tiles[i].id == to;
                assert(layout.is_candidate(from, rect, dir, i));
            },
            (None, Some(to)) => {
                let i = choose|i: int| #[trigger]
                    layout.is_best(from, rect, dir, i) && layout.tiles[i].id == to;
                assert(layout.is_candidate(from, rect, dir, i));
            },
            (None, None) => {},
        }
    }
}

/// The tiles of a layout cover every cell of the screen exactly once, and
/// nothing outside it.
pub proof fn tiles_partition_the_area(area: Rect, x: int, y: int)
    requires
        area.edges_fit(),
        layout_fits(area),
    ensures
        ({
            let tiles = default_layout(area).tiles;
            &&& area.covers(x, y) <==> exists|i: int|
                0 <= i < tiles.len() && (#[trigger] tiles[i]).rect.covers(x, y)
            &&& forall|i: int, j: int|
                #![trigger tiles[i], tiles[j]]
                0 <= i < tiles.len() && 0 <= j < tiles.len() && tiles[i].rect.covers(x, y)
                    && tiles[j].rect.covers(x, y) ==> i == j
        }),
{
    let tiles = default_layout(area).tiles;
    if !too_small(area) {
        let top = pty_rows(area.height as int);
        let mid = scope_rows(area.height as int);
        let col = area.width / 3;
        assert(tiles.len() == 5);
        if area.covers(x, y) {
            let i: int = if y < area.y + top {
                0
            } else if y >= area.y + top + mid {
                4
            } else if x < area.x + col {
                1
            } else if x < area.x + 2 * col {
                2
            } else {
                3
            };
            assert(tiles[i].rect.covers(x, y));
        }
    } else if area.covers(x, y) {
        assert(tiles[0].rect.covers(x, y));
    }
}

/// The focused tile of a fresh layout is one of its tiles, and every far edge
/// is a cell coordinate.
pub proof fn default_focus_is_shown(area: Rect)
    requires
        area.edges_fit(),
    ensures
        default_layout(area).edges_fit(),
        find_tile(default_layout(area).tiles, default_layout(area).default_focus) is Some,
{
}

/// A focus move never stays on its tile, never reaches the too-small notice,
/// and ends on a shown tile on the asked side; at most one tile qualifies.
pub proof fn focus_moves_to_another_tile(
    layout: TileLayoutView,
    from: TileId,
    dir: FocusDir,
    to: TileId,
    other: TileId,
)
    requires
        layout.focus_moves(from, dir, Some(to)),
    ensures
        to != from,
        to != TileId::TooSmall,
        exists|i: int|
            0 <= i < layout.tiles.len() && (#[trigger] layout.tiles[i]).id == to && lies_toward(
                find_tile(layout.tiles, from)->0.rect,
                layout.tiles[i].rect,
                dir,
            ),
        layout.focus_moves(from, dir, Some(other)) ==> other == to,
{
    let rect = find_tile(layout.tiles, from)->0.rect;
    let i = choose|i: int| #[trigger]
        layout.is_best(from, rect, dir, i) && layout.tiles[i].id == to;
    assert(layout.tiles[i].id == to);
    if layout.focus_moves(from, dir, Some(other)) {
        let j = choose|j: int| #[trigger]
            layout.is_best(from, rect, dir, j) && layout.tiles[j].id == other;
        assert(layout.is_candidate(from, rect, dir, i));
        assert(layout.is_candidate(from, rect, dir, j));
    }
}

/// Where each focus move leads in the god view.
pub open spec fn god_view_neighbour(from: TileId, dir: FocusDir) -> Option<TileId> {
    match (from, dir) {
        (TileId::Pty, FocusDir::Down) => Some(TileId::Docker),
        (TileId::Docker, FocusDir::Up) => Some(TileId::Pty),
        (TileId::Docker, FocusDir::Right) => Some(TileId::Ports),
        (TileId::Docker, FocusDir::Down) => Some(TileId::ClaudeCode),
        (TileId::Ports, FocusDir::Up) => Some(TileId::Pty),
        (TileId::Ports, FocusDir::Left) => Some(TileId::Docker),
        (TileId::Ports, FocusDir::Right) => Some(TileId::Fleet),
        (TileId::Ports, FocusDir::Down) => Some(TileId::ClaudeCode),
        (TileId::Fleet, FocusDir::Up) => Some(TileId::Pty),
        (TileId::Fleet, FocusDir::Left) => Some(TileId::Ports),
        (TileId::Fleet, FocusDir::Down) => Some(TileId::ClaudeCode),
        (TileId::ClaudeCode, FocusDir::Up) => Some(TileId::Docker),
        _ => None,
    }
}

/// Going forward and then back in the cycle of tiles ends on the tile one
/// started from, and the other way round.
pub proof fn cycling_back_undoes_cycling(layout: TileLayoutView, from: TileId, forward: bool)
    requires
        find_tile(layout.tiles, from) is Some,
        forall|i: int, j: int|
            #![trigger layout.tiles[i], layout.tiles[j]]
            0 <= i < j < layout.tiles.len() ==> layout.tiles[i].id != layout.tiles[j].id,
    ensures
        layout.cycle_focus(from, forward) is Some,
        layout.cycle_focus(layout.cycle_focus(from, forward)->0, !forward) == Some(from),
{
    lemma_first_with_id_finds(layout.tiles, from);
    let i = first_with_id(layout.tiles, from)->0;
    let to = layout.cycle_focus(from, forward)->0;
    lemma_find_tile_finds(layout.tiles, from);
    lemma_first_with_id_finds(layout.tiles, to);
    let j = first_with_id(layout.tiles, to)->0;
    assert(layout.tiles[j].id == to);
}

proof fn lemma_find_tile_finds(tiles: Seq<TileDefView>, id: TileId)
    ensures
        find_tile(tiles, id) is Some <==> exists|i: int|
            0 <= i < tiles.len() && (#[trigger] tiles[i]).id == id,
    decreases tiles.len(),
{
    if tiles.len() > 0 {
        let rest = tiles.drop_first();
        lemma_find_tile_finds(rest, id);
        if find_tile(tiles, id) is Some {
            if tiles[0].id != id {
                let k = choose|k: int| 0 <= k < rest.len() && (#[trigger] rest[k]).id == id;
                assert(tiles[k + 1].id == id);
            } else {
                assert(tiles[0].id == id);
            }
        } else if exists|i: int| 0 <= i < tiles.len() && (#[trigger] tiles[i]).id == id {
            let k = choose|k: int| 0 <= k < tiles.len() && (#[trigger] tiles[k]).id == id;
            assert(rest[k - 1].id == id);
        }
    }
}

proof fn lemma_first_with_id_finds(tiles: Seq<TileDefView>, id: TileId)
    ensures
        match first_with_id(tiles, id) {
            Some(i) => 0 <= i < tiles.len() && tiles[i].id == id,
            None => forall|i: int| 0 <= i < tiles.len() ==> (#[trigger] tiles[i]).id != id,
        },
    decreases tiles.len(),
{
    if tiles.len() > 0 {
        lemma_first_with_id_finds(tiles.drop_last(), id);
        assert forall|i: int| 0 <= i < tiles.len() - 1 implies (#[trigger] tiles[i])
            == tiles.drop_last()[i] by {}
    }
}

/// Whatever the size of the terminal, focus moves in the god view as
/// [`god_view_neighbour`] lists: down from the pty is Docker, up from the
/// assistant strip is Docker, and moves off the screen do nothing.
pub proof fn god_view_navigation(area: Rect, from: TileId, dir: FocusDir)
    requires
        area.edges_fit(),
        layout_fits(area),
        !too_small(area),
    ensures
        default_layout(area).focus_moves(from, dir, god_view_neighbour(from, dir)),
{
    let layout = default_layout(area);
    let tiles = layout.tiles;
    assert(tiles.len() == 5);
    reveal_with_fuel(find_tile, 6);
    let start = find_tile(tiles, from);
    if from != TileId::TooSmall {
        let at: int = match from {
            TileId::Pty => 0,
            TileId::Docker => 1,
            TileId::Ports => 2,
            TileId::Fleet => 3,
            _ => 4,
        };
        assert(start == Some(tiles[at]));
        let rect = tiles[at].rect;
        match god_view_neighbour(from, dir) {
            Some(id) => {
                let to: int = match id {
                    TileId::Pty => 0,
                    TileId::Docker => 1,
                    TileId::Ports => 2,
                    TileId::Fleet => 3,
                    _ => 4,
                };
                assert(layout.is_best(from, rect, dir, to));
            },
            None => {},
        }
    } else {
        assert(start is None);
    }
}

/// The pty tile of a god view is never smaller than its minimum, and as wide
/// as the screen.
pub proof fn lemma_pty_tile_size(area: Rect)
    requires
        area.edges_fit(),
        layout_fits(area),
    ensures
        match find_tile(default_layout(area).tiles, TileId::Pty) {
            Some(t) => !too_small(area) && t.rect.height >= MIN_PTY_ROWS && t.rect.width
                == area.width,
            None => too_small(area),
        },
{
    reveal_with_fuel(find_tile, 2);
}

} // verus!
