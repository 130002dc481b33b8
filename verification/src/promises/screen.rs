//! Where the tiles are, and how the focus moves over them.

use vstd::prelude::*;

use crate::docker::DockerModel;
use crate::event::{ActionView, AppEvent, DetachReason};
use crate::geometry::{FocusDir, Rect};
use crate::input::{filter_chunk, InputActionView};
use crate::model::{stay, AppModel, Step};
use crate::promises::keyboard::{
    ctrl_b_d_detaches, ctrl_b_h_and_left_move_left, ctrl_b_j_and_down_move_down,
    ctrl_b_k_and_up_move_up, ctrl_b_l_and_right_move_right, ctrl_b_question_mark_and_ampersand,
    tab_and_shift_tab_cycle, text_goes_on,
};
use crate::promises::typing::{at_rest, lemma_focus_routes};
use crate::proto::{Envelope, Event, EventFrame, Payload, Request};
use crate::pty::PtyInput;
use crate::tile::{
    default_layout, find_tile, first_covering, first_with_id, god_view_navigation,
    god_view_neighbour, layout_fits, lemma_focus_move_is_unique, too_small, ScopeKind, TileId,
    TileKindView,
};

verus! {

/// A terminal is large enough from 80 columns and 24 rows on; a smaller one
/// shows one tile that says so.
pub proof fn small_terminals_say_so(area: Rect)
    ensures
        too_small(area) <==> area.width < 80 || area.height < 24,
        area.width < 80 || area.height < 24 ==> {
            let layout = default_layout(area);
            &&& layout.tiles.len() == 1
            &&& layout.tiles[0].id == TileId::TooSmall
            &&& layout.tiles[0].kind is TooSmall
            &&& layout.tiles[0].rect == area
            &&& layout.default_focus == TileId::TooSmall
        },
{
}

/// The god view in numbers. The assistant strip takes the last three rows, the
/// pty three fifths of the others, rounded down, and the scopes what is left,
/// each a third of the width; Fleet gets what the division leaves.
pub proof fn the_god_view_in_numbers(area: Rect)
    requires
        area.width >= 80,
        area.height >= 24,
        area.x + area.width <= 65_535,
        area.y + area.height <= 65_535,
        (area.height - 3) * 3 <= 65_535,
    ensures
        ({
            let layout = default_layout(area);
            let top = (area.height - 3) * 3 / 5;
            let third = area.width as int / 3;
            &&& layout.default_focus == TileId::Pty
            &&& layout.tiles.len() == 5
            &&& layout.tiles[0].id == TileId::Pty
            &&& layout.tiles[0].kind is Pty
            &&& layout.tiles[0].rect.x == area.x
            &&& layout.tiles[0].rect.y == area.y
            &&& layout.tiles[0].rect.width == area.width
            &&& layout.tiles[0].rect.height == top
            &&& layout.tiles[1].id == TileId::Docker
            &&& layout.tiles[1].kind == TileKindView::Scope(ScopeKind::Docker)
            &&& layout.tiles[1].rect.x == area.x
            &&& layout.tiles[1].rect.y == area.y + top
            &&& layout.tiles[1].rect.width == third
            &&& layout.tiles[1].rect.height == area.height - 3 - top
            &&& layout.tiles[2].id == TileId::Ports
            &&& layout.tiles[2].kind == TileKindView::Scope(ScopeKind::Ports)
            &&& layout.tiles[2].rect.x == area.x + third
            &&& layout.tiles[2].rect.y == area.y + top
            &&& layout.tiles[2].rect.width == third
            &&& layout.tiles[2].rect.height == area.height - 3 - top
            &&& layout.tiles[3].id == TileId::Fleet
            &&& layout.tiles[3].kind == TileKindView::Scope(ScopeKind::Fleet)
            &&& layout.tiles[3].rect.x == area.x + 2 * third
            &&& layout.tiles[3].rect.y == area.y + top
            &&& layout.tiles[3].rect.width == area.width - 2 * third
            &&& layout.tiles[3].rect.height == area.height - 3 - top
            &&& layout.tiles[4].id == TileId::ClaudeCode
            &&& layout.tiles[4].kind is Placeholder
            &&& layout.tiles[4].rect.x == area.x
            &&& layout.tiles[4].rect.y == area.y + area.height - 3
            &&& layout.tiles[4].rect.width == area.width
            &&& layout.tiles[4].rect.height == 3
        }),
{
}

/// Which tile is under a cell of the god view.
pub proof fn cells_belong_to_tiles(area: Rect, x: u16, y: u16)
    requires
        area.width >= 80,
        area.height >= 24,
        area.x + area.width <= 65_535,
        area.y + area.height <= 65_535,
        (area.height - 3) * 3 <= 65_535,
    ensures
        ({
            let top = (area.height - 3) * 3 / 5;
            let third = area.width as int / 3;
            let across = x - area.x;
            let down = y - area.y;
            let at = default_layout(area).tile_at(x, y);
            &&& across < 0 || across >= area.width || down < 0 || down >= area.height ==> at is None
            &&& 0 <= across < area.width && 0 <= down < top ==> at == Some(TileId::Pty)
            &&& 0 <= across < third && top <= down < area.height - 3 ==> at == Some(TileId::Docker)
            &&& third <= across < 2 * third && top <= down < area.height - 3 ==> at == Some(
                TileId::Ports,
            )
            &&& 2 * third <= across < area.width && top <= down < area.height - 3 ==> at == Some(
                TileId::Fleet,
            )
            &&& 0 <= across < area.width && area.height - 3 <= down < area.height ==> at == Some(
                TileId::ClaudeCode,
            )
        }),
{
    the_god_view_in_numbers(area);
    let tiles = default_layout(area).tiles;
    reveal_with_fuel(first_covering, 6);
    assert(tiles.drop_first()[0] == tiles[1]);
    assert(tiles.drop_first().drop_first()[0] == tiles[2]);
    assert(tiles.drop_first().drop_first().drop_first()[0] == tiles[3]);
    assert(tiles.drop_first().drop_first().drop_first().drop_first()[0] == tiles[4]);
}

/// Where the focus goes in the god view, whatever its size: up, down, left
/// and right from each tile.
pub proof fn the_focus_moves_to_the_neighbour(area: Rect)
    requires
        area.width >= 80,
        area.height >= 24,
        area.x + area.width <= 65_535,
        area.y + area.height <= 65_535,
        (area.height - 3) * 3 <= 65_535,
    ensures
        ({
            let layout = default_layout(area);
            &&& layout.next_focus(TileId::Pty, FocusDir::Up) == None::<TileId>
            &&& layout.next_focus(TileId::Pty, FocusDir::Down) == Some(TileId::Docker)
            &&& layout.next_focus(TileId::Pty, FocusDir::Left) == None::<TileId>
            &&& layout.next_focus(TileId::Pty, FocusDir::Right) == None::<TileId>
            &&& layout.next_focus(TileId::Docker, FocusDir::Up) == Some(TileId::Pty)
            &&& layout.next_focus(TileId::Docker, FocusDir::Down) == Some(TileId::ClaudeCode)
            &&& layout.next_focus(TileId::Docker, FocusDir::Left) == None::<TileId>
            &&& layout.next_focus(TileId::Docker, FocusDir::Right) == Some(TileId::Ports)
            &&& layout.next_focus(TileId::Ports, FocusDir::Up) == Some(TileId::Pty)
            &&& layout.next_focus(TileId::Ports, FocusDir::Down) == Some(TileId::ClaudeCode)
            &&& layout.next_focus(TileId::Ports, FocusDir::Left) == Some(TileId::Docker)
            &&& layout.next_focus(TileId::Ports, FocusDir::Right) == Some(TileId::Fleet)
            &&& layout.next_focus(TileId::Fleet, FocusDir::Up) == Some(TileId::Pty)
            &&& layout.next_focus(TileId::Fleet, FocusDir::Down) == Some(TileId::ClaudeCode)
            &&& layout.next_focus(TileId::Fleet, FocusDir::Left) == Some(TileId::Ports)
            &&& layout.next_focus(TileId::Fleet, FocusDir::Right) == None::<TileId>
            &&& layout.next_focus(TileId::ClaudeCode, FocusDir::Up) == Some(TileId::Docker)
            &&& layout.next_focus(TileId::ClaudeCode, FocusDir::Down) == None::<TileId>
            &&& layout.next_focus(TileId::ClaudeCode, FocusDir::Left) == None::<TileId>
            &&& layout.next_focus(TileId::ClaudeCode, FocusDir::Right) == None::<TileId>
        }),
{
    lemma_neighbour(area, TileId::Pty, FocusDir::Up);
    lemma_neighbour(area, TileId::Pty, FocusDir::Down);
    lemma_neighbour(area, TileId::Pty, FocusDir::Left);
    lemma_neighbour(area, TileId::Pty, FocusDir::Right);
    lemma_neighbour(area, TileId::Docker, FocusDir::Up);
    lemma_neighbour(area, TileId::Docker, FocusDir::Down);
    lemma_neighbour(area, TileId::Docker, FocusDir::Left);
    lemma_neighbour(area, TileId::Docker, FocusDir::Right);
    lemma_neighbour(area, TileId::Ports, FocusDir::Up);
    lemma_neighbour(area, TileId::Ports, FocusDir::Down);
    lemma_neighbour(area, TileId::Ports, FocusDir::Left);
    lemma_neighbour(area, TileId::Ports, FocusDir::Right);
    lemma_neighbour(area, TileId::Fleet, FocusDir::Up);
    lemma_neighbour(area, TileId::Fleet, FocusDir::Down);
    lemma_neighbour(area, TileId::Fleet, FocusDir::Left);
    lemma_neighbour(area, TileId::Fleet, FocusDir::Right);
    lemma_neighbour(area, TileId::ClaudeCode, FocusDir::Up);
    lemma_neighbour(area, TileId::ClaudeCode, FocusDir::Down);
    lemma_neighbour(area, TileId::ClaudeCode, FocusDir::Left);
    lemma_neighbour(area, TileId::ClaudeCode, FocusDir::Right);
}

proof fn lemma_neighbour(area: Rect, from: TileId, dir: FocusDir)
    requires
        area.edges_fit(),
        layout_fits(area),
        !too_small(area),
    ensures
        default_layout(area).next_focus(from, dir) == god_view_neighbour(from, dir),
{
    let layout = default_layout(area);
    god_view_navigation(area, from, dir);
    let to = layout.next_focus(from, dir);
    assert(layout.focus_moves(from, dir, to));
    lemma_focus_move_is_unique(
        layout,
        from,
        dir,
        to,
        god_view_neighbour(from, dir),
    );
}

/// The cycle of the tiles: pty, Docker, Ports, Fleet, assistant, and around.
pub proof fn the_tiles_form_a_cycle(area: Rect)
    requires
        area.width >= 80,
        area.height >= 24,
    ensures
        ({
            let layout = default_layout(area);
            &&& layout.cycle_focus(TileId::Pty, true) == Some(TileId::Docker)
            &&& layout.cycle_focus(TileId::Docker, true) == Some(TileId::Ports)
            &&& layout.cycle_focus(TileId::Ports, true) == Some(TileId::Fleet)
            &&& layout.cycle_focus(TileId::Fleet, true) == Some(TileId::ClaudeCode)
            &&& layout.cycle_focus(TileId::ClaudeCode, true) == Some(TileId::Pty)
            &&& layout.cycle_focus(TileId::Pty, false) == Some(TileId::ClaudeCode)
            &&& layout.cycle_focus(TileId::Docker, false) == Some(TileId::Pty)
            &&& layout.cycle_focus(TileId::Ports, false) == Some(TileId::Docker)
            &&& layout.cycle_focus(TileId::Fleet, false) == Some(TileId::Ports)
            &&& layout.cycle_focus(TileId::ClaudeCode, false) == Some(TileId::Fleet)
        }),
{
    let tiles = default_layout(area).tiles;
    assert(tiles.len() == 5);
    reveal_with_fuel(first_with_id, 6);
    let four = tiles.drop_last();
    let three = four.drop_last();
    let two = three.drop_last();
    let one = two.drop_last();
    assert(four.last() == tiles[3]);
    assert(three.last() == tiles[2]);
    assert(two.last() == tiles[1]);
    assert(one.last() == tiles[0]);
}

/// A chunk that is one binding does what the binding does.
proof fn lemma_binding_acts(m: AppModel, bytes: Seq<u8>, action: InputActionView, now: u64)
    requires
        m.held_input == Seq::<u8>::empty(),
        filter_chunk(Seq::empty(), Seq::empty(), bytes).actions == seq![action],
        filter_chunk(Seq::empty(), Seq::empty(), bytes).held.len() == 0,
    ensures
        m.stdin(bytes, now) == m.input_action(action, now),
{
    reveal(AppModel::stdin);
    reveal_with_fuel(AppModel::input_actions, 2);
    let filtered = filter_chunk(Seq::empty(), Seq::empty(), bytes);
    assert(filtered.held =~= Seq::empty());
    assert(AppModel { held_input: filtered.held, ..m } =~= m);
    assert(seq![action].drop_last() =~= Seq::empty());
    let last = m.input_action(action, now);
    assert(stay(m).actions + last.actions =~= last.actions);
}

/// `Ctrl-b` with `h`, `j`, `k` or `l` moves the focus left, down, up or right
/// in the god view, and closes the prompt of a Docker tile that it leaves.
/// Where there is no tile on that side nothing happens.
pub proof fn ctrl_b_letters_move_the_focus(
    m: AppModel,
    area: Rect,
    b: u8,
    bytes: Vec<u8>,
    now: u64,
    after: Step,
)
    requires
        at_rest(m, area),
        area.x + area.width <= 65_535,
        area.y + area.height <= 65_535,
        (area.height - 3) * 3 <= 65_535,
        b == 0x68 || b == 0x6a || b == 0x6b || b == 0x6c,
        bytes@ == seq![0x02u8, b],
        m.focused != TileId::TooSmall,
        m.leads_to(AppEvent::StdinChunk(bytes), now, after),
    ensures
        ({
            let to = match m.focused {
                TileId::Pty => if b == 0x6a {
                    Some(TileId::Docker)
                } else {
                    None
                },
                TileId::Docker => if b == 0x6a {
                    Some(TileId::ClaudeCode)
                } else if b == 0x6b {
                    Some(TileId::Pty)
                } else if b == 0x6c {
                    Some(TileId::Ports)
                } else {
                    None
                },
                TileId::Ports => if b == 0x6a {
                    Some(TileId::ClaudeCode)
                } else if b == 0x6b {
                    Some(TileId::Pty)
                } else if b == 0x6c {
                    Some(TileId::Fleet)
                } else {
                    Some(TileId::Docker)
                },
                TileId::Fleet => if b == 0x6a {
                    Some(TileId::ClaudeCode)
                } else if b == 0x6b {
                    Some(TileId::Pty)
                } else if b == 0x68 {
                    Some(TileId::Ports)
                } else {
                    None
                },
                _ => if b == 0x6b {
                    Some(TileId::Docker)
                } else {
                    None
                },
            };
            match to {
                Some(id) => {
                    &&& after.actions == seq![ActionView::FocusTile(id), ActionView::DrawFrame]
                    &&& after.app == (AppModel {
                        focused: id,
                        docker: DockerModel {
                            confirm: if m.focused == TileId::Docker {
                                None
                            } else {
                                m.docker.confirm
                            },
                            ..m.docker
                        },
                        ..m
                    })
                },
                None => after.app == m && after.actions.len() == 0,
            }
        }),
{
    let none = Seq::<u8>::empty();
    assert(none + bytes@ + none =~= bytes@);
    ctrl_b_h_and_left_move_left(none, none);
    ctrl_b_j_and_down_move_down(none, none);
    ctrl_b_k_and_up_move_up(none, none);
    ctrl_b_l_and_right_move_right(none, none);
    let dir = if b == 0x68 {
        FocusDir::Left
    } else if b == 0x6a {
        FocusDir::Down
    } else if b == 0x6b {
        FocusDir::Up
    } else {
        FocusDir::Right
    };
    let r = filter_chunk(none, none, bytes@);
    assert(r.actions =~= seq![InputActionView::FocusDirection(dir)]);
    lemma_binding_acts(m, bytes@, InputActionView::FocusDirection(dir), now);
    reveal(AppModel::input_action);
    the_focus_moves_to_the_neighbour(area);
}

/// `Ctrl-b` with an arrow does what it does with the letter for that side.
pub proof fn ctrl_b_arrows_move_the_focus(m: AppModel, now: u64)
    requires
        m.held_input == Seq::<u8>::empty(),
    ensures
        m.stdin(seq![0x02u8, 0x1bu8, 0x5bu8, 0x44u8], now) == m.stdin(seq![0x02u8, 0x68u8], now),
        m.stdin(seq![0x02u8, 0x1bu8, 0x5bu8, 0x42u8], now) == m.stdin(seq![0x02u8, 0x6au8], now),
        m.stdin(seq![0x02u8, 0x1bu8, 0x5bu8, 0x41u8], now) == m.stdin(seq![0x02u8, 0x6bu8], now),
        m.stdin(seq![0x02u8, 0x1bu8, 0x5bu8, 0x43u8], now) == m.stdin(seq![0x02u8, 0x6cu8], now),
{
    let none = Seq::<u8>::empty();
    ctrl_b_h_and_left_move_left(none, none);
    ctrl_b_j_and_down_move_down(none, none);
    ctrl_b_k_and_up_move_up(none, none);
    ctrl_b_l_and_right_move_right(none, none);
    lemma_same_move(m, seq![0x02u8, 0x1bu8, 0x5bu8, 0x44u8], FocusDir::Left, now);
    lemma_same_move(m, seq![0x02u8, 0x68u8], FocusDir::Left, now);
    lemma_same_move(m, seq![0x02u8, 0x1bu8, 0x5bu8, 0x42u8], FocusDir::Down, now);
    lemma_same_move(m, seq![0x02u8, 0x6au8], FocusDir::Down, now);
    lemma_same_move(m, seq![0x02u8, 0x1bu8, 0x5bu8, 0x41u8], FocusDir::Up, now);
    lemma_same_move(m, seq![0x02u8, 0x6bu8], FocusDir::Up, now);
    lemma_same_move(m, seq![0x02u8, 0x1bu8, 0x5bu8, 0x43u8], FocusDir::Right, now);
    lemma_same_move(m, seq![0x02u8, 0x6cu8], FocusDir::Right, now);
}

proof fn lemma_same_move(m: AppModel, keys: Seq<u8>, dir: FocusDir, now: u64)
    requires
        m.held_input == Seq::<u8>::empty(),
        ({
            let none = Seq::<u8>::empty();
            let r = filter_chunk(none, none, none + keys + none);
            &&& r.held.len() == 0
            &&& r.actions.len() == 1
            &&& r.actions.last() == InputActionView::FocusDirection(dir)
        }),
    ensures
        m.stdin(keys, now) == m.input_action(InputActionView::FocusDirection(dir), now),
{
    let none = Seq::<u8>::empty();
    assert(none + keys + none =~= keys);
    let r = filter_chunk(none, none, keys);
    assert(r.actions =~= seq![InputActionView::FocusDirection(dir)]);
    lemma_binding_acts(m, keys, InputActionView::FocusDirection(dir), now);
}

/// On a terminal that is too small typing does nothing.
pub proof fn a_small_terminal_drops_typing(
    m: AppModel,
    area: Rect,
    bytes: Vec<u8>,
    now: u64,
    after: Step,
)
    requires
        area.width < 80 || area.height < 24,
        m.layout == default_layout(area),
        m.held_input == Seq::<u8>::empty(),
        bytes@.len() > 0,
        forall|i: int|
            0 <= i < bytes@.len() ==> (#[trigger] bytes@[i]) != 0x09 && bytes@[i] != 0x02
                && bytes@[i] != 0x1b,
        m.leads_to(AppEvent::StdinChunk(bytes), now, after),
    ensures
        after.app == m,
        after.actions.len() == 0,
{
    text_goes_on(bytes@);
    lemma_binding_acts(m, bytes@, InputActionView::Forward(bytes@), now);
    reveal(AppModel::input_action);
    reveal_with_fuel(find_tile, 2);
    assert(m.layout.tiles.len() == 1);
}

/// `Tab` and `Shift-Tab` move the focus around the cycle of tiles, but in the
/// pty they are typed into the shell.
pub proof fn tab_moves_around_the_tiles(
    m: AppModel,
    area: Rect,
    back: bool,
    bytes: Vec<u8>,
    now: u64,
    after: Step,
)
    requires
        at_rest(m, area),
        bytes@ == if back {
            seq![0x1bu8, 0x5bu8, 0x5au8]
        } else {
            seq![0x09u8]
        },
        m.focused != TileId::TooSmall,
        m.leads_to(AppEvent::StdinChunk(bytes), now, after),
    ensures
        m.focused == TileId::Pty ==> after.app == m && after.actions == seq![
            ActionView::Send(Request::SendInput { pane_id: m.pane, data: bytes@ }),
        ],
        m.focused != TileId::Pty ==> {
            let id = match m.focused {
                TileId::Docker => if back {
                    TileId::Pty
                } else {
                    TileId::Ports
                },
                TileId::Ports => if back {
                    TileId::Docker
                } else {
                    TileId::Fleet
                },
                TileId::Fleet => if back {
                    TileId::Ports
                } else {
                    TileId::ClaudeCode
                },
                _ => if back {
                    TileId::Fleet
                } else {
                    TileId::Pty
                },
            };
            &&& after.actions == seq![ActionView::FocusTile(id), ActionView::DrawFrame]
            &&& after.app == (AppModel {
                focused: id,
                docker: DockerModel {
                    confirm: if m.focused == TileId::Docker {
                        None
                    } else {
                        m.docker.confirm
                    },
                    ..m.docker
                },
                ..m
            })
        },
{
    let none = Seq::<u8>::empty();
    assert(none + bytes@ + none =~= bytes@);
    tab_and_shift_tab_cycle(none, none);
    let action = if back {
        InputActionView::FocusPrev
    } else {
        InputActionView::FocusNext
    };
    let r = filter_chunk(none, none, bytes@);
    assert(r.actions =~= seq![action]);
    lemma_binding_acts(m, bytes@, action, now);
    reveal(AppModel::input_action);
    lemma_focus_routes(m, area);
    the_tiles_form_a_cycle(area);
}

/// `Ctrl-b d` detaches; `Ctrl-b ?` and `Ctrl-b &` do nothing yet.
pub proof fn ctrl_b_d_leaves(m: AppModel, bytes: Vec<u8>, now: u64, after: Step)
    requires
        m.held_input == Seq::<u8>::empty(),
        bytes@ == seq![0x02u8, 0x64u8] || bytes@ == seq![0x02u8, 0x3fu8] || bytes@ == seq![
            0x02u8,
            0x26u8,
        ],
        m.leads_to(AppEvent::StdinChunk(bytes), now, after),
    ensures
        after.app == m,
        bytes@[1] == 0x64 ==> after.actions == seq![ActionView::Detach(DetachReason::User)],
        bytes@[1] != 0x64 ==> after.actions.len() == 0,
{
    let none = Seq::<u8>::empty();
    assert(none + bytes@ + none =~= bytes@);
    ctrl_b_d_detaches(none, none);
    ctrl_b_question_mark_and_ampersand(none, none);
    let action = if bytes@[1] == 0x64 {
        InputActionView::Detach
    } else if bytes@[1] == 0x3f {
        InputActionView::Help
    } else {
        InputActionView::PaneClose
    };
    let r = filter_chunk(none, none, bytes@);
    assert(r.actions =~= seq![action]);
    lemma_binding_acts(m, bytes@, action, now);
    reveal(AppModel::input_action);
}

/// What is typed while the pty has the focus goes to the pane's process as it
/// was typed, in one piece.
pub proof fn typing_reaches_the_shell(
    m: AppModel,
    area: Rect,
    bytes: Vec<u8>,
    now: u64,
    after: Step,
)
    requires
        at_rest(m, area),
        m.focused == TileId::Pty,
        bytes@.len() > 0,
        forall|i: int|
            0 <= i < bytes@.len() ==> (#[trigger] bytes@[i]) != 0x09 && bytes@[i] != 0x02
                && bytes@[i] != 0x1b,
        m.leads_to(AppEvent::StdinChunk(bytes), now, after),
    ensures
        after.app == m,
        after.actions == seq![
            ActionView::Send(Request::SendInput { pane_id: m.pane, data: bytes@ }),
        ],
{
    text_goes_on(bytes@);
    lemma_binding_acts(m, bytes@, InputActionView::Forward(bytes@), now);
    reveal(AppModel::input_action);
    lemma_focus_routes(m, area);
}

/// The assistant strip drops what is typed into it.
pub proof fn the_assistant_strip_drops_typing(
    m: AppModel,
    area: Rect,
    bytes: Vec<u8>,
    now: u64,
    after: Step,
)
    requires
        at_rest(m, area),
        m.focused == TileId::ClaudeCode,
        bytes@.len() > 0,
        forall|i: int|
            0 <= i < bytes@.len() ==> (#[trigger] bytes@[i]) != 0x09 && bytes@[i] != 0x02
                && bytes@[i] != 0x1b,
        m.leads_to(AppEvent::StdinChunk(bytes), now, after),
    ensures
        after.app == m,
        after.actions.len() == 0,
{
    text_goes_on(bytes@);
    lemma_binding_acts(m, bytes@, InputActionView::Forward(bytes@), now);
    reveal(AppModel::input_action);
    let tiles = m.layout.tiles;
    assert(tiles.len() == 5);
    reveal_with_fuel(find_tile, 6);
    assert(tiles.drop_first()[0] == tiles[1]);
    assert(tiles.drop_first().drop_first()[0] == tiles[2]);
    assert(tiles.drop_first().drop_first().drop_first()[0] == tiles[3]);
    assert(tiles.drop_first().drop_first().drop_first().drop_first()[0] == tiles[4]);
}

/// A click focuses the tile under it, and closes the prompt of a Docker tile
/// that it leaves; on the focused tile, or off the screen, it does nothing.
pub proof fn a_click_focuses_what_is_under_it(
    m: AppModel,
    area: Rect,
    x: u16,
    y: u16,
    now: u64,
    after: Step,
)
    requires
        m.layout == default_layout(area),
        area.width >= 80,
        area.height >= 24,
        area.x + area.width <= 65_535,
        area.y + area.height <= 65_535,
        (area.height - 3) * 3 <= 65_535,
        m.leads_to(AppEvent::MouseClick { x, y }, now, after),
    ensures
        ({
            let top = (area.height - 3) * 3 / 5;
            let third = area.width as int / 3;
            let across = x - area.x;
            let down = y - area.y;
            let on = 0 <= across < area.width && 0 <= down < area.height;
            let id = if down < top {
                TileId::Pty
            } else if down >= area.height - 3 {
                TileId::ClaudeCode
            } else if across < third {
                TileId::Docker
            } else if across < 2 * third {
                TileId::Ports
            } else {
                TileId::Fleet
            };
            &&& !on || id == m.focused ==> after.app == m && after.actions.len() == 0
            &&& on && id != m.focused ==> {
                &&& after.actions == seq![ActionView::FocusTile(id), ActionView::DrawFrame]
                &&& after.app == (AppModel {
                    focused: id,
                    docker: DockerModel {
                        confirm: if m.focused == TileId::Docker {
                            None
                        } else {
                            m.docker.confirm
                        },
                        ..m.docker
                    },
                    ..m
                })
            }
        }),
{
    cells_belong_to_tiles(area, x, y);
}

/// The tile under the pointer is marked, and nothing else changes. The screen
/// is redrawn where the mark moves.
pub proof fn the_tile_under_the_pointer_is_marked(
    m: AppModel,
    area: Rect,
    x: u16,
    y: u16,
    now: u64,
    after: Step,
)
    requires
        m.layout == default_layout(area),
        area.width >= 80,
        area.height >= 24,
        area.x + area.width <= 65_535,
        area.y + area.height <= 65_535,
        (area.height - 3) * 3 <= 65_535,
        m.leads_to(AppEvent::MouseHover { x, y }, now, after),
    ensures
        ({
            let top = (area.height - 3) * 3 / 5;
            let third = area.width as int / 3;
            let across = x - area.x;
            let down = y - area.y;
            let over = if !(0 <= across < area.width && 0 <= down < area.height) {
                None
            } else if down < top {
                Some(TileId::Pty)
            } else if down >= area.height - 3 {
                Some(TileId::ClaudeCode)
            } else if across < third {
                Some(TileId::Docker)
            } else if across < 2 * third {
                Some(TileId::Ports)
            } else {
                Some(TileId::Fleet)
            };
            &&& after.app == (AppModel { hovered: over, ..m })
            &&& m.hovered == over ==> after.actions.len() == 0
            &&& m.hovered != over ==> after.actions == seq![ActionView::DrawFrame]
        }),
{
    cells_belong_to_tiles(area, x, y);
}

/// The pane's output reaches the emulator as it came, once, and the screen is
/// redrawn; an empty snapshot changes nothing, and the end of the pane's
/// process is reported with its code.
pub proof fn the_panes_output_reaches_the_screen(
    m: AppModel,
    data: Vec<u8>,
    rows: u16,
    cols: u16,
    exit_code: Option<i32>,
    now: u64,
    put: Step,
    shot: Step,
    end: Step,
)
    requires
        m.leads_to(
            AppEvent::DaemonEnvelope(
                Envelope {
                    payload: Payload::Event(
                        EventFrame {
                            subscription_id: m.pane_sub,
                            event: Event::PaneOutput { data },
                        },
                    ),
                },
            ),
            now,
            put,
        ),
        m.leads_to(
            AppEvent::DaemonEnvelope(
                Envelope {
                    payload: Payload::Event(
                        EventFrame {
                            subscription_id: m.pane_sub,
                            event: Event::PaneSnapshot { scrollback: data, rows, cols },
                        },
                    ),
                },
            ),
            now,
            shot,
        ),
        m.leads_to(
            AppEvent::DaemonEnvelope(
                Envelope {
                    payload: Payload::Event(
                        EventFrame {
                            subscription_id: m.pane_sub,
                            event: Event::PaneExit { exit_code },
                        },
                    ),
                },
            ),
            now,
            end,
        ),
    ensures
        put.app == (AppModel { pty: m.pty.push(PtyInput::Bytes(data@)), ..m }),
        put.actions == seq![ActionView::DrawFrame],
        data@.len() > 0 ==> shot.app == (AppModel { pty: m.pty.push(PtyInput::Bytes(data@)), ..m })
            && shot.actions == seq![ActionView::DrawFrame],
        data@.len() == 0 ==> shot.app == m && shot.actions.len() == 0,
        end.app == m,
        end.actions == seq![ActionView::Detach(DetachReason::PaneExited { exit_code })],
{
    reveal(AppModel::event);
}

/// A new size of the terminal in numbers: the pane and the emulator get three
/// fifths of the rows above the assistant strip and all columns, or 24 by 80
/// where there is no room for the god view. The focus stays on its tile if
/// that is still shown.
pub proof fn a_new_size_in_numbers(m: AppModel, rows: u16, cols: u16, now: u64, after: Step)
    requires
        (rows - 3) * 3 <= 65_535,
        m.leads_to(AppEvent::Resize { rows, cols }, now, after),
    ensures
        ({
            let large = rows >= 24 && cols >= 80;
            let pane_rows = if large {
                ((rows - 3) * 3 / 5) as u16
            } else {
                24u16
            };
            let pane_cols = if large {
                cols
            } else {
                80u16
            };
            let focused = if large && m.focused == TileId::TooSmall {
                TileId::Pty
            } else if large {
                m.focused
            } else {
                TileId::TooSmall
            };
            &&& after.actions == seq![
                ActionView::Send(
                    Request::ResizePane { pane_id: m.pane, rows: pane_rows, cols: pane_cols },
                ),
                ActionView::DrawFrame,
            ]
            &&& after.app.terminal_size == (rows, cols)
            &&& after.app.layout == default_layout(Rect { x: 0, y: 0, width: cols, height: rows })
            &&& after.app.focused == focused
            &&& after.app.hovered is None
            &&& after.app.pty == m.pty.push(PtyInput::Resize { rows: pane_rows, cols: pane_cols })
            &&& after.app.docker == (DockerModel {
                confirm: if m.focused == TileId::Docker && focused != TileId::Docker {
                    None
                } else {
                    m.docker.confirm
                },
                ..m.docker
            })
            &&& after.app == (AppModel {
                terminal_size: after.app.terminal_size,
                layout: after.app.layout,
                focused: after.app.focused,
                hovered: after.app.hovered,
                pty: after.app.pty,
                docker: after.app.docker,
                ..m
            })
        }),
{
    let area = Rect { x: 0, y: 0, width: cols, height: rows };
    let tiles = default_layout(area).tiles;
    reveal_with_fuel(find_tile, 6);
    if rows >= 24 && cols >= 80 {
        the_god_view_in_numbers(area);
        assert(tiles.drop_first()[0] == tiles[1]);
        assert(tiles.drop_first().drop_first()[0] == tiles[2]);
        assert(tiles.drop_first().drop_first().drop_first()[0] == tiles[3]);
        assert(tiles.drop_first().drop_first().drop_first().drop_first()[0] == tiles[4]);
    } else {
        assert(tiles.len() == 1);
    }
}

} // verus!
