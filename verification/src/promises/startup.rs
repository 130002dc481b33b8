//! The start of a session.

use vstd::prelude::*;

use crate::app::{bootstrap, can_handle, fresh_app};
use crate::event::{ActionView, AppEvent};
use crate::geometry::Rect;
use crate::model::{terminal_fits, AppModel, PendingModel};
use crate::promises::screen::the_god_view_in_numbers;
use crate::proto::{Request, ScopeTarget};
use crate::pty::PtyInput;
use crate::tile::{default_layout, find_tile, TileId};

verus! {

/// A session starts with its subscriptions numbered one to five, every list
/// empty and at its top, no prompt and no toast, and the focus on the pty
/// where there is room for it.
pub proof fn a_session_starts_with_nothing_known(pane: u64, rows: u16, cols: u16)
    requires
        (rows - 3) * 3 <= 65_535,
    ensures
        ({
            let m = fresh_app(pane, (rows, cols));
            let large = rows >= 24 && cols >= 80;
            &&& m.layout == default_layout(Rect { x: 0, y: 0, width: cols, height: rows })
            &&& m.focused == if large {
                TileId::Pty
            } else {
                TileId::TooSmall
            }
            &&& m.hovered is None
            &&& m.pane == pane
            &&& m.pane_sub == 1
            &&& m.docker.sub_id == 2
            &&& m.ports.ports_sub_id == 3
            &&& m.ports.processes_sub_id == 4
            &&& m.fleet.sub_id == 5
            &&& m.next_sub_id == 6
            &&& m.docker.state is Connecting && m.docker.view is List && m.docker.confirm is None
            &&& m.docker.target == ScopeTarget::Local
            &&& m.docker.cursor.selection == 0 && m.docker.cursor.filter.len() == 0
                && !m.docker.cursor.filter_active
            &&& m.ports.ports.state is Connecting && m.ports.processes.state is Connecting
            &&& m.ports.active is Ports
            &&& m.ports.ports.cursor.selection == 0 && m.ports.ports.cursor.filter.len() == 0
                && !m.ports.ports.cursor.filter_active
            &&& m.ports.processes.cursor.selection == 0 && m.ports.processes.cursor.filter.len()
                == 0 && !m.ports.processes.cursor.filter_active
            &&& m.fleet.state is Connecting
            &&& m.fleet.cursor.selection == 0 && m.fleet.cursor.filter.len() == 0
                && !m.fleet.cursor.filter_active
            &&& m.terminal_size == (rows, cols)
            &&& m.pending == Map::<u64, PendingModel>::empty()
            &&& m.toasts.len() == 0
            &&& m.held_input.len() == 0
            &&& m.held_keys.len() == 0
            &&& m.pty == seq![
                PtyInput::Start {
                    rows: if large {
                        ((rows - 3) * 3 / 5) as u16
                    } else {
                        24u16
                    },
                    cols: if large {
                        cols
                    } else {
                        80u16
                    },
                    scrollback: 1000,
                },
            ]
        }),
{
    let area = Rect { x: 0, y: 0, width: cols, height: rows };
    let tiles = default_layout(area).tiles;
    reveal_with_fuel(find_tile, 2);
    if rows >= 24 && cols >= 80 {
        the_god_view_in_numbers(area);
    } else {
        assert(tiles.len() == 1);
    }
}

/// What a session asks for first: to be attached to its pane, the pane in the
/// size of its tile, and every subscription under its own id.
pub proof fn a_session_subscribes_to_everything(m: AppModel, area: Rect)
    requires
        m.layout == default_layout(area),
        area.width >= 80,
        area.height >= 24,
        area.x + area.width <= 65_535,
        area.y + area.height <= 65_535,
        (area.height - 3) * 3 <= 65_535,
    ensures
        bootstrap(m) == seq![
            ActionView::Send(Request::AttachPane { pane_id: m.pane, subscription_id: m.pane_sub }),
            ActionView::Send(
                Request::ResizePane {
                    pane_id: m.pane,
                    rows: ((area.height - 3) * 3 / 5) as u16,
                    cols: area.width,
                },
            ),
            ActionView::Send(Request::SubscribeDocker { id: m.docker.sub_id }),
            ActionView::Send(Request::SubscribePorts { id: m.ports.ports_sub_id }),
            ActionView::Send(Request::SubscribeProcesses { id: m.ports.processes_sub_id }),
            ActionView::Send(Request::SubscribeFleet { id: m.fleet.sub_id }),
            ActionView::DrawFrame,
        ],
{
    reveal_with_fuel(find_tile, 2);
    the_god_view_in_numbers(area);
}

/// Which sizes of terminal can be handled: any that is too small for the god
/// view, and the others up to 65527 columns and 21848 rows.
pub proof fn terminals_that_fit(rows: u16, cols: u16)
    ensures
        terminal_fits(rows, cols) <==> rows < 24 || cols < 80 || (cols <= 65_527 && rows
            <= 21_848),
{
    let area = Rect { x: 0, y: 0, width: cols, height: rows };
    let tiles = default_layout(area).tiles;
    reveal_with_fuel(find_tile, 2);
    if rows >= 24 && cols >= 80 {
        assert(tiles.len() == 5);
    } else {
        assert(tiles.len() == 1);
    }
}

/// What can be handled when: the pointer always, a new size if it fits, all
/// else while there is time left for deadlines, and typing while there are ids
/// left, two for each byte and one more.
pub proof fn what_can_be_handled(
    m: AppModel,
    bytes: Vec<u8>,
    rows: u16,
    cols: u16,
    x: u16,
    y: u16,
    now: u64,
)
    ensures
        can_handle(m, AppEvent::MouseClick { x, y }, now),
        can_handle(m, AppEvent::MouseHover { x, y }, now),
        can_handle(m, AppEvent::Resize { rows, cols }, now) == terminal_fits(rows, cols),
        can_handle(m, AppEvent::Tick, now) <==> now + 30_000 <= u64::MAX && m.next_sub_id
            <= u64::MAX,
        can_handle(m, AppEvent::StdinChunk(bytes), now) <==> now + 30_000 <= u64::MAX
            && m.next_sub_id + 2 * (m.held_input.len() + bytes@.len()) + 1 <= u64::MAX,
{
}

} // verus!
