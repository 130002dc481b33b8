//! What goes into the application's state machine and what comes out.

use vstd::prelude::*;

use crate::proto::{Envelope, Request};
use crate::tile::TileId;

verus! {

/// Everything that can happen to the application.
#[derive(Debug)]
pub enum AppEvent {
    /// Raw bytes read from stdin.
    StdinChunk(Vec<u8>),
    /// An envelope from the daemon.
    DaemonEnvelope(Envelope),
    /// The terminal reports new dimensions.
    Resize { rows: u16, cols: u16 },
    /// Redraw tick.
    Tick,
    /// A pending request hit its deadline.
    PendingActionTimeout(u64),
    /// Left button pressed on a cell.
    MouseClick { x: u16, y: u16 },
    /// Pointer moved over a cell.
    MouseHover { x: u16, y: u16 },
}

/// Severity of a toast.
#[derive(Debug, Clone, Copy, PartialEq, Eq, Structural)]
pub enum ToastKind {
    Info,
    Success,
    Error,
}

/// Why the application asks to leave.
#[derive(Debug, Clone, PartialEq, Eq, Structural)]
pub enum DetachReason {
    /// `Ctrl-b d`.
    User,
    /// The pane's child process exited.
    PaneExited { exit_code: Option<i32> },
}

/// Side effects that the runtime carries out in order.
#[derive(Debug)]
pub enum AppAction {
    /// Send an envelope to the daemon.
    SendEnvelope(Envelope),
    /// Redraw the tile grid.
    DrawFrame,
    /// Focus moved to a tile.
    FocusTile(TileId),
    /// Leave the runtime loop.
    Detach(DetachReason),
    /// A toast was raised.
    ShowToast { kind: ToastKind, message: String },
}

/// [`AppAction`] with texts and bytes as sequences.
#[verifier::ext_equal]
pub ghost enum ActionView {
    Send(Request),
    DrawFrame,
    FocusTile(TileId),
    Detach(DetachReason),
    ShowToast { kind: ToastKind, message: Seq<char> },
}

impl View for AppAction {
    type V = ActionView;

    open spec fn view(&self) -> ActionView {
        match *self {
            AppAction::SendEnvelope(e) => ActionView::Send(e@),
            AppAction::DrawFrame => ActionView::DrawFrame,
            AppAction::FocusTile(id) => ActionView::FocusTile(id),
            AppAction::Detach(reason) => ActionView::Detach(reason),
            AppAction::ShowToast { kind, message } => ActionView::ShowToast {
                kind,
                message: message@,
            },
        }
    }
}

/// The views of a list of actions.
pub open spec fn actions_view(actions: Seq<AppAction>) -> Seq<ActionView> {
    actions.map_values(|a: AppAction| a@)
}

/// Pushing an action pushes its view.
pub broadcast proof fn actions_view_push(actions: Seq<AppAction>, a: AppAction)
    ensures
        #[trigger] actions_view(actions.push(a)) == actions_view(actions).push(a@),
{
    assert(actions_view(actions.push(a)) =~= actions_view(actions).push(a@));
}

} // verus!
