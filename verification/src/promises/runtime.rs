//! The runtime around the application: what its decisions come to.

use std::path::PathBuf;

use vstd::prelude::*;

use crate::config::{refuse_nesting, require_socket, resolve_socket_path};
use crate::event::AppEvent;
use crate::promises::sessions::the_first_living_pane_is_resumed;
use crate::proto::{Envelope, ErrorInfo, PaneInfo, Payload, Request, ScopeTarget};
use crate::session::{
    check_welcome, draw_failure, hello, list_panes, open_pane, opened_pane, pick_pane, send_failure,
    session_title, signal_failure, spec_error_text, terminal_size_or_guess, title_sequence,
    wakeup_event, ExitReason, ExitView, Wakeup,
};
use crate::status::{
    input_reaction, link_start, link_views, InputReaction, LinkAction, LinkActionView, LinkStage,
    NoticeView, Polled,
};
use crate::text::decimal;

verus! {

/// Every wakeup is an event for the application or the end of the session:
/// stdin ends it when it is empty or fails, the daemon when it cannot be read.
pub proof fn wakeups_are_events_or_the_end(
    bytes: Vec<u8>,
    why: String,
    e: Envelope,
    rows: u16,
    cols: u16,
    r: Result<AppEvent, ExitReason>,
)
    ensures
        call_ensures(wakeup_event, (Wakeup::Stdin(bytes),), r) ==> (bytes@.len() > 0 ==> r == Ok::<
            AppEvent,
            ExitReason,
        >(AppEvent::StdinChunk(bytes))) && (bytes@.len() == 0 ==> r is Err && (r->Err_0)@
            == ExitView::StdinClosed),
        call_ensures(wakeup_event, (Wakeup::StdinFailed(why),), r) ==> r is Err && (r->Err_0)@
            == ExitView::StdinError(why@),
        call_ensures(wakeup_event, (Wakeup::Received(e),), r) ==> r == Ok::<AppEvent, ExitReason>(
            AppEvent::DaemonEnvelope(e),
        ),
        call_ensures(wakeup_event, (Wakeup::ReadFailed(why),), r) ==> r is Err && (r->Err_0)@
            == ExitView::DaemonClosed(why@),
        call_ensures(wakeup_event, (Wakeup::ReaderEnded,), r) ==> r is Err && (r->Err_0)@
            == ExitView::DaemonClosed("reader task ended"@),
        call_ensures(wakeup_event, (Wakeup::Winch { rows, cols },), r) ==> r == Ok::<
            AppEvent,
            ExitReason,
        >(AppEvent::Resize { rows, cols }),
        call_ensures(wakeup_event, (Wakeup::Tick,), r) ==> r == Ok::<AppEvent, ExitReason>(
            AppEvent::Tick,
        ),
{
}

/// The handshake: the client says who it is, and only a welcome lets it in.
pub proof fn only_a_welcome_lets_the_client_in(
    greeting: Envelope,
    payload: Payload,
    info: ErrorInfo,
    shown: &str,
    r: Result<(), String>,
)
    ensures
        call_ensures(hello, (), greeting) ==> greeting@ == (Request::Hello {
            client_name: "tepegoz-tui"@,
        }),
        call_ensures(check_welcome, (&payload, shown), r) && payload is Welcome ==> r is Ok,
        call_ensures(check_welcome, (&payload, shown), r) && payload == Payload::Error(info)
            ==> r is Err && (r->Err_0)@ == "daemon refused handshake: "@ + spec_error_text(info),
        call_ensures(check_welcome, (&payload, shown), r) && !(payload is Welcome)
            && !(payload is Error) ==> r is Err && (r->Err_0)@ == "expected Welcome, got "@ + shown@,
{
}

/// Finding a pane: the panes are asked for, and only a list of panes is an
/// answer. A new one is opened where and in the size that was asked for.
pub proof fn panes_are_listed_or_opened(
    asked: Envelope,
    payload: Payload,
    panes: Vec<PaneInfo>,
    pane: PaneInfo,
    info: ErrorInfo,
    shown: &str,
    picked: Result<Option<PaneInfo>, String>,
    opened: Result<PaneInfo, String>,
    target: ScopeTarget,
    cwd: Option<String>,
    rows: u16,
    cols: u16,
)
    ensures
        call_ensures(list_panes, (), asked) ==> asked@ == Request::ListPanes,
        call_ensures(pick_pane, (&payload, shown), picked) && !(payload is PaneList)
            ==> picked is Err && (picked->Err_0)@ == "expected PaneList, got "@ + shown@,
        call_ensures(pick_pane, (&payload, shown), picked) && payload == (Payload::PaneList {
            panes,
        }) && panes@.len() == 0 ==> picked == Ok::<Option<PaneInfo>, String>(None),
        call_ensures(pick_pane, (&payload, shown), picked) && payload == (Payload::PaneList {
            panes,
        }) && panes@.len() > 0 && panes@[0].alive ==> picked == Ok::<Option<PaneInfo>, String>(
            Some(panes@[0]),
        ),
        call_ensures(opened_pane, (&payload, shown), opened) && payload == Payload::PaneOpened(pane)
            ==> opened == Ok::<PaneInfo, String>(pane),
        call_ensures(opened_pane, (&payload, shown), opened) && payload == Payload::Error(info)
            ==> opened is Err && (opened->Err_0)@ == "open pane failed: "@ + spec_error_text(info),
        call_ensures(opened_pane, (&payload, shown), opened) && !(payload is PaneOpened)
            && !(payload is Error) ==> opened is Err && (opened->Err_0)@
            == "expected PaneOpened, got "@ + shown@,
        call_ensures(open_pane, (target, cwd, rows, cols), asked) ==> asked@ is OpenPane
            && asked@->OpenPane_rows == rows && asked@->OpenPane_cols == cols && (target is Local
            <==> asked@->target is None) && (target is Remote ==> asked@->target->0
            == target->alias@) && (cwd is None <==> asked@->cwd is None) && (cwd is Some
            ==> asked@->cwd->0 == cwd->0@),
{
    if payload == (Payload::PaneList { panes }) && panes@.len() > 0 && panes@[0].alive {
        the_first_living_pane_is_resumed(panes@, 0);
    }
    if payload == (Payload::PaneList { panes }) && panes@.len() == 0 {
        the_first_living_pane_is_resumed(panes@, 0);
    }
}

/// The window's title names the pane; a terminal that does not tell its size
/// counts as 120 by 40.
pub proof fn the_window_is_named_after_the_pane(
    pane: u64,
    title: &str,
    named: String,
    sequence: String,
    size: Option<(u16, u16)>,
    taken: (u16, u16),
)
    ensures
        call_ensures(session_title, (pane,), named) ==> named@ == "tepegoz · god view (pane "@
            + decimal(pane as nat) + ")"@,
        call_ensures(title_sequence, (title,), sequence) ==> sequence@ == "\x1b]0;"@ + title@
            + "\x07"@,
        call_ensures(terminal_size_or_guess, (size,), taken) ==> (size is Some ==> taken == size->0)
            && (size is None ==> taken == (120u16, 40u16)),
{
}

/// Failures of the runtime end the session with their reason.
pub proof fn failures_end_the_session(why: &str, r: ExitReason)
    ensures
        call_ensures(send_failure, (), r) ==> r@ == ExitView::DaemonError("writer closed"@),
        call_ensures(draw_failure, (why,), r) ==> r@ == ExitView::AppError("ratatui draw: "@ + why@),
        call_ensures(signal_failure, (why,), r) ==> r@ == ExitView::AppError(
            "signal install: "@ + why@,
        ),
{
}

/// The status view begins by connecting, and says so.
pub proof fn the_status_view_begins_by_connecting(r: (LinkStage, Vec<LinkAction>))
    ensures
        call_ensures(link_start, (), r) ==> r.0 == LinkStage::Connecting && link_views(r.1@)
            == seq![LinkActionView::Tell(NoticeView::Connecting), LinkActionView::Connect],
{
}

/// The input loop passes keys on, redraws for a new size, and stops when
/// nobody listens or polling fails.
pub proof fn the_input_loop_stops_when_nobody_listens(gone: bool, r: InputReaction)
    ensures
        call_ensures(input_reaction, (Polled::KeyPress, gone), r) ==> r == InputReaction::PassKey,
        call_ensures(input_reaction, (Polled::Resized, gone), r) ==> r == InputReaction::Redraw,
        call_ensures(input_reaction, (Polled::Other, gone), r) ==> r == InputReaction::GoOn,
        call_ensures(input_reaction, (Polled::Nothing, false), r) ==> r == InputReaction::GoOn,
        call_ensures(input_reaction, (Polled::Nothing, true), r) ==> r == InputReaction::Stop,
        call_ensures(input_reaction, (Polled::Failed, gone), r) ==> r == InputReaction::Stop,
{
}

/// A socket that was named is used, otherwise the default; the client does not
/// run inside one of its own panes, nor without the daemon's socket.
pub proof fn the_client_starts_only_where_it_can(
    told: PathBuf,
    usual: PathBuf,
    path: PathBuf,
    pane: &str,
    shown: &str,
    r: Result<(), String>,
)
    ensures
        call_ensures(resolve_socket_path, (Some(told), usual), path) ==> path == told,
        call_ensures(resolve_socket_path, (None::<PathBuf>, usual), path) ==> path == usual,
        call_ensures(refuse_nesting, (None::<&str>,), r) ==> r is Ok,
        call_ensures(refuse_nesting, (Some(pane),), r) ==> r is Err && (r->Err_0)@
            == "this shell is already inside tepegoz pane "@ + pane@
            + ". Detach first (Ctrl-b d) and run `tepegoz tui` from your outer terminal."@,
        call_ensures(require_socket, (shown, true), r) ==> r is Ok,
        call_ensures(require_socket, (shown, false), r) ==> r is Err && (r->Err_0)@
            == "no daemon socket at "@ + shown@ + " — is `tepegoz daemon` running?"@,
{
}

} // verus!
