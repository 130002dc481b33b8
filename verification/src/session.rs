//! A session with the daemon: handshake, finding a pane, and what the runtime
//! does with the application's actions.

use vstd::prelude::*;

use crate::event::{ActionView, AppAction, AppEvent, DetachReason, ToastKind};
use crate::proto::{
    envelope, Envelope, ErrorInfo, OpenPaneSpec, PaneId, PaneInfo, Payload, Request, ScopeTarget,
};
use crate::text::{decimal, decimal_string};
use crate::tile::TileId;

verus! {

/// Milliseconds between redraw ticks.
pub const TICK_INTERVAL_MS: u64 = 33;

/// The name under which the client introduces itself.
pub open spec fn client_name() -> Seq<char> {
    "tepegoz-tui"@
}

/// The client's side of the handshake.
pub fn hello() -> (e: Envelope)
    ensures
        e@ == (Request::Hello { client_name: client_name() }),
{
    envelope(Payload::Hello { client_name: String::from_str("tepegoz-tui") })
}

/// An error of the daemon with its class.
pub open spec fn spec_error_text(e: ErrorInfo) -> Seq<char> {
    e.message@ + " ("@ + e.kind.spec_name() + ")"@
}

fn error_text(prefix: &str, e: &ErrorInfo) -> (r: String)
    ensures
        r@ == prefix@ + spec_error_text(*e),
{
    let r = String::from_str(prefix).concat(e.message.as_str()).concat(" (").concat(
        e.kind.name(),
    ).concat(")");
    assert(r@ =~= prefix@ + spec_error_text(*e));
    r
}

/// The text of a result that failed.
pub open spec fn error_of<T>(r: Result<T, String>) -> Seq<char> {
    match r {
        Ok(_) => Seq::empty(),
        Err(text) => text@,
    }
}

/// Checks the daemon's answer to [`hello`]. `shown` is the payload written
/// out, for the case that it is none of the expected ones.
pub fn check_welcome(payload: &Payload, shown: &str) -> (r: Result<(), String>)
    ensures
        r is Ok <==> payload is Welcome,
        r is Err ==> error_of(r) == (match *payload {
            Payload::Error(e) => "daemon refused handshake: "@ + spec_error_text(e),
            _ => "expected Welcome, got "@ + shown@,
        }),
{
    match payload {
        Payload::Welcome(_) => Ok(()),
        Payload::Error(e) => Err(error_text("daemon refused handshake: ", e)),
        _ => Err(String::from_str("expected Welcome, got ").concat(shown)),
    }
}

/// Asks for the daemon's panes.
pub fn list_panes() -> (e: Envelope)
    ensures
        e@ == Request::ListPanes,
{
    envelope(Payload::ListPanes)
}

/// The first pane whose process still runs.
pub open spec fn first_alive(panes: Seq<PaneInfo>) -> Option<PaneInfo>
    decreases panes.len(),
{
    if panes.len() == 0 {
        None
    } else {
        match first_alive(panes.drop_last()) {
            Some(pane) => Some(pane),
            None => if panes.last().alive {
                Some(panes.last())
            } else {
                None
            },
        }
    }
}

/// Picks the pane to attach to out of the daemon's answer to [`list_panes`].
/// `Ok(None)` means that one has to be opened.
pub fn pick_pane(payload: &Payload, shown: &str) -> (r: Result<Option<PaneInfo>, String>)
    ensures
        r is Ok <==> payload is PaneList,
        payload matches Payload::PaneList { panes } ==> r == Ok::<Option<PaneInfo>, String>(
            first_alive(panes@),
        ),
        r is Err ==> error_of(r) == "expected PaneList, got "@ + shown@,
{
    match payload {
        Payload::PaneList { panes } => {
            let n: usize = panes.len();
            let mut found: Option<PaneInfo> = None;
            let mut i: usize = 0;
            assert(panes@.take(0) =~= Seq::empty());
            while i < n
                invariant
                    n == panes@.len(),
                    0 <= i <= n,
                    found == first_alive(panes@.take(i as int)),
                decreases n - i,
            {
                assert(panes@.take(i + 1).drop_last() =~= panes@.take(i as int));
                if found.is_none() && panes[i].alive {
                    found = Some(PaneInfo { id: panes[i].id, alive: true });
                }
                i += 1;
            }
            assert(panes@.take(n as int) =~= panes@);
            Ok(found)
        },
        _ => Err(String::from_str("expected PaneList, got ").concat(shown)),
    }
}

/// A pane is picked if and only if one is alive, and it is one of the list.
pub proof fn a_living_pane_is_picked(panes: Seq<PaneInfo>)
    ensures
        first_alive(panes) is Some <==> exists|i: int|
            0 <= i < panes.len() && (#[trigger] panes[i]).alive,
        first_alive(panes) matches Some(pane) ==> pane.alive && panes.contains(pane),
    decreases panes.len(),
{
    if panes.len() > 0 {
        let shorter = panes.drop_last();
        a_living_pane_is_picked(shorter);
        assert forall|i: int| 0 <= i < shorter.len() implies shorter[i] == panes[i] by {}
        if first_alive(shorter) is Some {
            let i = choose|i: int| 0 <= i < shorter.len() && (#[trigger] shorter[i]).alive;
            assert(panes[i].alive);
            let j = choose|j: int| 0 <= j < shorter.len() && shorter[j] == first_alive(shorter)->0;
            assert(panes[j] == first_alive(shorter)->0);
        } else if panes.last().alive {
            assert(panes[panes.len() - 1].alive);
        } else {
            assert forall|i: int| 0 <= i < panes.len() implies !(#[trigger] panes[i]).alive by {
                if i < shorter.len() {
                    assert(!shorter[i].alive);
                }
            }
        }
    }
}

/// Asks for a new pane with the default shell in the directory `cwd`, on the
/// daemon's machine or on a host of the fleet.
pub fn open_pane(target: ScopeTarget, cwd: Option<String>, rows: u16, cols: u16) -> (e: Envelope)
    ensures
        e@ == (Request::OpenPane {
            target: match target {
                ScopeTarget::Local => None,
                ScopeTarget::Remote { alias } => Some(alias@),
            },
            cwd: match cwd {
                Some(cwd) => Some(cwd@),
                None => None,
            },
            rows,
            cols,
        }),
{
    envelope(
        Payload::OpenPane(
            OpenPaneSpec { target, shell: None, cwd, env: Vec::new(), rows, cols },
        ),
    )
}

/// Takes the new pane out of the daemon's answer to [`open_pane`].
pub fn opened_pane(payload: &Payload, shown: &str) -> (r: Result<PaneInfo, String>)
    ensures
        r is Ok <==> payload is PaneOpened,
        payload matches Payload::PaneOpened(pane) ==> r == Ok::<PaneInfo, String>(*pane),
        r is Err ==> error_of(r) == (match *payload {
            Payload::Error(e) => "open pane failed: "@ + spec_error_text(e),
            _ => "expected PaneOpened, got "@ + shown@,
        }),
{
    match payload {
        Payload::PaneOpened(pane) => Ok(PaneInfo { id: pane.id, alive: pane.alive }),
        Payload::Error(e) => Err(error_text("open pane failed: ", e)),
        _ => Err(String::from_str("expected PaneOpened, got ").concat(shown)),
    }
}

/// Columns and rows of the terminal, or a guess where it does not tell.
pub fn terminal_size_or_guess(size: Option<(u16, u16)>) -> (r: (u16, u16))
    ensures
        r == (match size {
            Some(size) => size,
            None => (120, 40),
        }),
{
    match size {
        Some(size) => size,
        None => (120, 40),
    }
}

/// The terminal's window title during a session.
pub fn session_title(pane: PaneId) -> (r: String)
    ensures
        r@ == "tepegoz · god view (pane "@ + decimal(pane as nat) + ")"@,
{
    String::from_str("tepegoz · god view (pane ").concat(decimal_string(pane).as_str()).concat(")")
}

/// The control sequence that sets the terminal's window title.
pub fn title_sequence(title: &str) -> (r: String)
    ensures
        r@ == "\x1b]0;"@ + title@ + "\x07"@,
{
    String::from_str("\x1b]0;").concat(title).concat("\x07")
}

/// Why a session ended.
#[derive(Debug)]
pub enum ExitReason {
    UserDetach,
    PaneExited { exit_code: Option<i32> },
    DaemonClosed(String),
    DaemonError(String),
    StdinClosed,
    StdinError(String),
    AppError(String),
}

/// [`ExitReason`] with its texts as sequences.
#[verifier::ext_equal]
pub ghost enum ExitView {
    UserDetach,
    PaneExited { exit_code: Option<i32> },
    DaemonClosed(Seq<char>),
    DaemonError(Seq<char>),
    StdinClosed,
    StdinError(Seq<char>),
    AppError(Seq<char>),
}

impl View for ExitReason {
    type V = ExitView;

    open spec fn view(&self) -> ExitView {
        match *self {
            ExitReason::UserDetach => ExitView::UserDetach,
            ExitReason::PaneExited { exit_code } => ExitView::PaneExited { exit_code },
            ExitReason::DaemonClosed(text) => ExitView::DaemonClosed(text@),
            ExitReason::DaemonError(text) => ExitView::DaemonError(text@),
            ExitReason::StdinClosed => ExitView::StdinClosed,
            ExitReason::StdinError(text) => ExitView::StdinError(text@),
            ExitReason::AppError(text) => ExitView::AppError(text@),
        }
    }
}

/// What the event loop woke up for.
#[derive(Debug)]
pub enum Wakeup {
    /// Bytes from stdin; none at its end.
    Stdin(Vec<u8>),
    StdinFailed(String),
    /// An envelope from the daemon.
    Received(Envelope),
    /// The daemon cannot be read any more.
    ReadFailed(String),
    /// The reader ended without a word.
    ReaderEnded,
    /// The terminal was resized.
    Winch { rows: u16, cols: u16 },
    Tick,
}

/// Turns a wakeup into an event for the application, or into the end of the
/// session.
pub fn wakeup_event(wakeup: Wakeup) -> (r: Result<AppEvent, ExitReason>)
    ensures
        match wakeup {
            Wakeup::Stdin(bytes) => if bytes@.len() == 0 {
                r is Err && (r->Err_0)@ == ExitView::StdinClosed
            } else {
                r == Ok::<AppEvent, ExitReason>(AppEvent::StdinChunk(bytes))
            },
            Wakeup::StdinFailed(why) => r is Err && (r->Err_0)@ == ExitView::StdinError(why@),
            Wakeup::Received(e) => r == Ok::<AppEvent, ExitReason>(AppEvent::DaemonEnvelope(e)),
            Wakeup::ReadFailed(why) => r is Err && (r->Err_0)@ == ExitView::DaemonClosed(why@),
            Wakeup::ReaderEnded => r is Err && (r->Err_0)@ == ExitView::DaemonClosed(
                "reader task ended"@,
            ),
            Wakeup::Winch { rows, cols } => r == Ok::<AppEvent, ExitReason>(
                AppEvent::Resize { rows, cols },
            ),
            Wakeup::Tick => r == Ok::<AppEvent, ExitReason>(AppEvent::Tick),
        },
{
    match wakeup {
        Wakeup::Stdin(bytes) => if bytes.len() == 0 {
            Err(ExitReason::StdinClosed)
        } else {
            Ok(AppEvent::StdinChunk(bytes))
        },
        Wakeup::StdinFailed(why) => Err(ExitReason::StdinError(why)),
        Wakeup::Received(e) => Ok(AppEvent::DaemonEnvelope(e)),
        Wakeup::ReadFailed(why) => Err(ExitReason::DaemonClosed(why)),
        Wakeup::ReaderEnded => Err(
            ExitReason::DaemonClosed(String::from_str("reader task ended")),
        ),
        Wakeup::Winch { rows, cols } => Ok(AppEvent::Resize { rows, cols }),
        Wakeup::Tick => Ok(AppEvent::Tick),
    }
}

/// What the runtime does for an action.
#[derive(Debug)]
pub enum Effect {
    Send(Envelope),
    Draw,
    /// Leave a trace of the focused tile.
    NoteFocus(TileId),
    /// Leave a trace of a toast, as a warning if it is an error.
    NoteToast { warn: bool, message: String },
    Leave(ExitReason),
}

/// [`Effect`] with its contents viewed.
#[verifier::ext_equal]
pub ghost enum EffectView {
    Send(Request),
    Draw,
    NoteFocus(TileId),
    NoteToast { warn: bool, message: Seq<char> },
    Leave(ExitView),
}

impl View for Effect {
    type V = EffectView;

    open spec fn view(&self) -> EffectView {
        match *self {
            Effect::Send(e) => EffectView::Send(e@),
            Effect::Draw => EffectView::Draw,
            Effect::NoteFocus(id) => EffectView::NoteFocus(id),
            Effect::NoteToast { warn, message } => EffectView::NoteToast { warn, message: message@ },
            Effect::Leave(reason) => EffectView::Leave(reason@),
        }
    }
}

/// The effect of an action.
pub open spec fn effect_of(action: ActionView) -> EffectView {
    match action {
        ActionView::Send(request) => EffectView::Send(request),
        ActionView::DrawFrame => EffectView::Draw,
        ActionView::FocusTile(id) => EffectView::NoteFocus(id),
        ActionView::Detach(DetachReason::User) => EffectView::Leave(ExitView::UserDetach),
        ActionView::Detach(DetachReason::PaneExited { exit_code }) => EffectView::Leave(
            ExitView::PaneExited { exit_code },
        ),
        ActionView::ShowToast { kind, message } => EffectView::NoteToast {
            warn: kind == ToastKind::Error,
            message,
        },
    }
}

/// Decides what the runtime does for an action.
pub fn action_effect(action: AppAction) -> (r: Effect)
    ensures
        r@ == effect_of(action@),
{
    match action {
        AppAction::SendEnvelope(e) => Effect::Send(e),
        AppAction::DrawFrame => Effect::Draw,
        AppAction::FocusTile(id) => Effect::NoteFocus(id),
        AppAction::Detach(DetachReason::User) => Effect::Leave(ExitReason::UserDetach),
        AppAction::Detach(DetachReason::PaneExited { exit_code }) => Effect::Leave(
            ExitReason::PaneExited { exit_code },
        ),
        AppAction::ShowToast { kind, message } => Effect::NoteToast {
            warn: kind == ToastKind::Error,
            message,
        },
    }
}

/// How the session ends when the daemon takes no more envelopes.
pub fn send_failure() -> (r: ExitReason)
    ensures
        r@ == ExitView::DaemonError("writer closed"@),
{
    ExitReason::DaemonError(String::from_str("writer closed"))
}

/// How the session ends when drawing fails.
pub fn draw_failure(why: &str) -> (r: ExitReason)
    ensures
        r@ == ExitView::AppError("ratatui draw: "@ + why@),
{
    ExitReason::AppError(String::from_str("ratatui draw: ").concat(why))
}

/// How the session ends when the resize signal cannot be watched.
pub fn signal_failure(why: &str) -> (r: ExitReason)
    ensures
        r@ == ExitView::AppError("signal install: "@ + why@),
{
    ExitReason::AppError(String::from_str("signal install: ").concat(why))
}

/// A whole number, with its sign if it is negative.
pub open spec fn signed_decimal(n: int) -> Seq<char> {
    if n < 0 {
        "-"@ + decimal((-n) as nat)
    } else {
        decimal(n as nat)
    }
}

/// An exit code, if there is one.
pub open spec fn exit_code_text(code: Option<i32>) -> Seq<char> {
    match code {
        Some(n) => "Some("@ + signed_decimal(n as int) + ")"@,
        None => "None"@,
    }
}

fn show_exit_code(code: Option<i32>) -> (r: String)
    ensures
        r@ == exit_code_text(code),
{
    match code {
        Some(n) => {
            let sign: &str = if n < 0 {
                "-"
            } else {
                ""
            };
            let size: u64 = if n < 0 {
                (-(n as i64)) as u64
            } else {
                n as u64
            };
            proof {
                reveal_strlit("");
            }
            let digits = String::from_str(sign).concat(decimal_string(size).as_str());
            assert(digits@ =~= signed_decimal(n as int));
            String::from_str("Some(").concat(digits.as_str()).concat(")")
        },
        None => String::from_str("None"),
    }
}

/// What a session says at its end.
pub open spec fn farewell(pane: PaneId, reason: ExitView) -> Seq<char> {
    "\n["@ + (match reason {
        ExitView::UserDetach => "detached — daemon and pane "@ + decimal(pane as nat)
            + " still running"@,
        ExitView::PaneExited { exit_code } => "pane "@ + decimal(pane as nat) + " exited (code="@
            + exit_code_text(exit_code) + ")"@,
        ExitView::DaemonClosed(text) => "daemon closed: "@ + text,
        ExitView::DaemonError(text) => "daemon write failed: "@ + text,
        ExitView::StdinClosed => "stdin closed — detaching"@,
        ExitView::StdinError(text) => "stdin error: "@ + text,
        ExitView::AppError(text) => "runtime error: "@ + text,
    }) + "]"@
}

/// Whether a session ended in an error, which is said on stderr.
pub open spec fn ends_in_error(reason: ExitView) -> bool {
    match reason {
        ExitView::UserDetach | ExitView::PaneExited { .. } | ExitView::StdinClosed => false,
        ExitView::DaemonClosed(_)
        | ExitView::DaemonError(_)
        | ExitView::StdinError(_)
        | ExitView::AppError(_) => true,
    }
}

/// What a session says at its end, and whether on stderr.
pub fn exit_message(pane: PaneId, reason: &ExitReason) -> (r: (String, bool))
    ensures
        r.0@ == farewell(pane, reason@),
        r.1 == ends_in_error(reason@),
{
    let number = decimal_string(pane);
    let (text, error) = match reason {
        ExitReason::UserDetach => (
            String::from_str("detached — daemon and pane ").concat(number.as_str()).concat(
                " still running",
            ),
            false,
        ),
        ExitReason::PaneExited { exit_code } => (
            String::from_str("pane ").concat(number.as_str()).concat(" exited (code=").concat(
                show_exit_code(*exit_code).as_str(),
            ).concat(")"),
            false,
        ),
        ExitReason::DaemonClosed(text) => (
            String::from_str("daemon closed: ").concat(text.as_str()),
            true,
        ),
        ExitReason::DaemonError(text) => (
            String::from_str("daemon write failed: ").concat(text.as_str()),
            true,
        ),
        ExitReason::StdinClosed => (String::from_str("stdin closed — detaching"), false),
        ExitReason::StdinError(text) => (
            String::from_str("stdin error: ").concat(text.as_str()),
            true,
        ),
        ExitReason::AppError(text) => (
            String::from_str("runtime error: ").concat(text.as_str()),
            true,
        ),
    };
    (String::from_str("\n[").concat(text.as_str()).concat("]"), error)
}

} // verus!
