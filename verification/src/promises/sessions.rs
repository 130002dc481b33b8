//! Sessions: how one begins, what it reports and how it ends.

use vstd::prelude::*;
use vstd::utf8::encode_utf8;

use crate::config::{log_path, path_in};
use crate::event::{ActionView, DetachReason, ToastKind};
use crate::proto::{ErrorInfo, Event, EventFrame, PaneInfo, Payload, Request, StatusSnapshot};
use crate::session::{
    client_name, effect_of, ends_in_error, farewell, first_alive, spec_error_text, EffectView,
    ExitView,
};
use crate::status::{link_next, LinkActionView, LinkEvent, LinkStage, NoticeView};
use crate::text::decimal;
use crate::tile::TileId;

verus! {

/// A session is resumed in the first pane whose process still runs, if there
/// is one.
pub proof fn the_first_living_pane_is_resumed(panes: Seq<PaneInfo>, i: int)
    ensures
        0 <= i < panes.len() && panes[i].alive && (forall|k: int|
            0 <= k < i ==> !(#[trigger] panes[k]).alive) ==> first_alive(panes) == Some(panes[i]),
        (forall|k: int| 0 <= k < panes.len() ==> !(#[trigger] panes[k]).alive) ==> first_alive(
            panes,
        ) is None,
    decreases panes.len(),
{
    if panes.len() > 0 {
        let front = panes.drop_last();
        the_first_living_pane_is_resumed(front, i);
        assert forall|k: int| 0 <= k < front.len() implies front[k] == panes[k] by {}
        if 0 <= i < panes.len() && panes[i].alive && (forall|k: int|
            0 <= k < i ==> !(#[trigger] panes[k]).alive) {
            if i == panes.len() - 1 {
                assert forall|k: int| 0 <= k < front.len() implies !(#[trigger] front[k]).alive by {
                    assert(front[k] == panes[k]);
                }
            }
        }
        if forall|k: int| 0 <= k < panes.len() ==> !(#[trigger] panes[k]).alive {
            assert forall|k: int| 0 <= k < front.len() implies !(#[trigger] front[k]).alive by {
                assert(front[k] == panes[k]);
            }
            assert(!panes[panes.len() - 1].alive);
        }
    }
}

/// Every action has its effect: what is to be sent is sent, frames are drawn,
/// and only the user's detaching or the end of the pane leaves the session.
pub proof fn actions_have_their_effects(
    request: Request,
    id: TileId,
    exit_code: Option<i32>,
    message: Seq<char>,
)
    ensures
        effect_of(ActionView::Send(request)) == EffectView::Send(request),
        effect_of(ActionView::DrawFrame) == EffectView::Draw,
        effect_of(ActionView::FocusTile(id)) == EffectView::NoteFocus(id),
        effect_of(ActionView::Detach(DetachReason::User)) == EffectView::Leave(
            ExitView::UserDetach,
        ),
        effect_of(ActionView::Detach(DetachReason::PaneExited { exit_code })) == EffectView::Leave(
            ExitView::PaneExited { exit_code },
        ),
        effect_of(ActionView::ShowToast { kind: ToastKind::Error, message }) == (
        EffectView::NoteToast { warn: true, message }),
        effect_of(ActionView::ShowToast { kind: ToastKind::Success, message }) == (
        EffectView::NoteToast { warn: false, message }),
        effect_of(ActionView::ShowToast { kind: ToastKind::Info, message }) == (
        EffectView::NoteToast { warn: false, message }),
{
}

/// What a session says at its end names the pane and the reason.
pub proof fn the_farewell_names_the_reason(pane: u64, n: i32, text: Seq<char>)
    ensures
        farewell(pane, ExitView::UserDetach) == "\n["@ + ("detached — daemon and pane "@ + decimal(
            pane as nat,
        ) + " still running"@) + "]"@,
        farewell(pane, ExitView::PaneExited { exit_code: None }) == "\n["@ + ("pane "@ + decimal(
            pane as nat,
        ) + " exited (code="@ + "None"@ + ")"@) + "]"@,
        n >= 0 ==> farewell(pane, ExitView::PaneExited { exit_code: Some(n) }) == "\n["@ + ("pane "@
            + decimal(pane as nat) + " exited (code="@ + ("Some("@ + decimal(n as nat) + ")"@)
            + ")"@) + "]"@,
        n < 0 ==> farewell(pane, ExitView::PaneExited { exit_code: Some(n) }) == "\n["@ + ("pane "@
            + decimal(pane as nat) + " exited (code="@ + ("Some("@ + ("-"@ + decimal(
            (-n) as nat,
        )) + ")"@) + ")"@) + "]"@,
        farewell(pane, ExitView::DaemonClosed(text)) == "\n["@ + ("daemon closed: "@ + text) + "]"@,
        farewell(pane, ExitView::DaemonError(text)) == "\n["@ + ("daemon write failed: "@ + text)
            + "]"@,
        farewell(pane, ExitView::StdinClosed) == "\n["@ + "stdin closed — detaching"@ + "]"@,
        farewell(pane, ExitView::StdinError(text)) == "\n["@ + ("stdin error: "@ + text) + "]"@,
        farewell(pane, ExitView::AppError(text)) == "\n["@ + ("runtime error: "@ + text) + "]"@,
{
}

/// Detaching, the end of the pane and the end of stdin are no errors; the
/// other ends are.
pub proof fn some_ends_are_errors(exit_code: Option<i32>, text: Seq<char>)
    ensures
        !ends_in_error(ExitView::UserDetach),
        !ends_in_error(ExitView::PaneExited { exit_code }),
        !ends_in_error(ExitView::StdinClosed),
        ends_in_error(ExitView::DaemonClosed(text)),
        ends_in_error(ExitView::DaemonError(text)),
        ends_in_error(ExitView::StdinError(text)),
        ends_in_error(ExitView::AppError(text)),
{
}

/// An error of the daemon is quoted with its class, and the client goes by one
/// name.
pub proof fn errors_are_quoted_with_their_class(e: ErrorInfo)
    ensures
        spec_error_text(e) == e.message@ + " ("@ + e.kind.spec_name() + ")"@,
        client_name() == "tepegoz-tui"@,
{
}

/// The conversation of the status view: connect, say hello, await the welcome,
/// subscribe, and then read snapshot after snapshot.
pub proof fn the_status_conversation_goes_on(
    payload: Payload,
    sub: u64,
    snapshot: StatusSnapshot,
)
    ensures
        link_next(LinkStage::Connecting, LinkEvent::Done) == (
            LinkStage::SayingHello,
            seq![LinkActionView::Write(Request::Hello { client_name: "tepegoz-tui"@ })],
        ),
        link_next(LinkStage::SayingHello, LinkEvent::Done) == (
            LinkStage::AwaitingWelcome,
            seq![LinkActionView::Read],
        ),
        link_next(LinkStage::AwaitingWelcome, LinkEvent::Received(payload)) == (
            LinkStage::Subscribing,
            seq![
                LinkActionView::Tell(NoticeView::Connected),
                LinkActionView::Write(Request::SubscribeStatus { id: 1 }),
            ],
        ),
        link_next(LinkStage::Subscribing, LinkEvent::Done) == (
            LinkStage::Listening,
            seq![LinkActionView::Read],
        ),
        link_next(
            LinkStage::Listening,
            LinkEvent::Received(
                Payload::Event(
                    EventFrame { subscription_id: sub, event: Event::Status(snapshot) },
                ),
            ),
        ) == (
            LinkStage::Listening,
            seq![LinkActionView::Tell(NoticeView::Status(snapshot)), LinkActionView::Read],
        ),
        !(payload is Event) ==> link_next(LinkStage::Listening, LinkEvent::Received(payload)) == (
            LinkStage::Listening,
            seq![LinkActionView::Read],
        ),
        link_next(LinkStage::Listening, LinkEvent::ListenerGone) == (
            LinkStage::Over,
            Seq::<LinkActionView>::empty(),
        ),
{
}

/// A failure ends the conversation, and the view is told at what it failed.
pub proof fn a_failure_ends_the_conversation(why: String, event: LinkEvent)
    ensures
        link_next(LinkStage::Connecting, LinkEvent::Failed(why)) == (
            LinkStage::Over,
            seq![LinkActionView::Tell(NoticeView::Lost("connect: "@ + why@))],
        ),
        link_next(LinkStage::SayingHello, LinkEvent::Failed(why)) == (
            LinkStage::Over,
            seq![LinkActionView::Tell(NoticeView::Lost("hello: "@ + why@))],
        ),
        link_next(LinkStage::AwaitingWelcome, LinkEvent::Failed(why)) == (
            LinkStage::Over,
            seq![LinkActionView::Tell(NoticeView::Lost("welcome: "@ + why@))],
        ),
        link_next(LinkStage::Subscribing, LinkEvent::Failed(why)) == (
            LinkStage::Over,
            seq![LinkActionView::Tell(NoticeView::Lost("subscribe: "@ + why@))],
        ),
        link_next(LinkStage::Listening, LinkEvent::Failed(why)) == (
            LinkStage::Over,
            seq![LinkActionView::Tell(NoticeView::Lost(""@ + why@))],
        ),
        link_next(LinkStage::Over, event) == (LinkStage::Over, Seq::<LinkActionView>::empty()),
{
}

/// A file's path is that of its directory, a slash and its name, with no
/// second slash where the directory ends in one.
pub proof fn paths_are_joined_by_one_slash(base: Seq<u8>, name: Seq<u8>)
    ensures
        base.len() == 0 ==> path_in(base, name) == name,
        base.len() > 0 && base.last() == 0x2f ==> path_in(base, name) == base + name,
        base.len() > 0 && base.last() != 0x2f ==> path_in(base, name) == base + seq![0x2fu8] + name,
{
    if base.len() == 0 {
        assert(base + name =~= name);
    } else if base.last() != 0x2f {
        assert(base.push(0x2fu8) =~= base + seq![0x2fu8]);
    }
}

/// The log is where the user says; otherwise it is `tepegoz/tui.log` in the
/// cache directory, which is `.cache` at home unless it is set, or in `/tmp`
/// where there is no home.
pub proof fn the_log_is_where_it_belongs(
    told: Seq<u8>,
    cache: Option<Seq<u8>>,
    home: Option<Seq<u8>>,
)
    ensures
        log_path(Some(told), cache, home) == told,
        cache is Some ==> log_path(None, cache, home) == path_in(
            path_in(cache->0, encode_utf8("tepegoz"@)),
            encode_utf8("tui.log"@),
        ),
        cache is None && home is Some ==> log_path(None, cache, home) == path_in(
            path_in(path_in(home->0, encode_utf8(".cache"@)), encode_utf8("tepegoz"@)),
            encode_utf8("tui.log"@),
        ),
        cache is None && home is None ==> log_path(None, cache, home) == path_in(
            path_in(encode_utf8("/tmp"@), encode_utf8("tepegoz"@)),
            encode_utf8("tui.log"@),
        ),
{
}

} // verus!
