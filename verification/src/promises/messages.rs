//! Messages: what an envelope stands for, and what an action carries.

use vstd::prelude::*;

use crate::event::{ActionView, AppAction, DetachReason, ToastKind};
use crate::proto::{
    spec_action_verb, DockerActionKind, DockerActionRequest, Envelope, OpenPaneSpec, Payload,
    Request, ScopeTarget, Subscription,
};
use crate::tile::TileId;

verus! {

/// An envelope for a pane asks for what its payload says, field by field.
pub proof fn pane_requests_say_what_they_carry(
    pane: u64,
    sub: u64,
    rows: u16,
    cols: u16,
    data: Vec<u8>,
    name: String,
)
    ensures
        (Envelope { payload: Payload::Hello { client_name: name } })@ == (Request::Hello {
            client_name: name@,
        }),
        (Envelope { payload: Payload::ListPanes })@ == Request::ListPanes,
        (Envelope { payload: Payload::AttachPane { pane_id: pane, subscription_id: sub } })@ == (
        Request::AttachPane { pane_id: pane, subscription_id: sub }),
        (Envelope { payload: Payload::ResizePane { pane_id: pane, rows, cols } })@ == (
        Request::ResizePane { pane_id: pane, rows, cols }),
        (Envelope { payload: Payload::SendInput { pane_id: pane, data } })@ == (
        Request::SendInput { pane_id: pane, data: data@ }),
{
}

/// A pane is opened where the request says, with the size that it says.
pub proof fn opened_panes_are_where_they_were_asked_for(
    spec: OpenPaneSpec,
    alias: String,
    cwd: String,
)
    requires
        spec.shell is None,
        spec.env@.len() == 0,
    ensures
        spec.target == ScopeTarget::Local && spec.cwd is None ==> (Envelope {
            payload: Payload::OpenPane(spec),
        })@ == (Request::OpenPane { target: None, cwd: None, rows: spec.rows, cols: spec.cols }),
        spec.target == (ScopeTarget::Remote { alias }) && spec.cwd is None ==> (Envelope {
            payload: Payload::OpenPane(spec),
        })@ == (Request::OpenPane {
            target: Some(alias@),
            cwd: None,
            rows: spec.rows,
            cols: spec.cols,
        }),
        spec.target == ScopeTarget::Local && spec.cwd == Some(cwd) ==> (Envelope {
            payload: Payload::OpenPane(spec),
        })@ == (Request::OpenPane {
            target: None,
            cwd: Some(cwd@),
            rows: spec.rows,
            cols: spec.cols,
        }),
{
}

/// A subscription is to what its payload says, under its id.
pub proof fn subscriptions_say_what_they_are_to(
    id: u64,
    container: String,
    follow: bool,
    tail: u32,
)
    ensures
        (Envelope { payload: Payload::Subscribe(Subscription::Status { id }) })@ == (
        Request::SubscribeStatus { id }),
        (Envelope { payload: Payload::Subscribe(Subscription::Docker { id }) })@ == (
        Request::SubscribeDocker { id }),
        (Envelope { payload: Payload::Subscribe(Subscription::Ports { id }) })@ == (
        Request::SubscribePorts { id }),
        (Envelope { payload: Payload::Subscribe(Subscription::Processes { id }) })@ == (
        Request::SubscribeProcesses { id }),
        (Envelope { payload: Payload::Subscribe(Subscription::Fleet { id }) })@ == (
        Request::SubscribeFleet { id }),
        (Envelope {
            payload: Payload::Subscribe(
                Subscription::DockerLogs {
                    id,
                    container_id: container,
                    follow,
                    tail_lines: tail,
                },
            ),
        })@ == (Request::SubscribeDockerLogs {
            id,
            container_id: container@,
            follow,
            tail_lines: tail,
        }),
        (Envelope { payload: Payload::Unsubscribe { id } })@ == (Request::Unsubscribe { id }),
{
}

/// An operation on a container is the one asked for, on the container asked
/// for.
pub proof fn container_requests_say_what_they_carry(req: DockerActionRequest, id: u64)
    ensures
        (Envelope { payload: Payload::DockerAction(req) })@ == (Request::DockerAction {
            request_id: req.request_id,
            container_id: req.container_id@,
            kind: req.kind,
        }),
        (Envelope { payload: Payload::AgentHandshake { request_id: id } })@ == (
        Request::AgentHandshake { request_id: id }),
{
}

/// An action is seen as what it carries.
pub proof fn actions_are_what_they_carry(
    e: Envelope,
    id: TileId,
    reason: DetachReason,
    kind: ToastKind,
    message: String,
)
    ensures
        AppAction::SendEnvelope(e)@ == ActionView::Send(e@),
        AppAction::DrawFrame@ == ActionView::DrawFrame,
        AppAction::FocusTile(id)@ == ActionView::FocusTile(id),
        AppAction::Detach(reason)@ == ActionView::Detach(reason),
        (AppAction::ShowToast { kind, message })@ == (ActionView::ShowToast {
            kind,
            message: message@,
        }),
{
}

/// Operations go by their names.
pub proof fn operations_go_by_their_names()
    ensures
        spec_action_verb(DockerActionKind::Start) == "Start"@,
        spec_action_verb(DockerActionKind::Stop) == "Stop"@,
        spec_action_verb(DockerActionKind::Restart) == "Restart"@,
        spec_action_verb(DockerActionKind::Kill) == "Kill"@,
        spec_action_verb(DockerActionKind::Remove) == "Remove"@,
{
}

} // verus!
