//! The daemon: what is made of its messages, and what of those that do not
//! belong anywhere.

use vstd::prelude::*;

use crate::docker::{DockerModel, DockerViewModel};
use crate::event::{ActionView, AppEvent, ToastKind};
use crate::logs::{LogLineView, LogsModel};
use crate::model::{AppModel, Step};
use crate::proto::{
    DockerActionKind, DockerActionOutcome, DockerActionResult, Envelope, ErrorKind, Event,
    EventFrame, Payload,
};

verus! {

/// An event goes to the tile that subscribed to it, and is dropped there
/// unless it is of that tile's kind.
pub proof fn events_of_another_kind_are_ignored(
    m: AppModel,
    sub: u64,
    event: Event,
    now: u64,
    after: Step,
)
    requires
        sub == m.pane_sub ==> !(event is PaneSnapshot) && !(event is PaneOutput)
            && !(event is PaneExit),
        sub != m.pane_sub && sub == m.docker.sub_id ==> !(event is ContainerList)
            && !(event is DockerUnavailable),
        sub != m.pane_sub && sub != m.docker.sub_id && m.docker.view is Logs
            && m.docker.view->Logs_0.sub_id == sub ==> !(event is ContainerLog)
            && !(event is DockerStreamEnded),
        sub != m.pane_sub && sub != m.docker.sub_id && !(m.docker.view is Logs
            && m.docker.view->Logs_0.sub_id == sub) && sub == m.ports.ports_sub_id
            ==> !(event is PortList) && !(event is PortsUnavailable),
        sub != m.pane_sub && sub != m.docker.sub_id && !(m.docker.view is Logs
            && m.docker.view->Logs_0.sub_id == sub) && sub != m.ports.ports_sub_id && sub
            == m.ports.processes_sub_id ==> !(event is ProcessList)
            && !(event is ProcessesUnavailable),
        sub != m.pane_sub && sub != m.docker.sub_id && !(m.docker.view is Logs
            && m.docker.view->Logs_0.sub_id == sub) && sub != m.ports.ports_sub_id && sub
            != m.ports.processes_sub_id && sub == m.fleet.sub_id ==> !(event is HostList)
            && !(event is HostStateChanged),
        m.leads_to(
            AppEvent::DaemonEnvelope(
                Envelope { payload: Payload::Event(EventFrame { subscription_id: sub, event }) },
            ),
            now,
            after,
        ),
    ensures
        after.app == m,
        after.actions.len() == 0,
{
    reveal(AppModel::event);
}

/// The end of a log stream is noted with its reason, and following ends.
pub proof fn the_end_of_a_log_is_noted(
    m: AppModel,
    logs: LogsModel,
    reason: String,
    now: u64,
    after: Step,
)
    requires
        m.docker.view == DockerViewModel::Logs(logs),
        logs.sub_id != m.pane_sub,
        logs.sub_id != m.docker.sub_id,
        logs.pending_stdout.len() == 0,
        logs.pending_stderr.len() == 0,
        logs.lines.len() <= 10_000,
        m.leads_to(
            AppEvent::DaemonEnvelope(
                Envelope {
                    payload: Payload::Event(
                        EventFrame {
                            subscription_id: logs.sub_id,
                            event: Event::DockerStreamEnded { reason },
                        },
                    ),
                },
            ),
            now,
            after,
        ),
    ensures
        after.actions == seq![ActionView::DrawFrame],
        after.app == (AppModel {
            docker: DockerModel {
                view: DockerViewModel::Logs(
                    LogsModel { at_tail: false, stream_ended: Some(reason@), ..logs },
                ),
                ..m.docker
            },
            ..m
        }),
{
    reveal(AppModel::event);
    let none = Seq::<u8>::empty();
    assert(logs.pending_stdout =~= none);
    assert(logs.pending_stderr =~= none);
    let lines = logs.lines;
    assert(lines + Seq::<LogLineView>::empty() =~= lines);
}

/// The outcome of an action that is not waited for is named by what was done
/// to which container.
pub proof fn late_outcomes_are_reported_too(
    m: AppModel,
    result: DockerActionResult,
    now: u64,
    after: Step,
)
    requires
        now + 30_000 <= u64::MAX,
        !m.pending.contains_key(result.request_id),
        m.leads_to(
            AppEvent::DaemonEnvelope(
                Envelope { payload: Payload::DockerActionResult(result) },
            ),
            now,
            after,
        ),
    ensures
        ({
            let verb = match result.kind {
                DockerActionKind::Start => "Start"@,
                DockerActionKind::Stop => "Stop"@,
                DockerActionKind::Restart => "Restart"@,
                DockerActionKind::Kill => "Kill"@,
                DockerActionKind::Remove => "Remove"@,
            };
            let name = verb + " "@ + result.container_id@;
            let (kind, message) = match result.outcome {
                DockerActionOutcome::Success => (ToastKind::Success, name + " — succeeded"@),
                DockerActionOutcome::Failure { reason } => (
                    ToastKind::Error,
                    name + " failed: "@ + reason@,
                ),
            };
            &&& after.actions == seq![
                ActionView::ShowToast { kind, message },
                ActionView::DrawFrame,
            ]
            &&& after.app.toasts.len() > 0
            &&& after.app.toasts.last().message == message
            &&& after.app.toasts.last().kind == kind
            &&& after.app == (AppModel { toasts: after.app.toasts, ..m })
        }),
{
    assert(m.pending.remove(result.request_id) =~= m.pending);
}

/// Messages that ask for nothing change nothing.
pub proof fn other_messages_change_nothing(
    m: AppModel,
    payload: Payload,
    now: u64,
    after: Step,
)
    requires
        !(payload is Event),
        !(payload is Error),
        !(payload is DockerActionResult),
        m.leads_to(AppEvent::DaemonEnvelope(Envelope { payload }), now, after),
    ensures
        after.app == m,
        after.actions.len() == 0,
{
}

/// Classes of errors go by their names.
pub proof fn error_classes_go_by_their_names(name: String)
    ensures
        ErrorKind::Internal.spec_name() == "Internal"@,
        (ErrorKind::Other { name }).spec_name() == name@,
{
}

} // verus!
