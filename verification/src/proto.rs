//! What travels between the terminal client and its daemon, as the library
//! sees it. The wire format and the protocol version belong to whoever
//! sends and receives these values.

use vstd::prelude::*;

verus! {

/// Daemon-assigned pane number.
pub type PaneId = u64;

/// A published or exposed container port. `public_port` is `0` when the port
/// is not published.
#[derive(Debug, Clone)]
pub struct DockerPort {
    pub ip: String,
    pub private_port: u16,
    pub public_port: u16,
    pub protocol: String,
}

/// One container of the engine's list.
#[derive(Debug, Clone)]
pub struct DockerContainer {
    pub id: String,
    pub names: Vec<String>,
    pub image: String,
    pub image_id: String,
    pub command: String,
    pub created_unix_secs: i64,
    pub state: String,
    pub status: String,
    pub ports: Vec<DockerPort>,
    pub labels: Vec<(String, String)>,
}

/// A container lifecycle operation.
#[derive(Debug, Clone, Copy, PartialEq, Eq, Structural)]
pub enum DockerActionKind {
    Start,
    Stop,
    Restart,
    Kill,
    Remove,
}

/// Request for a lifecycle operation. The result repeats `request_id`.
#[derive(Debug, Clone)]
pub struct DockerActionRequest {
    pub request_id: u64,
    pub container_id: String,
    pub kind: DockerActionKind,
}

/// How a lifecycle operation ended.
#[derive(Debug, Clone)]
pub enum DockerActionOutcome {
    Success,
    Failure { reason: String },
}

/// Answer to a [`DockerActionRequest`].
#[derive(Debug, Clone)]
pub struct DockerActionResult {
    pub request_id: u64,
    pub container_id: String,
    pub kind: DockerActionKind,
    pub outcome: DockerActionOutcome,
}

/// Which of a container's output streams a chunk came from.
#[derive(Debug, Clone, Copy, PartialEq, Eq, Structural)]
pub enum LogStream {
    Stdout,
    Stderr,
}

/// A listening port.
#[derive(Debug, Clone)]
pub struct ProbePort {
    pub local_ip: String,
    pub local_port: u16,
    pub protocol: String,
    pub pid: u32,
    pub process_name: String,
    pub container_id: Option<String>,
    pub partial: bool,
}

/// A running process. `cpu_percent` is the percentage written with one
/// decimal, since it is only ever shown.
#[derive(Debug, Clone)]
pub struct ProbeProcess {
    pub pid: u32,
    pub parent_pid: u32,
    pub start_time_unix_secs: i64,
    pub command: String,
    pub cpu_percent: Option<String>,
    pub mem_bytes: u64,
    pub partial: bool,
}

/// A configured SSH host.
#[derive(Debug, Clone)]
pub struct HostEntry {
    pub alias: String,
    pub hostname: String,
    pub user: String,
    pub port: u16,
    pub identity_files: Vec<String>,
    pub proxy_jump: Option<String>,
}

/// Connection state of a fleet host.
#[derive(Debug, Clone, Copy, PartialEq, Eq, Structural)]
pub enum HostState {
    Disconnected,
    Connecting,
    Connected,
    Degraded,
    AuthFailed,
    HostKeyMismatch,
    AgentNotDeployed,
    AgentVersionMismatch,
}

/// A machine: the daemon's own, or a host of the fleet.
#[derive(Debug, Clone)]
pub enum ScopeTarget {
    Local,
    Remote { alias: String },
}

/// Class of a daemon error. Classes that the client treats alike are
/// carried by name.
#[derive(Debug, Clone)]
pub enum ErrorKind {
    Internal,
    Other { name: String },
}

impl ErrorKind {
    /// The class's name.
    pub open spec fn spec_name(self) -> Seq<char> {
        match self {
            ErrorKind::Internal => "Internal"@,
            ErrorKind::Other { name } => name@,
        }
    }

    /// The class's name.
    pub fn name(&self) -> (r: &str)
        ensures
            r@ == self.spec_name(),
    {
        match self {
            ErrorKind::Internal => "Internal",
            ErrorKind::Other { name } => name.as_str(),
        }
    }
}

/// An error reported by the daemon.
#[derive(Debug, Clone)]
pub struct ErrorInfo {
    pub kind: ErrorKind,
    pub message: String,
}

/// Periodic daemon self-report.
#[derive(Debug, Clone)]
pub struct StatusSnapshot {
    pub daemon_pid: u32,
    pub daemon_version: String,
    pub socket_path: String,
    pub uptime_seconds: u64,
    pub clients_now: u32,
    pub clients_total: u64,
    pub events_sent: u64,
}

/// A pane that the daemon owns.
#[derive(Debug, Clone)]
pub struct PaneInfo {
    pub id: PaneId,
    pub alive: bool,
}

/// Request for a new pane.
#[derive(Debug, Clone)]
pub struct OpenPaneSpec {
    /// The machine the pane's shell runs on.
    pub target: ScopeTarget,
    pub shell: Option<String>,
    pub cwd: Option<String>,
    pub env: Vec<(String, String)>,
    pub rows: u16,
    pub cols: u16,
}

/// The daemon's side of the handshake.
#[derive(Debug, Clone)]
pub struct Welcome {
    pub daemon_pid: u32,
    pub daemon_version: String,
    pub protocol_version: u32,
}

/// What a client can subscribe to. The id is the client's choice and comes
/// back with every event.
#[derive(Debug, Clone)]
pub enum Subscription {
    Status { id: u64 },
    Docker { id: u64 },
    DockerLogs { id: u64, container_id: String, follow: bool, tail_lines: u32 },
    Ports { id: u64 },
    Processes { id: u64 },
    Fleet { id: u64 },
}

/// Something that happened on a subscription.
#[derive(Debug, Clone)]
pub enum Event {
    Status(StatusSnapshot),
    PaneSnapshot { scrollback: Vec<u8>, rows: u16, cols: u16 },
    PaneOutput { data: Vec<u8> },
    PaneExit { exit_code: Option<i32> },
    PaneLagged { dropped: u64 },
    ContainerList { containers: Vec<DockerContainer>, engine_source: String },
    DockerUnavailable { reason: String },
    ContainerLog { stream: LogStream, data: Vec<u8> },
    DockerStreamEnded { reason: String },
    PortList { ports: Vec<ProbePort>, source: String },
    PortsUnavailable { reason: String },
    ProcessList { rows: Vec<ProbeProcess>, source: String },
    ProcessesUnavailable { reason: String },
    HostList { hosts: Vec<HostEntry>, source: String },
    HostStateChanged { alias: String, state: HostState },
    /// An event kind that the client does not act on.
    Unknown,
}

/// An event and the subscription it belongs to.
#[derive(Debug, Clone)]
pub struct EventFrame {
    pub subscription_id: u64,
    pub event: Event,
}

/// Body of an envelope.
#[derive(Debug, Clone)]
pub enum Payload {
    Hello { client_name: String },
    Welcome(Welcome),
    Pong,
    Error(ErrorInfo),
    ListPanes,
    PaneList { panes: Vec<PaneInfo> },
    OpenPane(OpenPaneSpec),
    PaneOpened(PaneInfo),
    AttachPane { pane_id: PaneId, subscription_id: u64 },
    ResizePane { pane_id: PaneId, rows: u16, cols: u16 },
    SendInput { pane_id: PaneId, data: Vec<u8> },
    Subscribe(Subscription),
    Unsubscribe { id: u64 },
    Event(EventFrame),
    DockerAction(DockerActionRequest),
    DockerActionResult(DockerActionResult),
    AgentHandshake { request_id: u64 },
    AgentHandshakeResponse {
        request_id: u64,
        version: u32,
        os: String,
        arch: String,
        capabilities: Vec<String>,
    },
    /// A payload kind that the client does not act on.
    Unknown,
}

/// One message in either direction.
#[derive(Debug, Clone)]
pub struct Envelope {
    pub payload: Payload,
}

/// A request that the client sends, with texts and bytes as sequences.
#[verifier::ext_equal]
pub ghost enum Request {
    Hello { client_name: Seq<char> },
    ListPanes,
    OpenPane { target: Option<Seq<char>>, cwd: Option<Seq<char>>, rows: u16, cols: u16 },
    AttachPane { pane_id: PaneId, subscription_id: u64 },
    ResizePane { pane_id: PaneId, rows: u16, cols: u16 },
    SendInput { pane_id: PaneId, data: Seq<u8> },
    SubscribeStatus { id: u64 },
    SubscribeDocker { id: u64 },
    SubscribeDockerLogs { id: u64, container_id: Seq<char>, follow: bool, tail_lines: u32 },
    SubscribePorts { id: u64 },
    SubscribeProcesses { id: u64 },
    SubscribeFleet { id: u64 },
    Unsubscribe { id: u64 },
    DockerAction { request_id: u64, container_id: Seq<char>, kind: DockerActionKind },
    AgentHandshake { request_id: u64 },
    /// Not a request that the client makes.
    Other,
}

impl View for Envelope {
    type V = Request;

    open spec fn view(&self) -> Request {
        match self.payload {
            Payload::Hello { client_name } => Request::Hello { client_name: client_name@ },
            Payload::ListPanes => Request::ListPanes,
            Payload::OpenPane(spec) => if spec.shell is None && spec.env@.len() == 0 {
                Request::OpenPane {
                    target: match spec.target {
                        ScopeTarget::Local => None,
                        ScopeTarget::Remote { alias } => Some(alias@),
                    },
                    cwd: match spec.cwd {
                        Some(cwd) => Some(cwd@),
                        None => None,
                    },
                    rows: spec.rows,
                    cols: spec.cols,
                }
            } else {
                Request::Other
            },
            Payload::AttachPane { pane_id, subscription_id } => Request::AttachPane {
                pane_id,
                subscription_id,
            },
            Payload::ResizePane { pane_id, rows, cols } => Request::ResizePane {
                pane_id,
                rows,
                cols,
            },
            Payload::SendInput { pane_id, data } => Request::SendInput { pane_id, data: data@ },
            Payload::Subscribe(Subscription::Status { id }) => Request::SubscribeStatus { id },
            Payload::Subscribe(Subscription::Docker { id }) => Request::SubscribeDocker { id },
            Payload::Subscribe(
                Subscription::DockerLogs { id, container_id, follow, tail_lines },
            ) => Request::SubscribeDockerLogs {
                id,
                container_id: container_id@,
                follow,
                tail_lines,
            },
            Payload::Subscribe(Subscription::Ports { id }) => Request::SubscribePorts { id },
            Payload::Subscribe(Subscription::Processes { id }) => Request::SubscribeProcesses {
                id,
            },
            Payload::Subscribe(Subscription::Fleet { id }) => Request::SubscribeFleet { id },
            Payload::Unsubscribe { id } => Request::Unsubscribe { id },
            Payload::DockerAction(req) => Request::DockerAction {
                request_id: req.request_id,
                container_id: req.container_id@,
                kind: req.kind,
            },
            Payload::AgentHandshake { request_id } => Request::AgentHandshake { request_id },
            _ => Request::Other,
        }
    }
}

/// The envelope that carries `payload`.
pub fn envelope(payload: Payload) -> (e: Envelope)
    ensures
        e.payload == payload,
{
    Envelope { payload }
}

/// The verb of a lifecycle operation.
pub open spec fn spec_action_verb(kind: DockerActionKind) -> Seq<char> {
    match kind {
        DockerActionKind::Start => "Start"@,
        DockerActionKind::Stop => "Stop"@,
        DockerActionKind::Restart => "Restart"@,
        DockerActionKind::Kill => "Kill"@,
        DockerActionKind::Remove => "Remove"@,
    }
}

/// The verb of a lifecycle operation, as toasts and prompts show it.
pub fn action_verb(kind: DockerActionKind) -> (r: &'static str)
    ensures
        r@ == spec_action_verb(kind),
{
    match kind {
        DockerActionKind::Start => "Start",
        DockerActionKind::Stop => "Stop",
        DockerActionKind::Restart => "Restart",
        DockerActionKind::Kill => "Kill",
        DockerActionKind::Remove => "Remove",
    }
}

} // verus!
