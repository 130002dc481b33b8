//! What the application does, as mathematics.
//!
//! [`AppModel`] is the application's state and [`Step`] what an event makes
//! of it: the state after, and the actions asked for. Times are in
//! milliseconds on a clock of the caller's choice.

use vstd::prelude::*;

use crate::docker::{
    spec_display_name, ConfirmModel, DockerModel, DockerScopeState, DockerViewModel,
};
use crate::event::{ActionView, AppEvent, DetachReason, ToastKind};
use crate::fleet::FleetModel;
use crate::geometry::{FocusDir, Rect};
use crate::input::{filter_chunk, held_across, InputActionView, CSI_OPEN, ESC, TAB};
use crate::keys::{read_keys, ScopeKey};
use crate::list::{edit_filter, list_step, navigate, Cursor, FilterEdit};
use crate::logs::{LogsModel, LOGS_PAGE_LINES};
use crate::ports::{PortsScopeModel, PortsViewState, ProcessesViewState};
use crate::proto::{
    spec_action_verb, DockerActionKind, DockerActionOutcome, Envelope, Event, EventFrame, Payload,
    Request,
};
use crate::pty::{pty_takes, pty_usable, pty_whole, usable_size, PtyInput};
use crate::tile::{
    default_layout, find_tile, layout_fits, scope_of, ScopeKind, TileId, TileLayoutView,
};

verus! {

/// Most toasts shown at once. One more drops the oldest.
pub const MAX_TOASTS: usize = 3;

/// How long a success toast stays.
pub const TOAST_SUCCESS_MS: u64 = 3_000;

/// How long an error toast stays; there is more to read.
pub const TOAST_ERROR_MS: u64 = 8_000;

/// How long a neutral toast stays.
pub const TOAST_INFO_MS: u64 = 4_000;

/// How long a container action may go unanswered.
pub const PENDING_ACTION_TIMEOUT_MS: u64 = 30_000;

/// How long a confirm prompt waits.
pub const PENDING_CONFIRM_TIMEOUT_MS: u64 = 10_000;

/// Rows of scrollback behind the pty.
pub const VT100_SCROLLBACK_ROWS: usize = 1000;

/// Pty size while the pty tile is not shown.
pub const FALLBACK_PTY_ROWS: u16 = 24;

pub const FALLBACK_PTY_COLS: u16 = 80;

/// A container action that was sent and not answered.
#[verifier::ext_equal]
pub ghost struct PendingModel {
    pub deadline: u64,
    pub description: Seq<char>,
}

/// A toast on the screen.
#[verifier::ext_equal]
pub ghost struct ToastModel {
    pub kind: ToastKind,
    pub message: Seq<char>,
    pub expires_at: u64,
}

/// The application's state.
#[verifier::ext_equal]
pub ghost struct AppModel {
    pub layout: TileLayoutView,
    pub focused: TileId,
    pub hovered: Option<TileId>,
    pub pane: u64,
    pub pane_sub: u64,
    pub pty: Seq<PtyInput>,
    pub docker: DockerModel,
    pub ports: PortsScopeModel,
    pub fleet: FleetModel,
    pub terminal_size: (u16, u16),
    pub next_sub_id: u64,
    pub pending: Map<u64, PendingModel>,
    pub toasts: Seq<ToastModel>,
    pub held_input: Seq<u8>,
    pub held_keys: Seq<u8>,
}

/// A state, and the actions asked for on the way to it.
#[verifier::ext_equal]
pub ghost struct Step {
    pub app: AppModel,
    pub actions: Seq<ActionView>,
}

/// Nothing happens.
pub open spec fn stay(m: AppModel) -> Step {
    Step { app: m, actions: Seq::empty() }
}

/// The state changes and the screen is redrawn.
pub open spec fn redrawn(m: AppModel) -> Step {
    Step { app: m, actions: seq![ActionView::DrawFrame] }
}

/// Size of the pty: that of its tile, or a fallback while there is none.
pub open spec fn spec_pty_tile_dims(layout: TileLayoutView) -> (u16, u16) {
    match find_tile(layout.tiles, TileId::Pty) {
        Some(t) => (
            if t.rect.height < 1 { 1 } else { t.rect.height },
            if t.rect.width < 1 { 1 } else { t.rect.width },
        ),
        None => (FALLBACK_PTY_ROWS, FALLBACK_PTY_COLS),
    }
}

/// The whole terminal.
pub open spec fn terminal_area(rows: u16, cols: u16) -> Rect {
    Rect { x: 0, y: 0, width: cols, height: rows }
}

/// A terminal of this size can be laid out, and its pty be emulated.
pub open spec fn terminal_fits(rows: u16, cols: u16) -> bool {
    let area = terminal_area(rows, cols);
    let (pty_rows, pty_cols) = spec_pty_tile_dims(default_layout(area));
    layout_fits(area) && usable_size(pty_rows, pty_cols)
}

/// How long a toast stays.
pub open spec fn toast_ms(kind: ToastKind) -> u64 {
    match kind {
        ToastKind::Success => TOAST_SUCCESS_MS,
        ToastKind::Error => TOAST_ERROR_MS,
        ToastKind::Info => TOAST_INFO_MS,
    }
}

/// What a pending action is called.
pub open spec fn action_description(kind: DockerActionKind, name: Seq<char>) -> Seq<char> {
    spec_action_verb(kind) + " "@ + name
}

impl AppModel {
    /// What every operation keeps.
    pub open spec fn wf(self) -> bool {
        &&& self.layout.edges_fit()
        &&& self.docker.wf()
        &&& pty_usable(self.pty)
        &&& self.toasts.len() <= MAX_TOASTS
        &&& self.held_input.len() == 0 || held_across(self.held_input)
    }

    /// Deadlines and the next `n` ids can be computed in 64 bits.
    pub open spec fn has_room(self, now: u64, n: nat) -> bool {
        &&& now + PENDING_ACTION_TIMEOUT_MS <= u64::MAX
        &&& self.next_sub_id + n <= u64::MAX
    }

    /// The focused tile sends its input to the pty.
    pub open spec fn pty_focused(self) -> bool {
        match find_tile(self.layout.tiles, self.focused) {
            Some(t) => t.kind is Pty,
            None => false,
        }
    }

    /// The scope that the focused tile sends its input to.
    pub open spec fn focused_scope(self) -> Option<ScopeKind> {
        match find_tile(self.layout.tiles, self.focused) {
            Some(t) => scope_of(t.kind),
            None => None,
        }
    }

    // Focus.

    /// Focus goes to `next`. Leaving the Docker tile cancels its prompt.
    pub open spec fn focus_to(self, next: TileId) -> Step {
        if next == self.focused {
            stay(self)
        } else {
            let docker = if self.focused == TileId::Docker {
                DockerModel { confirm: None, ..self.docker }
            } else {
                self.docker
            };
            Step {
                app: AppModel { docker, focused: next, ..self },
                actions: seq![ActionView::FocusTile(next), ActionView::DrawFrame],
            }
        }
    }

    /// Focus goes to a tile, if there is one.
    pub open spec fn focus_if(self, next: Option<TileId>) -> Step {
        match next {
            Some(id) => self.focus_to(id),
            None => stay(self),
        }
    }

    /// Focus moves in a direction.
    pub open spec fn focus_direction(self, dir: FocusDir) -> Step {
        self.focus_if(self.layout.next_focus(self.focused, dir))
    }

    /// `Tab` and `Shift-Tab`: the next or previous tile; but with the pty
    /// focused the key belongs to the shell.
    pub open spec fn focus_cycle(self, forward: bool) -> Step {
        if self.pty_focused() {
            self.send_input(if forward { seq![TAB] } else { seq![ESC, CSI_OPEN, 0x5au8] })
        } else {
            self.focus_if(self.layout.cycle_focus(self.focused, forward))
        }
    }

    // Toasts and pending actions.

    /// A toast is raised; the oldest gives way if there are too many.
    pub open spec fn push_toast(self, now: u64, kind: ToastKind, message: Seq<char>) -> Step {
        let kept = if self.toasts.len() >= MAX_TOASTS {
            self.toasts.drop_first()
        } else {
            self.toasts
        };
        Step {
            app: AppModel {
                toasts: kept.push(
                    ToastModel { kind, message, expires_at: (now + toast_ms(kind)) as u64 },
                ),
                ..self
            },
            actions: seq![ActionView::ShowToast { kind, message }, ActionView::DrawFrame],
        }
    }

    /// A pending action is given up, with a toast.
    pub open spec fn expire_pending(self, now: u64, id: u64) -> Step {
        if self.pending.contains_key(id) {
            AppModel { pending: self.pending.remove(id), ..self }.push_toast(
                now,
                ToastKind::Error,
                self.pending[id].description + " timed out — check engine"@,
            )
        } else {
            stay(self)
        }
    }

    /// Pending actions are given up one after the other.
    pub open spec fn expire_each(self, now: u64, ids: Seq<u64>) -> Step
        decreases ids.len(),
    {
        if ids.len() == 0 {
            stay(self)
        } else {
            let before = self.expire_each(now, ids.drop_last());
            let last = before.app.expire_pending(now, ids.last());
            Step { app: last.app, actions: before.actions + last.actions }
        }
    }

    /// `id` is a pending action past its deadline.
    pub open spec fn is_overdue(self, now: u64, id: u64) -> bool {
        self.pending.contains_key(id) && now >= self.pending[id].deadline
    }

    /// `ids` are the overdue actions, each once, in some order.
    pub open spec fn lists_overdue(self, now: u64, ids: Seq<u64>) -> bool {
        &&& ids.no_duplicates()
        &&& forall|id: u64| #[trigger] ids.contains(id) <==> self.is_overdue(now, id)
    }

    /// The confirm prompt is dropped if its time is up.
    pub open spec fn drop_stale_confirm(self, now: u64) -> AppModel {
        match self.docker.confirm {
            Some(confirm) => if now >= confirm.deadline {
                AppModel { docker: DockerModel { confirm: None, ..self.docker }, ..self }
            } else {
                self
            },
            None => self,
        }
    }

    /// Toasts past their time are dropped.
    pub open spec fn drop_stale_toasts(self, now: u64) -> AppModel {
        AppModel { toasts: self.toasts.filter(|t: ToastModel| now < t.expires_at), ..self }
    }

    /// The sweep, with the overdue actions in the order `ids`.
    pub open spec fn sweep(self, now: u64, ids: Seq<u64>) -> Step {
        let swept = self.drop_stale_confirm(now).expire_each(now, ids);
        Step { app: swept.app.drop_stale_toasts(now), actions: swept.actions }
    }

    // The Docker tile.

    /// A container action is sent and remembered.
    pub open spec fn dispatch(
        self,
        container_id: Seq<char>,
        name: Seq<char>,
        kind: DockerActionKind,
        now: u64,
    ) -> Step {
        let request_id = self.next_sub_id;
        Step {
            app: AppModel {
                next_sub_id: (self.next_sub_id + 1) as u64,
                pending: self.pending.insert(
                    request_id,
                    PendingModel {
                        deadline: (now + PENDING_ACTION_TIMEOUT_MS) as u64,
                        description: action_description(kind, name),
                    },
                ),
                ..self
            },
            actions: seq![
                ActionView::Send(Request::DockerAction { request_id, container_id, kind }),
                ActionView::DrawFrame,
            ],
        }
    }

    /// An action on the selected container, if there is one.
    pub open spec fn issue(self, kind: DockerActionKind, now: u64) -> Step {
        match self.docker.selected() {
            Some(c) => self.dispatch(c.id@, spec_display_name(c), kind, now),
            None => stay(self),
        }
    }

    /// A prompt before an action on the selected container, if there is one.
    pub open spec fn begin_confirm(self, kind: DockerActionKind, now: u64) -> Step {
        match self.docker.selected() {
            Some(c) => redrawn(
                AppModel {
                    docker: DockerModel {
                        confirm: Some(
                            ConfirmModel {
                                kind,
                                container_id: c.id@,
                                container_name: spec_display_name(c),
                                deadline: (now + PENDING_CONFIRM_TIMEOUT_MS) as u64,
                            },
                        ),
                        ..self.docker
                    },
                    ..self
                },
            ),
            None => stay(self),
        }
    }

    /// The selected container's log stream is opened, with all its history.
    pub open spec fn enter_logs(self) -> Step {
        match self.docker.selected() {
            Some(c) => Step {
                app: AppModel {
                    next_sub_id: (self.next_sub_id + 1) as u64,
                    docker: DockerModel {
                        view: DockerViewModel::Logs(
                            LogsModel::open(c.id@, spec_display_name(c), self.next_sub_id),
                        ),
                        ..self.docker
                    },
                    ..self
                },
                actions: seq![
                    ActionView::Send(
                        Request::SubscribeDockerLogs {
                            id: self.next_sub_id,
                            container_id: c.id@,
                            follow: true,
                            tail_lines: 0,
                        },
                    ),
                    ActionView::DrawFrame,
                ],
            },
            None => stay(self),
        }
    }

    /// The transcript changes.
    pub open spec fn with_logs(self, logs: LogsModel) -> AppModel {
        AppModel {
            docker: DockerModel { view: DockerViewModel::Logs(logs), ..self.docker },
            ..self
        }
    }

    /// A key in the logs view: scrolling, or leaving.
    pub open spec fn logs_key(self, logs: LogsModel, key: ScopeKey) -> Step {
        match key {
            ScopeKey::Escape | ScopeKey::Char(0x71) => Step {
                app: AppModel {
                    docker: DockerModel { view: DockerViewModel::List, ..self.docker },
                    ..self
                },
                actions: seq![
                    ActionView::Send(Request::Unsubscribe { id: logs.sub_id }),
                    ActionView::DrawFrame,
                ],
            },
            ScopeKey::Up | ScopeKey::Char(0x6b) => redrawn(self.with_logs(logs.scroll_up(1))),
            ScopeKey::Down | ScopeKey::Char(0x6a) => redrawn(self.with_logs(logs.scroll_down(1))),
            ScopeKey::PgUp => redrawn(self.with_logs(logs.scroll_up(LOGS_PAGE_LINES as int))),
            ScopeKey::PgDn => redrawn(self.with_logs(logs.scroll_down(LOGS_PAGE_LINES as int))),
            ScopeKey::Char(0x47) | ScopeKey::Bottom | ScopeKey::End => redrawn(
                self.with_logs(logs.jump_to_tail()),
            ),
            _ => stay(self),
        }
    }

    /// A key at a confirm prompt: `y` goes ahead, a destructive key is
    /// absorbed so that it cannot switch the target, anything else cancels.
    pub open spec fn confirm_key(self, confirm: ConfirmModel, key: ScopeKey, now: u64) -> Step {
        let cleared = AppModel { docker: DockerModel { confirm: None, ..self.docker }, ..self };
        match key {
            ScopeKey::Char(0x79) | ScopeKey::Char(0x59) => cleared.dispatch(
                confirm.container_id,
                confirm.container_name,
                confirm.kind,
                now,
            ),
            ScopeKey::Char(0x4b) | ScopeKey::Char(0x58) => stay(self),
            _ => redrawn(cleared),
        }
    }

    /// A key in the container list outside the filter.
    pub open spec fn container_key(self, key: ScopeKey, now: u64) -> Step {
        match navigate(self.docker.cursor, self.docker.shown().len(), key) {
            Some(cursor) => redrawn(
                AppModel { docker: DockerModel { cursor, ..self.docker }, ..self },
            ),
            None => match key {
                ScopeKey::Char(0x72) => self.issue(DockerActionKind::Restart, now),
                ScopeKey::Char(0x73) => self.issue(DockerActionKind::Stop, now),
                ScopeKey::Char(0x4b) => self.begin_confirm(DockerActionKind::Kill, now),
                ScopeKey::Char(0x58) => self.begin_confirm(DockerActionKind::Remove, now),
                ScopeKey::Char(0x6c) => self.enter_logs(),
                _ => stay(self),
            },
        }
    }

    /// A key in the container list's filter.
    pub open spec fn container_filter_key(self, key: ScopeKey) -> Step {
        match edit_filter(self.docker.cursor.filter, key) {
            FilterEdit::Ignored => stay(self),
            FilterEdit::Accepted => redrawn(
                AppModel {
                    docker: DockerModel {
                        cursor: Cursor { filter_active: false, ..self.docker.cursor },
                        ..self.docker
                    },
                    ..self
                },
            ),
            FilterEdit::Changed { filter, filter_active } => redrawn(
                AppModel {
                    docker: DockerModel {
                        cursor: Cursor { filter, filter_active, ..self.docker.cursor },
                        ..self.docker
                    }.clamped(),
                    ..self
                },
            ),
        }
    }

    /// A key in the Docker tile.
    pub open spec fn docker_key(self, key: ScopeKey, now: u64) -> Step {
        match self.docker.view {
            DockerViewModel::Logs(logs) => self.logs_key(logs, key),
            DockerViewModel::List => match self.docker.confirm {
                Some(confirm) => self.confirm_key(confirm, key, now),
                None => if self.docker.cursor.filter_active {
                    self.container_filter_key(key)
                } else {
                    self.container_key(key, now)
                },
            },
        }
    }

    // The other tiles.

    /// A key in the Ports tile.
    pub open spec fn ports_key(self, key: ScopeKey) -> Step {
        let step = self.ports.step(key);
        let app = AppModel { ports: step.scope, ..self };
        if step.redraw {
            redrawn(app)
        } else {
            stay(app)
        }
    }

    /// A key in the Fleet tile.
    pub open spec fn fleet_key(self, key: ScopeKey) -> Step {
        let step = list_step(self.fleet.state.rows(), self.fleet.cursor, key);
        let app = AppModel { fleet: FleetModel { cursor: step.cursor, ..self.fleet }, ..self };
        if step.redraw {
            redrawn(app)
        } else {
            stay(app)
        }
    }

    /// A key in a scope tile.
    #[verifier::opaque]
    pub open spec fn scope_key(self, scope: ScopeKind, key: ScopeKey, now: u64) -> Step {
        match scope {
            ScopeKind::Docker => self.docker_key(key, now),
            ScopeKind::Ports => self.ports_key(key),
            ScopeKind::Fleet => self.fleet_key(key),
        }
    }

    /// Keys in a scope tile, one after the other.
    pub open spec fn scope_keys(self, scope: ScopeKind, keys: Seq<ScopeKey>, now: u64) -> Step
        decreases keys.len(),
    {
        if keys.len() == 0 {
            stay(self)
        } else {
            let before = self.scope_keys(scope, keys.drop_last(), now);
            let last = before.app.scope_key(scope, keys.last(), now);
            Step { app: last.app, actions: before.actions + last.actions }
        }
    }

    // Input.

    /// Bytes go to the pane's process.
    pub open spec fn send_input(self, data: Seq<u8>) -> Step {
        Step {
            app: self,
            actions: seq![ActionView::Send(Request::SendInput { pane_id: self.pane, data })],
        }
    }

    /// Bytes for the focused tile: the pty's process gets them, a scope reads
    /// keys from them, anything else drops them.
    pub open spec fn forward(self, bytes: Seq<u8>, now: u64) -> Step {
        if self.pty_focused() {
            self.send_input(bytes)
        } else {
            match self.focused_scope() {
                Some(scope) => {
                    let read = read_keys(self.held_keys, bytes);
                    AppModel { held_keys: read.held, ..self }.scope_keys(scope, read.keys, now)
                },
                None => stay(self),
            }
        }
    }

    /// What the key filter found.
    #[verifier::opaque]
    pub open spec fn input_action(self, action: InputActionView, now: u64) -> Step {
        match action {
            InputActionView::Forward(bytes) => self.forward(bytes, now),
            InputActionView::Detach => Step {
                app: self,
                actions: seq![ActionView::Detach(DetachReason::User)],
            },
            InputActionView::FocusDirection(dir) => self.focus_direction(dir),
            InputActionView::FocusNext => self.focus_cycle(true),
            InputActionView::FocusPrev => self.focus_cycle(false),
            InputActionView::Help => stay(self),
            InputActionView::PaneClose => stay(self),
        }
    }

    /// What the key filter found, one after the other.
    pub open spec fn input_actions(self, actions: Seq<InputActionView>, now: u64) -> Step
        decreases actions.len(),
    {
        if actions.len() == 0 {
            stay(self)
        } else {
            let before = self.input_actions(actions.drop_last(), now);
            let last = before.app.input_action(actions.last(), now);
            Step { app: last.app, actions: before.actions + last.actions }
        }
    }

    /// A chunk of stdin.
    #[verifier::opaque]
    pub open spec fn stdin(self, bytes: Seq<u8>, now: u64) -> Step {
        let filtered = filter_chunk(self.held_input, Seq::empty(), bytes);
        AppModel { held_input: filtered.held, ..self }.input_actions(filtered.actions, now)
    }

    /// A left click focuses the tile under it.
    pub open spec fn click(self, x: u16, y: u16) -> Step {
        self.focus_if(self.layout.tile_at(x, y))
    }

    /// The pointer is over a tile.
    pub open spec fn hover(self, x: u16, y: u16) -> Step {
        let over = self.layout.tile_at(x, y);
        if over == self.hovered {
            stay(self)
        } else {
            redrawn(AppModel { hovered: over, ..self })
        }
    }

    // The daemon.

    /// The emulator is given output.
    pub open spec fn feed_pty(self, data: Seq<u8>) -> AppModel {
        AppModel { pty: self.pty.push(PtyInput::Bytes(data)), ..self }
    }

    /// The output that an event hands to the emulator.
    pub open spec fn output_in(self, event: AppEvent) -> Option<Seq<u8>> {
        match event {
            AppEvent::DaemonEnvelope(
                Envelope { payload: Payload::Event(EventFrame { subscription_id, event }) },
            ) => if subscription_id != self.pane_sub {
                None
            } else {
                match event {
                    Event::PaneSnapshot { scrollback, .. } => if scrollback@.len() > 0 {
                        Some(scrollback@)
                    } else {
                        None
                    },
                    Event::PaneOutput { data } => Some(data@),
                    _ => None,
                }
            },
            _ => None,
        }
    }

    /// The emulator gets along with the output that an event hands to it.
    pub open spec fn can_show(self, event: AppEvent) -> bool {
        match self.output_in(event) {
            Some(data) => pty_whole(self.pty) || pty_takes(self.pty, data),
            None => true,
        }
    }

    /// An event of the attached pane.
    pub open spec fn pane_event(self, event: Event) -> Step {
        match event {
            Event::PaneSnapshot { scrollback, .. } => if scrollback@.len() > 0 {
                redrawn(self.feed_pty(scrollback@))
            } else {
                stay(self)
            },
            Event::PaneOutput { data } => redrawn(self.feed_pty(data@)),
            Event::PaneExit { exit_code } => Step {
                app: self,
                actions: seq![ActionView::Detach(DetachReason::PaneExited { exit_code })],
            },
            _ => stay(self),
        }
    }

    /// An event of the container list.
    pub open spec fn docker_event(self, event: Event) -> Step {
        match event {
            Event::ContainerList { containers, engine_source } => redrawn(
                AppModel {
                    docker: DockerModel {
                        state: DockerScopeState::Available { containers, engine_source },
                        ..self.docker
                    }.clamped(),
                    ..self
                },
            ),
            Event::DockerUnavailable { reason } => redrawn(
                AppModel {
                    docker: DockerModel {
                        state: DockerScopeState::Unavailable { reason },
                        cursor: Cursor { selection: 0, ..self.docker.cursor },
                        ..self.docker
                    },
                    ..self
                },
            ),
            _ => stay(self),
        }
    }

    /// An event of the log stream being followed.
    pub open spec fn logs_event(self, logs: LogsModel, event: Event) -> Step {
        match event {
            Event::ContainerLog { stream, data } => redrawn(
                self.with_logs(logs.ingest(stream, data@)),
            ),
            Event::DockerStreamEnded { reason } => redrawn(
                self.with_logs(logs.end_stream(reason@)),
            ),
            _ => stay(self),
        }
    }

    /// An event of the ports probe.
    pub open spec fn ports_event(self, event: Event) -> Step {
        match event {
            Event::PortList { ports, source } => redrawn(
                AppModel {
                    ports: PortsScopeModel {
                        ports: self.ports.ports.refreshed(
                            PortsViewState::Available { rows: ports, source },
                        ),
                        ..self.ports
                    },
                    ..self
                },
            ),
            Event::PortsUnavailable { reason } => redrawn(
                AppModel {
                    ports: PortsScopeModel {
                        ports: self.ports.ports.lost(PortsViewState::Unavailable { reason }),
                        ..self.ports
                    },
                    ..self
                },
            ),
            _ => stay(self),
        }
    }

    /// An event of the process probe.
    pub open spec fn processes_event(self, event: Event) -> Step {
        match event {
            Event::ProcessList { rows, source } => redrawn(
                AppModel {
                    ports: PortsScopeModel {
                        processes: self.ports.processes.refreshed(
                            ProcessesViewState::Available { rows, source },
                        ),
                        ..self.ports
                    },
                    ..self
                },
            ),
            Event::ProcessesUnavailable { reason } => redrawn(
                AppModel {
                    ports: PortsScopeModel {
                        processes: self.ports.processes.lost(
                            ProcessesViewState::Unavailable { reason },
                        ),
                        ..self.ports
                    },
                    ..self
                },
            ),
            _ => stay(self),
        }
    }

    /// An event of the fleet.
    pub open spec fn fleet_event(self, event: Event) -> Step {
        match event {
            Event::HostList { hosts, source } => redrawn(
                AppModel { fleet: self.fleet.refreshed(hosts@, source@), ..self },
            ),
            Event::HostStateChanged { alias, state } => {
                let app = AppModel { fleet: self.fleet.host_changed(alias@, state), ..self };
                if self.fleet.state is Available {
                    redrawn(app)
                } else {
                    stay(app)
                }
            },
            _ => stay(self),
        }
    }

    /// An event of a subscription. One of a subscription that is not open is
    /// dropped.
    #[verifier::opaque]
    pub open spec fn event(self, sub: u64, event: Event) -> Step {
        if sub == self.pane_sub {
            self.pane_event(event)
        } else if sub == self.docker.sub_id {
            self.docker_event(event)
        } else if self.docker.follows(sub) {
            self.logs_event(self.docker.view->Logs_0, event)
        } else if sub == self.ports.ports_sub_id {
            self.ports_event(event)
        } else if sub == self.ports.processes_sub_id {
            self.processes_event(event)
        } else if sub == self.fleet.sub_id {
            self.fleet_event(event)
        } else {
            stay(self)
        }
    }

    /// What a finished action is called: as it was when it was sent, or by
    /// its container's id if it is not known.
    pub open spec fn result_description(
        self,
        request_id: u64,
        kind: DockerActionKind,
        container_id: Seq<char>,
    ) -> Seq<char> {
        if self.pending.contains_key(request_id) {
            self.pending[request_id].description
        } else {
            action_description(kind, container_id)
        }
    }

    /// An envelope from the daemon.
    pub open spec fn envelope(self, env: Envelope, now: u64) -> Step {
        match env.payload {
            Payload::Event(frame) => self.event(frame.subscription_id, frame.event),
            Payload::Error(info) => self.push_toast(
                now,
                ToastKind::Error,
                "daemon error "@ + info.kind.spec_name() + ": "@ + info.message@,
            ),
            Payload::DockerActionResult(result) => {
                let description = self.result_description(
                    result.request_id,
                    result.kind,
                    result.container_id@,
                );
                let settled = AppModel { pending: self.pending.remove(result.request_id), ..self };
                match result.outcome {
                    DockerActionOutcome::Success => settled.push_toast(
                        now,
                        ToastKind::Success,
                        description + " — succeeded"@,
                    ),
                    DockerActionOutcome::Failure { reason } => settled.push_toast(
                        now,
                        ToastKind::Error,
                        description + " failed: "@ + reason@,
                    ),
                }
            },
            _ => stay(self),
        }
    }

    /// The terminal has a new size. Focus stays where it is if that tile is
    /// still shown; leaving the Docker tile cancels its prompt.
    pub open spec fn resize(self, rows: u16, cols: u16) -> Step {
        let layout = default_layout(terminal_area(rows, cols));
        let (pty_rows, pty_cols) = spec_pty_tile_dims(layout);
        let focused = if find_tile(layout.tiles, self.focused) is None {
            layout.default_focus
        } else {
            self.focused
        };
        Step {
            app: AppModel {
                terminal_size: (rows, cols),
                layout,
                focused,
                hovered: None,
                pty: self.pty.push(PtyInput::Resize { rows: pty_rows, cols: pty_cols }),
                docker: if self.focused == TileId::Docker && focused != TileId::Docker {
                    DockerModel { confirm: None, ..self.docker }
                } else {
                    self.docker
                },
                ..self
            },
            actions: seq![
                ActionView::Send(
                    Request::ResizePane { pane_id: self.pane, rows: pty_rows, cols: pty_cols },
                ),
                ActionView::DrawFrame,
            ],
        }
    }

    /// A tick: the sweep, then a redraw. The overdue actions are given up in
    /// some order.
    pub open spec fn ticks_to(self, now: u64, after: Step) -> bool {
        exists|ids: Seq<u64>| #[trigger]
            self.lists_overdue(now, ids) && after == (Step {
                app: self.sweep(now, ids).app,
                actions: self.sweep(now, ids).actions.push(ActionView::DrawFrame),
            })
    }

    /// `event` at time `now` leads to `after`. Everything but a tick has one
    /// outcome.
    pub open spec fn leads_to(self, event: AppEvent, now: u64, after: Step) -> bool {
        match event {
            AppEvent::StdinChunk(bytes) => after == self.stdin(bytes@, now),
            AppEvent::DaemonEnvelope(env) => after == self.envelope(env, now),
            AppEvent::Resize { rows, cols } => after == self.resize(rows, cols),
            AppEvent::Tick => self.ticks_to(now, after),
            AppEvent::PendingActionTimeout(id) => after == self.expire_pending(now, id),
            AppEvent::MouseClick { x, y } => after == self.click(x, y),
            AppEvent::MouseHover { x, y } => after == self.hover(x, y),
        }
    }
}

} // verus!
