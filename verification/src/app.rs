//! The application's state machine.
//!
//! [`App`] holds everything the client knows. [`App::handle_event`] takes an
//! event and the time, changes the state and returns the actions that the
//! runtime carries out. It never touches I/O or a clock.

use std::collections::{HashMap, VecDeque};

use vstd::prelude::*;
use vstd::std_specs::iter::IteratorSpec;

use crate::docker::{
    display_name_for, DockerModel, DockerScope, DockerScopeState, DockerView, DockerViewModel,
    PendingConfirm,
};
use crate::event::{
    actions_view, actions_view_push, ActionView, AppAction, AppEvent, DetachReason, ToastKind,
};
use crate::fleet::{FleetModel, FleetScope, FleetStateModel};
use crate::geometry::{FocusDir, Rect};
use crate::input::{
    action_views, chunk_shape, filter_chunk, InputAction, InputFilter, CSI_OPEN, ESC, TAB,
};
use crate::keys::{key_count, read_keys, ScopeKey, ScopeKeyParser};
use crate::laws::{
    confirmed_by, destruction_needs_confirmation, docker_in_range, docker_keys_stay_in_range,
    is_destructive, only_output_and_sizes_reach_the_emulator,
};
use crate::list::{edit_filter_key, fresh_cursor, navigate, navigate_key, FilterChange};
use crate::logs::{LogsView, LOGS_PAGE_LINES};
use crate::model::{
    action_description, spec_pty_tile_dims, terminal_area, terminal_fits, toast_ms, AppModel,
    PendingModel, Step, ToastModel, FALLBACK_PTY_COLS, FALLBACK_PTY_ROWS, MAX_TOASTS,
    PENDING_ACTION_TIMEOUT_MS, PENDING_CONFIRM_TIMEOUT_MS, TOAST_ERROR_MS, TOAST_INFO_MS,
    TOAST_SUCCESS_MS, VT100_SCROLLBACK_ROWS,
};
use crate::ports::{
    PortsActiveView, PortsModel, PortsScope, PortsScopeModel, PortsViewState, ProcessesModel,
    ProcessesViewState,
};
use crate::proto::{
    action_verb, envelope, DockerActionKind, DockerActionOutcome, DockerActionRequest,
    DockerActionResult, Envelope, Event, EventFrame, PaneId, Payload, Request, ScopeTarget,
    Subscription,
};
use crate::pty::{pty_size, pty_takes, pty_whole, PtyInput, PtyTerminal, MAX_PTY_COLS};
use crate::tile::{
    default_focus_is_shown, default_layout, layout_fits, lemma_pty_tile_size, ScopeKind, TileId,
    TileLayout, CLAUDE_ROWS, MIN_COLS, MIN_ROWS,
};

verus! {

broadcast use {actions_view_push, vstd::std_specs::hash::group_hash_axioms};

/// The tiles on the screen, the one that owns the keyboard, and the one the
/// pointer is over.
pub struct GodView {
    pub layout: TileLayout,
    pub focused: TileId,
    pub hovered: Option<TileId>,
}

/// A container action that was sent and not answered.
#[derive(Debug)]
pub struct PendingAction {
    /// When the action counts as lost, in milliseconds.
    pub deadline: u64,
    /// What toasts call the action.
    pub description: String,
}

impl View for PendingAction {
    type V = PendingModel;

    open spec fn view(&self) -> PendingModel {
        PendingModel { deadline: self.deadline, description: self.description@ }
    }
}

/// A toast on the screen.
#[derive(Debug)]
pub struct Toast {
    pub kind: ToastKind,
    pub message: String,
    /// When the toast goes away, in milliseconds.
    pub expires_at: u64,
}

impl View for Toast {
    type V = ToastModel;

    open spec fn view(&self) -> ToastModel {
        ToastModel { kind: self.kind, message: self.message@, expires_at: self.expires_at }
    }
}

/// The application.
pub struct App {
    pub view: GodView,
    pub pane: PaneId,
    /// Subscription of the attached pane. It lives as long as the session.
    pub pane_sub: u64,
    pub pty_parser: PtyTerminal,
    pub docker: DockerScope,
    pub ports: PortsScope,
    pub fleet: FleetScope,
    /// Rows, then columns.
    pub terminal_size: (u16, u16),
    /// One counter for subscription ids and request ids.
    pub next_sub_id: u64,
    /// Unanswered container actions by request id.
    pub pending_actions: HashMap<u64, PendingAction>,
    /// Toasts on the screen, newest at the back.
    pub toasts: VecDeque<Toast>,
    pub input_filter: InputFilter,
    pub scope_key_parser: ScopeKeyParser,
}

/// The views of the pending actions.
pub open spec fn pending_views(m: Map<u64, PendingAction>) -> Map<u64, PendingModel> {
    m.map_values(|p: PendingAction| p@)
}

/// The views of the toasts.
pub open spec fn toast_views(s: Seq<Toast>) -> Seq<ToastModel> {
    s.map_values(|t: Toast| t@)
}

impl View for App {
    type V = AppModel;

    open spec fn view(&self) -> AppModel {
        AppModel {
            layout: self.view.layout@,
            focused: self.view.focused,
            hovered: self.view.hovered,
            pane: self.pane,
            pane_sub: self.pane_sub,
            pty: self.pty_parser@,
            docker: self.docker@,
            ports: self.ports@,
            fleet: self.fleet@,
            terminal_size: self.terminal_size,
            next_sub_id: self.next_sub_id,
            pending: pending_views(self.pending_actions@),
            toasts: toast_views(self.toasts@),
            held_input: self.input_filter@,
            held_keys: self.scope_key_parser@,
        }
    }
}

/// Whether a terminal of this size can be laid out and its pty be emulated.
pub fn fits_terminal(rows: u16, cols: u16) -> (r: bool)
    ensures
        r == terminal_fits(rows, cols),
{
    let small: bool = cols < MIN_COLS || rows < MIN_ROWS;
    let r: bool = small || ((rows as u32 - CLAUDE_ROWS as u32) * 3 <= u16::MAX as u32 && cols
        <= MAX_PTY_COLS);
    proof {
        let area = terminal_area(rows, cols);
        if layout_fits(area) {
            lemma_pty_tile_size(area);
        }
    }
    r
}

/// Size of the pty: that of its tile, or a fallback while there is none.
pub fn pty_tile_dims(layout: &TileLayout) -> (r: (u16, u16))
    ensures
        r == spec_pty_tile_dims(layout@),
{
    match layout.rect_of(TileId::Pty) {
        Some(rect) => (
            if rect.height < 1 {
                1
            } else {
                rect.height
            },
            if rect.width < 1 {
                1
            } else {
                rect.width
            },
        ),
        None => (FALLBACK_PTY_ROWS, FALLBACK_PTY_COLS),
    }
}

/// A fresh application on a terminal of the given size: subscriptions have
/// the ids one to five, and the pty has the focus if it is shown.
pub open spec fn fresh_app(pane: u64, terminal_size: (u16, u16)) -> AppModel {
    let layout = default_layout(terminal_area(terminal_size.0, terminal_size.1));
    let (rows, cols) = spec_pty_tile_dims(layout);
    AppModel {
        layout,
        focused: layout.default_focus,
        hovered: None,
        pane,
        pane_sub: 1,
        pty: seq![PtyInput::Start { rows, cols, scrollback: VT100_SCROLLBACK_ROWS }],
        docker: DockerModel {
            state: DockerScopeState::Connecting,
            view: DockerViewModel::List,
            cursor: fresh_cursor(),
            sub_id: 2,
            confirm: None,
            target: ScopeTarget::Local,
        },
        ports: PortsScopeModel {
            ports: PortsModel {
                state: PortsViewState::Connecting,
                cursor: fresh_cursor(),
            },
            processes: ProcessesModel {
                state: ProcessesViewState::Connecting,
                cursor: fresh_cursor(),
            },
            active: PortsActiveView::Ports,
            ports_sub_id: 3,
            processes_sub_id: 4,
        },
        fleet: FleetModel {
            state: FleetStateModel::Connecting,
            cursor: fresh_cursor(),
            sub_id: 5,
        },
        terminal_size,
        next_sub_id: 6,
        pending: Map::empty(),
        toasts: Seq::empty(),
        held_input: Seq::empty(),
        held_keys: Seq::empty(),
    }
}

/// What a fresh session asks for: attach to the pane, size it to its tile,
/// and open every subscription.
pub open spec fn bootstrap(m: AppModel) -> Seq<ActionView> {
    let (rows, cols) = spec_pty_tile_dims(m.layout);
    seq![
        ActionView::Send(Request::AttachPane { pane_id: m.pane, subscription_id: m.pane_sub }),
        ActionView::Send(Request::ResizePane { pane_id: m.pane, rows, cols }),
        ActionView::Send(Request::SubscribeDocker { id: m.docker.sub_id }),
        ActionView::Send(Request::SubscribePorts { id: m.ports.ports_sub_id }),
        ActionView::Send(Request::SubscribeProcesses { id: m.ports.processes_sub_id }),
        ActionView::Send(Request::SubscribeFleet { id: m.fleet.sub_id }),
        ActionView::DrawFrame,
    ]
}

/// Ids that reading `n` bytes may take.
pub open spec fn ids_for(n: nat) -> nat {
    2 * n + 1
}

/// What an event needs: room for deadlines and ids, and a terminal size that
/// the application can handle.
pub open spec fn can_handle(m: AppModel, event: AppEvent, now: u64) -> bool {
    match event {
        AppEvent::StdinChunk(bytes) => m.has_room(
            now,
            ids_for(m.held_input.len() + bytes@.len()),
        ),
        AppEvent::Resize { rows, cols } => terminal_fits(rows, cols),
        AppEvent::MouseClick { .. } | AppEvent::MouseHover { .. } => true,
        _ => m.has_room(now, 0),
    }
}

/// The event makes the emulator's screens narrower.
pub open spec fn narrows(m: AppModel, event: AppEvent) -> bool {
    match event {
        AppEvent::Resize { rows, cols } => spec_pty_tile_dims(
            default_layout(terminal_area(rows, cols)),
        ).1 < pty_size(m.pty).1,
        _ => false,
    }
}

impl App {
    /// What every operation keeps.
    pub open spec fn wf(&self) -> bool {
        self@.wf()
    }

    /// A fresh application for `pane` on a terminal of `terminal_size`, given
    /// as rows and columns.
    pub fn new(pane: PaneId, terminal_size: (u16, u16)) -> (app: App)
        requires
            terminal_fits(terminal_size.0, terminal_size.1),
        ensures
            app@ == fresh_app(pane, terminal_size),
            app.wf(),
            pty_whole(app@.pty),
    {
        let (rows, cols) = terminal_size;
        let area = Rect::new(0, 0, cols, rows);
        let layout = TileLayout::default_for(area);
        let focused = layout.default_focus;
        let (pty_rows, pty_cols) = pty_tile_dims(&layout);
        proof {
            assert(area == terminal_area(rows, cols));
            lemma_pty_tile_size(area);
            default_focus_is_shown(area);
        }
        let pty_parser = PtyTerminal::new(pty_rows, pty_cols, VT100_SCROLLBACK_ROWS);
        let app = App {
            view: GodView { layout, focused, hovered: None },
            pane,
            pane_sub: 1,
            pty_parser,
            docker: DockerScope::new(2),
            ports: PortsScope::new(3, 4),
            fleet: FleetScope::new(5),
            terminal_size,
            next_sub_id: 6,
            pending_actions: HashMap::new(),
            toasts: VecDeque::new(),
            input_filter: InputFilter::new(),
            scope_key_parser: ScopeKeyParser::default(),
        };
        proof {
            assert(app@.pending =~= Map::<u64, PendingModel>::empty());
            assert(app@ =~= fresh_app(pane, terminal_size));
            assert(pty_size(app@.pty) == (pty_rows, pty_cols));
        }
        app
    }

    /// Whether an event can be handled.
    pub fn accepts(&self, event: &AppEvent, now: u64) -> (r: bool)
        ensures
            r == can_handle(self@, *event, now),
    {
        let in_time: bool = now <= u64::MAX - PENDING_ACTION_TIMEOUT_MS;
        match event {
            AppEvent::StdinChunk(bytes) => {
                let read: u128 = self.input_filter.held_len() as u128 + bytes.len() as u128;
                in_time && self.next_sub_id as u128 + 2 * read + 1 <= u64::MAX as u128
            },
            AppEvent::Resize { rows, cols } => fits_terminal(*rows, *cols),
            AppEvent::MouseClick { .. } | AppEvent::MouseHover { .. } => true,
            _ => in_time,
        }
    }

    /// What a fresh session asks for.
    pub fn initial_actions(&self) -> (actions: Vec<AppAction>)
        ensures
            actions_view(actions@) == bootstrap(self@),
    {
        let (rows, cols) = pty_tile_dims(&self.view.layout);
        let mut actions: Vec<AppAction> = Vec::new();
        actions.push(
            AppAction::SendEnvelope(
                envelope(
                    Payload::AttachPane { pane_id: self.pane, subscription_id: self.pane_sub },
                ),
            ),
        );
        actions.push(
            AppAction::SendEnvelope(
                envelope(Payload::ResizePane { pane_id: self.pane, rows, cols }),
            ),
        );
        actions.push(
            AppAction::SendEnvelope(
                envelope(Payload::Subscribe(Subscription::Docker { id: self.docker.sub_id })),
            ),
        );
        actions.push(
            AppAction::SendEnvelope(
                envelope(Payload::Subscribe(Subscription::Ports { id: self.ports.ports_sub_id })),
            ),
        );
        actions.push(
            AppAction::SendEnvelope(
                envelope(
                    Payload::Subscribe(
                        Subscription::Processes { id: self.ports.processes_sub_id },
                    ),
                ),
            ),
        );
        actions.push(
            AppAction::SendEnvelope(
                envelope(Payload::Subscribe(Subscription::Fleet { id: self.fleet.sub_id })),
            ),
        );
        actions.push(AppAction::DrawFrame);
        assert(actions_view(actions@) =~= bootstrap(self@));
        actions
    }

    /// Takes an event at time `now`, in milliseconds, and returns the actions
    /// to carry out.
    pub fn handle_event(&mut self, event: AppEvent, now: u64) -> (actions: Vec<AppAction>)
        requires
            old(self).wf(),
            can_handle(old(self)@, event, now),
            old(self)@.can_show(event),
        ensures
            old(self)@.leads_to(
                event,
                now,
                Step { app: final(self)@, actions: actions_view(actions@) },
            ),
            final(self).wf(),
            pty_whole(old(self)@.pty) && !narrows(old(self)@, event) ==> pty_whole(
                final(self)@.pty,
            ),
    {
        let ghost before = self@;
        let mut actions: Vec<AppAction> = Vec::new();
        assert(actions_view(actions@) =~= Seq::empty());
        match event {
            AppEvent::StdinChunk(bytes) => {
                self.handle_stdin(bytes.as_slice(), now, &mut actions);
            },
            AppEvent::DaemonEnvelope(env) => {
                self.handle_daemon_envelope(env, now, &mut actions);
            },
            AppEvent::Resize { rows, cols } => {
                self.handle_resize(rows, cols, &mut actions);
            },
            AppEvent::Tick => {
                self.handle_tick(now, &mut actions);
            },
            AppEvent::PendingActionTimeout(id) => {
                self.expire_pending_action_at(now, id, &mut actions);
            },
            AppEvent::MouseClick { x, y } => {
                self.handle_mouse_click(x, y, &mut actions);
            },
            AppEvent::MouseHover { x, y } => {
                self.handle_mouse_hover(x, y, &mut actions);
            },
        }
        proof {
            let after = Step { app: self@, actions: actions_view(actions@) };
            only_output_and_sizes_reach_the_emulator(before, event, now, after);
        }
        actions
    }

    /// Whether an event hands output to the emulator.
    fn has_output(&self, event: &AppEvent) -> (r: bool)
        ensures
            r == (self@.output_in(*event) is Some),
    {
        match event {
            AppEvent::DaemonEnvelope(env) => match &env.payload {
                Payload::Event(frame) => frame.subscription_id == self.pane_sub
                    && match &frame.event {
                    Event::PaneSnapshot { scrollback, .. } => scrollback.len() > 0,
                    Event::PaneOutput { .. } => true,
                    _ => false,
                },
                _ => false,
            },
            _ => false,
        }
    }

    /// Takes an event as [`App::handle_event`] does, if the application can
    /// handle it and the emulator is sure to get along with its output;
    /// otherwise nothing happens.
    pub fn try_handle_event(&mut self, event: AppEvent, now: u64) -> (r: Option<Vec<AppAction>>)
        requires
            old(self).wf(),
        ensures
            r is Some <==> can_handle(old(self)@, event, now) && (old(self)@.output_in(
                event,
            ) is None || pty_whole(old(self)@.pty)),
            match r {
                Some(actions) => old(self)@.leads_to(
                    event,
                    now,
                    Step { app: final(self)@, actions: actions_view(actions@) },
                ),
                None => final(self)@ == old(self)@,
            },
            final(self).wf(),
    {
        if self.accepts(&event, now) && (!self.has_output(&event) || self.pty_parser.is_whole()) {
            Some(self.handle_event(event, now))
        } else {
            None
        }
    }

    fn handle_tick(&mut self, now: u64, actions: &mut Vec<AppAction>)
        requires
            old(self).wf(),
            old(self)@.has_room(now, 0),
            old(actions)@.len() == 0,
        ensures
            old(self)@.ticks_to(
                now,
                Step { app: final(self)@, actions: actions_view(final(actions)@) },
            ),
            final(self).wf(),
    {
        let ghost before = self@;
        self.sweep_expired(now, actions);
        let ghost swept = actions_view(actions@);
        actions.push(AppAction::DrawFrame);
        proof {
            assert(actions_view(old(actions)@) =~= Seq::empty());
            let ids = choose|ids: Seq<u64>| #[trigger]
                before.lists_overdue(now, ids) && self@ == before.sweep(now, ids).app && swept
                    == actions_view(old(actions)@) + before.sweep(now, ids).actions;
            assert(before.lists_overdue(now, ids));
            assert(swept =~= before.sweep(now, ids).actions);
        }
    }

    fn handle_stdin(&mut self, bytes: &[u8], now: u64, actions: &mut Vec<AppAction>)
        requires
            old(self).wf(),
            old(self)@.has_room(now, ids_for(old(self)@.held_input.len() + bytes@.len())),
        ensures
            final(self)@ == old(self)@.stdin(bytes@, now).app,
            actions_view(final(actions)@) == actions_view(old(actions)@) + old(self)@.stdin(
                bytes@,
                now,
            ).actions,
            final(self).wf(),
    {
        let ghost before = self@;
        let ghost shown = actions_view(actions@);
        reveal(AppModel::stdin);
        proof {
            chunk_shape(before.held_input, Seq::empty(), bytes@);
        }
        let mut found: Vec<InputAction> = self.input_filter.process(bytes);
        let ghost filtered = filter_chunk(before.held_input, Seq::empty(), bytes@);
        let ghost all = action_views(found@);
        let ghost start = AppModel { held_input: filtered.held, ..before };
        assert(self@ =~= start);
        assert(all.take(0) =~= Seq::empty());
        assert(shown + Seq::<ActionView>::empty() =~= shown);
        let n: usize = found.len();
        let mut i: usize = 0;
        while i < n
            invariant
                0 <= i <= n,
                n == all.len(),
                n <= 2,
                found@.len() == n - i,
                forall|j: int| 0 <= j < found@.len() ==> (#[trigger] found@[j])@ == all[i + j],
                self.wf(),
                self@ == start.input_actions(all.take(i as int), now).app,
                actions_view(actions@) == shown + start.input_actions(
                    all.take(i as int),
                    now,
                ).actions,
                now + PENDING_ACTION_TIMEOUT_MS <= u64::MAX,
                i < n && all[i as int] is Forward ==> self@.has_room(
                    now,
                    ids_for(all[i as int]->Forward_0.len()),
                ),
                i == 0 && n == 2 ==> all[1] !is Forward,
            decreases n - i,
        {
            let ghost done = start.input_actions(all.take(i as int), now);
            proof {
                assert(all.take(i as int + 1).drop_last() =~= all.take(i as int));
                assert(found@[0]@ == all[i as int]);
            }
            let action = found.remove(0);
            self.handle_input_action(action, now, actions);
            proof {
                let last = done.app.input_action(all[i as int], now);
                assert(shown + done.actions + last.actions =~= shown + (done.actions
                    + last.actions));
            }
            i += 1;
        }
        assert(all.take(n as int) =~= all);
    }

    fn handle_input_action(&mut self, action: InputAction, now: u64, actions: &mut Vec<AppAction>)
        requires
            old(self).wf(),
            now + PENDING_ACTION_TIMEOUT_MS <= u64::MAX,
            action@ is Forward ==> old(self)@.has_room(now, ids_for(action@->Forward_0.len())),
        ensures
            final(self)@ == old(self)@.input_action(action@, now).app,
            actions_view(final(actions)@) == actions_view(old(actions)@) + old(self)@.input_action(
                action@,
                now,
            ).actions,
            final(self).wf(),
    {
        let ghost shown = actions_view(actions@);
        reveal(AppModel::input_action);
        match action {
            InputAction::Forward(bytes) => {
                self.handle_forward_bytes(bytes, now, actions);
            },
            InputAction::Detach => {
                actions.push(AppAction::Detach(DetachReason::User));
            },
            InputAction::FocusDirection(dir) => {
                self.handle_focus_direction(dir, actions);
            },
            InputAction::FocusNext => {
                self.handle_focus_cycle(true, actions);
            },
            InputAction::FocusPrev => {
                self.handle_focus_cycle(false, actions);
            },
            InputAction::Help => {
                assert(shown + Seq::<ActionView>::empty() =~= shown);
            },
            InputAction::PaneClose => {
                assert(shown + Seq::<ActionView>::empty() =~= shown);
            },
        }
    }

    fn send_input(&self, data: Vec<u8>, actions: &mut Vec<AppAction>)
        ensures
            actions_view(final(actions)@) == actions_view(old(actions)@) + self@.send_input(
                data@,
            ).actions,
    {
        actions.push(
            AppAction::SendEnvelope(envelope(Payload::SendInput { pane_id: self.pane, data })),
        );
    }

    fn handle_key_in(
        &mut self,
        scope: ScopeKind,
        key: ScopeKey,
        now: u64,
        actions: &mut Vec<AppAction>,
    )
        requires
            old(self).wf(),
            old(self)@.has_room(now, 1),
        ensures
            final(self)@ == old(self)@.scope_key(scope, key, now).app,
            actions_view(final(actions)@) == actions_view(old(actions)@) + old(self)@.scope_key(
                scope,
                key,
                now,
            ).actions,
            final(self).wf(),
            final(self)@.next_sub_id <= old(self)@.next_sub_id + 1,
    {
        reveal(AppModel::scope_key);
        match scope {
            ScopeKind::Docker => {
                self.handle_scope_key(key, now, actions);
            },
            ScopeKind::Ports => {
                self.handle_ports_key(key, actions);
            },
            ScopeKind::Fleet => {
                self.handle_fleet_key(key, actions);
            },
        }
    }

    fn handle_forward_bytes(&mut self, bytes: Vec<u8>, now: u64, actions: &mut Vec<AppAction>)
        requires
            old(self).wf(),
            old(self)@.has_room(now, ids_for(bytes@.len())),
        ensures
            final(self)@ == old(self)@.forward(bytes@, now).app,
            actions_view(final(actions)@) == actions_view(old(actions)@) + old(self)@.forward(
                bytes@,
                now,
            ).actions,
            final(self).wf(),
    {
        let ghost before = self@;
        let ghost shown = actions_view(actions@);
        if self.view.layout.routes_to_pty(self.view.focused) {
            self.send_input(bytes, actions);
            return;
        }
        match self.view.layout.routes_to_scope(self.view.focused) {
            Some(scope) => {
                proof {
                    key_count(before.held_keys, bytes@);
                }
                let keys: Vec<ScopeKey> = self.scope_key_parser.parse(bytes.as_slice());
                let ghost read = read_keys(before.held_keys, bytes@);
                let ghost start = AppModel { held_keys: read.held, ..before };
                assert(self@ =~= start);
                assert(keys@.take(0) =~= Seq::empty());
                assert(shown + Seq::<ActionView>::empty() =~= shown);
                let n: usize = keys.len();
                let mut i: usize = 0;
                while i < n
                    invariant
                        n == keys@.len(),
                        0 <= i <= n,
                        self.wf(),
                        self@ == start.scope_keys(scope, keys@.take(i as int), now).app,
                        actions_view(actions@) == shown + start.scope_keys(
                            scope,
                            keys@.take(i as int),
                            now,
                        ).actions,
                        self@.has_room(now, (n - i) as nat),
                    decreases n - i,
                {
                    let ghost done = start.scope_keys(scope, keys@.take(i as int), now);
                    proof {
                        assert(keys@.take(i as int + 1).drop_last() =~= keys@.take(i as int));
                    }
                    self.handle_key_in(scope, keys[i], now, actions);
                    proof {
                        let last = done.app.scope_key(scope, keys@[i as int], now);
                        assert(shown + done.actions + last.actions =~= shown + (done.actions
                            + last.actions));
                    }
                    i += 1;
                }
                assert(keys@.take(n as int) =~= read.keys);
            },
            None => {
                assert(shown + Seq::<ActionView>::empty() =~= shown);
            },
        }
    }

    fn focus_to(&mut self, next: TileId, actions: &mut Vec<AppAction>)
        requires
            old(self).wf(),
        ensures
            final(self)@ == old(self)@.focus_to(next).app,
            actions_view(final(actions)@) == actions_view(old(actions)@) + old(self)@.focus_to(
                next,
            ).actions,
            final(self).wf(),
    {
        let ghost before = self@;
        let ghost shown = actions_view(actions@);
        if next != self.view.focused {
            if self.view.focused == TileId::Docker {
                self.docker.pending_confirm = None;
            }
            self.view.focused = next;
            actions.push(AppAction::FocusTile(next));
            actions.push(AppAction::DrawFrame);
        }
        assert(self@ =~= before.focus_to(next).app);
        assert(actions_view(actions@) =~= shown + before.focus_to(next).actions);
    }

    fn focus_if(&mut self, next: Option<TileId>, actions: &mut Vec<AppAction>)
        requires
            old(self).wf(),
        ensures
            final(self)@ == old(self)@.focus_if(next).app,
            actions_view(final(actions)@) == actions_view(old(actions)@) + old(self)@.focus_if(
                next,
            ).actions,
            final(self).wf(),
    {
        match next {
            Some(id) => {
                self.focus_to(id, actions);
            },
            None => {},
        }
    }

    fn handle_focus_direction(&mut self, dir: FocusDir, actions: &mut Vec<AppAction>)
        requires
            old(self).wf(),
        ensures
            final(self)@ == old(self)@.focus_direction(dir).app,
            actions_view(final(actions)@) == actions_view(old(actions)@)
                + old(self)@.focus_direction(dir).actions,
            final(self).wf(),
    {
        let next = self.view.layout.next_focus(self.view.focused, dir);
        self.focus_if(next, actions);
    }

    fn handle_focus_cycle(&mut self, forward: bool, actions: &mut Vec<AppAction>)
        requires
            old(self).wf(),
        ensures
            final(self)@ == old(self)@.focus_cycle(forward).app,
            actions_view(final(actions)@) == actions_view(old(actions)@) + old(self)@.focus_cycle(
                forward,
            ).actions,
            final(self).wf(),
    {
        if self.view.layout.routes_to_pty(self.view.focused) {
            let mut data: Vec<u8> = Vec::new();
            if forward {
                data.push(TAB);
                assert(data@ =~= seq![TAB]);
            } else {
                data.push(ESC);
                data.push(CSI_OPEN);
                data.push(0x5a);
                assert(data@ =~= seq![ESC, CSI_OPEN, 0x5au8]);
            }
            self.send_input(data, actions);
        } else {
            let next = self.view.layout.cycle_focus(self.view.focused, forward);
            self.focus_if(next, actions);
        }
    }

    fn handle_mouse_click(&mut self, x: u16, y: u16, actions: &mut Vec<AppAction>)
        requires
            old(self).wf(),
        ensures
            final(self)@ == old(self)@.click(x, y).app,
            actions_view(final(actions)@) == actions_view(old(actions)@) + old(self)@.click(
                x,
                y,
            ).actions,
            final(self).wf(),
    {
        let over = self.view.layout.tile_at(x, y);
        self.focus_if(over, actions);
    }

    fn handle_mouse_hover(&mut self, x: u16, y: u16, actions: &mut Vec<AppAction>)
        requires
            old(self).wf(),
        ensures
            final(self)@ == old(self)@.hover(x, y).app,
            actions_view(final(actions)@) == actions_view(old(actions)@) + old(self)@.hover(
                x,
                y,
            ).actions,
            final(self).wf(),
    {
        let ghost shown = actions_view(actions@);
        let over = self.view.layout.tile_at(x, y);
        if over != self.view.hovered {
            self.view.hovered = over;
            actions.push(AppAction::DrawFrame);
        }
        assert(actions_view(actions@) =~= shown + old(self)@.hover(x, y).actions);
    }
}

/// Keys inside the scope tiles.
impl App {
    /// Reads a key in the Docker tile.
    pub fn handle_scope_key(&mut self, key: ScopeKey, now: u64, actions: &mut Vec<AppAction>)
        requires
            old(self).wf(),
            old(self)@.has_room(now, 1),
        ensures
            final(self)@ == old(self)@.docker_key(key, now).app,
            actions_view(final(actions)@) == actions_view(old(actions)@) + old(self)@.docker_key(
                key,
                now,
            ).actions,
            final(self).wf(),
            final(self)@.next_sub_id <= old(self)@.next_sub_id + 1,
            docker_in_range(old(self)@.docker) ==> docker_in_range(final(self)@.docker),
            forall|i: int|
                old(actions)@.len() <= i < final(actions)@.len() && is_destructive(
                    #[trigger] actions_view(final(actions)@)[i],
                ) ==> confirmed_by(old(self)@, key, actions_view(final(actions)@)[i]),
    {
        let in_logs: bool = match &self.docker.view {
            DockerView::Logs(_) => true,
            DockerView::List => false,
        };
        let ghost before = self@;
        let ghost already = actions@;
        if in_logs {
            self.handle_logs_key(key, actions);
        } else if self.docker.pending_confirm.is_some() {
            self.handle_confirm_key(key, now, actions);
        } else if self.docker.filter_active {
            self.handle_docker_filter_key(key, actions);
        } else {
            self.handle_docker_list_key(key, now, actions);
        }
        proof {
            let step = before.docker_key(key, now);
            if docker_in_range(before.docker) {
                docker_keys_stay_in_range(before, key, now);
            }
            assert(actions_view(actions@) == actions_view(already) + step.actions);
            assert(actions_view(actions@).len() == actions@.len());
            assert(actions_view(already).len() == already.len());
            assert forall|i: int|
                already.len() <= i < actions@.len() && is_destructive(
                    #[trigger] actions_view(actions@)[i],
                ) implies confirmed_by(before, key, actions_view(actions@)[i]) by {
                assert(actions_view(actions@)[i] == step.actions[i - already.len()]);
                destruction_needs_confirmation(before, key, now, i - already.len());
            }
        }
    }

    fn handle_confirm_key(&mut self, key: ScopeKey, now: u64, actions: &mut Vec<AppAction>)
        requires
            old(self).wf(),
            old(self)@.has_room(now, 1),
            old(self)@.docker.confirm is Some,
        ensures
            final(self)@ == old(self)@.confirm_key(old(self)@.docker.confirm->0, key, now).app,
            actions_view(final(actions)@) == actions_view(old(actions)@) + old(self)@.confirm_key(
                old(self)@.docker.confirm->0,
                key,
                now,
            ).actions,
            final(self).wf(),
            final(self)@.next_sub_id <= old(self)@.next_sub_id + 1,
    {
        let ghost before = self@;
        let ghost shown = actions_view(actions@);
        let ghost cleared = AppModel {
            docker: DockerModel { confirm: None, ..before.docker },
            ..before
        };
        match key {
            ScopeKey::Char(0x79) | ScopeKey::Char(0x59) => {
                let mut taken: Option<PendingConfirm> = None;
                std::mem::swap(&mut taken, &mut self.docker.pending_confirm);
                assert(self@ =~= cleared);
                match taken {
                    Some(pending) => {
                        self.dispatch_docker_action(
                            pending.container_id,
                            pending.container_name,
                            pending.kind,
                            now,
                            actions,
                        );
                    },
                    None => {},
                }
            },
            ScopeKey::Char(0x4b) | ScopeKey::Char(0x58) => {
                assert(shown + Seq::<ActionView>::empty() =~= shown);
            },
            _ => {
                self.docker.pending_confirm = None;
                assert(self@ =~= cleared);
                actions.push(AppAction::DrawFrame);
            },
        }
    }

    fn handle_docker_filter_key(&mut self, key: ScopeKey, actions: &mut Vec<AppAction>)
        requires
            old(self).wf(),
            old(self)@.docker.cursor.filter_active,
        ensures
            final(self)@ == old(self)@.container_filter_key(key).app,
            actions_view(final(actions)@) == actions_view(old(actions)@)
                + old(self)@.container_filter_key(key).actions,
            final(self).wf(),
            final(self)@.next_sub_id == old(self)@.next_sub_id,
    {
        let ghost before = self@;
        let ghost shown = actions_view(actions@);
        match edit_filter_key(&mut self.docker.filter, &mut self.docker.filter_active, key) {
            FilterChange::Ignored => {
                assert(self@ =~= before);
                assert(shown + Seq::<ActionView>::empty() =~= shown);
            },
            FilterChange::Accepted => {
                actions.push(AppAction::DrawFrame);
            },
            FilterChange::Changed => {
                self.docker.clamp_selection();
                actions.push(AppAction::DrawFrame);
            },
        }
        assert(self@ =~= before.container_filter_key(key).app);
    }

    fn handle_docker_list_key(&mut self, key: ScopeKey, now: u64, actions: &mut Vec<AppAction>)
        requires
            old(self).wf(),
            old(self)@.has_room(now, 1),
            old(self)@.docker.view is List,
            old(self)@.docker.confirm is None,
        ensures
            final(self)@ == old(self)@.container_key(key, now).app,
            actions_view(final(actions)@) == actions_view(old(actions)@) + old(self)@.container_key(
                key,
                now,
            ).actions,
            final(self).wf(),
            final(self)@.next_sub_id <= old(self)@.next_sub_id + 1,
    {
        let ghost before = self@;
        let ghost shown = actions_view(actions@);
        let n: usize = self.docker.visible_count();
        let ghost moved = navigate(before.docker.cursor, n as nat, key);
        let navigates: bool = navigate_key(
            &mut self.docker.selection,
            &mut self.docker.filter_active,
            n,
            key,
        );
        if navigates {
            actions.push(AppAction::DrawFrame);
            assert(self@ =~= before.container_key(key, now).app);
            return;
        }
        assert(self@ =~= before);
        match key {
            ScopeKey::Char(0x72) => {
                self.issue_selected_docker_action(DockerActionKind::Restart, now, actions);
            },
            ScopeKey::Char(0x73) => {
                self.issue_selected_docker_action(DockerActionKind::Stop, now, actions);
            },
            ScopeKey::Char(0x4b) => {
                self.begin_confirm(DockerActionKind::Kill, now, actions);
            },
            ScopeKey::Char(0x58) => {
                self.begin_confirm(DockerActionKind::Remove, now, actions);
            },
            ScopeKey::Char(0x6c) => {
                self.try_enter_logs_view(actions);
            },
            _ => {
                assert(shown + Seq::<ActionView>::empty() =~= shown);
            },
        }
    }

    fn handle_logs_key(&mut self, key: ScopeKey, actions: &mut Vec<AppAction>)
        requires
            old(self).wf(),
            old(self)@.docker.view is Logs,
        ensures
            final(self)@ == old(self)@.logs_key(old(self)@.docker.view->Logs_0, key).app,
            actions_view(final(actions)@) == actions_view(old(actions)@) + old(self)@.logs_key(
                old(self)@.docker.view->Logs_0,
                key,
            ).actions,
            final(self).wf(),
            final(self)@.next_sub_id == old(self)@.next_sub_id,
    {
        let ghost before = self@;
        let ghost shown = actions_view(actions@);
        let ghost logs = before.docker.view->Logs_0;
        match key {
            ScopeKey::Escape | ScopeKey::Char(0x71) => {
                let sub_id: u64 = match &self.docker.view {
                    DockerView::Logs(l) => l.sub_id,
                    DockerView::List => 0,
                };
                self.docker.view = DockerView::List;
                actions.push(
                    AppAction::SendEnvelope(envelope(Payload::Unsubscribe { id: sub_id })),
                );
                actions.push(AppAction::DrawFrame);
                assert(actions_view(actions@) =~= shown + before.logs_key(logs, key).actions);
            },
            ScopeKey::Up | ScopeKey::Char(0x6b) => {
                self.scroll_logs_up(1);
                actions.push(AppAction::DrawFrame);
            },
            ScopeKey::Down | ScopeKey::Char(0x6a) => {
                self.scroll_logs_down(1);
                actions.push(AppAction::DrawFrame);
            },
            ScopeKey::PgUp => {
                self.scroll_logs_up(LOGS_PAGE_LINES);
                actions.push(AppAction::DrawFrame);
            },
            ScopeKey::PgDn => {
                self.scroll_logs_down(LOGS_PAGE_LINES);
                actions.push(AppAction::DrawFrame);
            },
            ScopeKey::Char(0x47) | ScopeKey::Bottom | ScopeKey::End => {
                match &mut self.docker.view {
                    DockerView::Logs(l) => {
                        l.jump_to_tail();
                    },
                    DockerView::List => {},
                }
                actions.push(AppAction::DrawFrame);
            },
            _ => {
                assert(shown + Seq::<ActionView>::empty() =~= shown);
            },
        }
        assert(self@ =~= before.logs_key(logs, key).app);
    }

    fn scroll_logs_up(&mut self, n: usize)
        requires
            old(self).wf(),
            old(self)@.docker.view is Logs,
            n <= LOGS_PAGE_LINES,
        ensures
            final(self)@ == old(self)@.with_logs(old(self)@.docker.view->Logs_0.scroll_up(n as int)),
            final(self).wf(),
    {
        match &mut self.docker.view {
            DockerView::Logs(l) => {
                l.scroll_up(n);
            },
            DockerView::List => {},
        }
        assert(self@ =~= old(self)@.with_logs(old(self)@.docker.view->Logs_0.scroll_up(n as int)));
    }

    fn scroll_logs_down(&mut self, n: usize)
        requires
            old(self).wf(),
            old(self)@.docker.view is Logs,
        ensures
            final(self)@ == old(self)@.with_logs(
                old(self)@.docker.view->Logs_0.scroll_down(n as int),
            ),
            final(self).wf(),
    {
        match &mut self.docker.view {
            DockerView::Logs(l) => {
                l.scroll_down(n);
            },
            DockerView::List => {},
        }
        assert(self@ =~= old(self)@.with_logs(
            old(self)@.docker.view->Logs_0.scroll_down(n as int),
        ));
    }

    fn try_enter_logs_view(&mut self, actions: &mut Vec<AppAction>)
        requires
            old(self).wf(),
            old(self)@.next_sub_id + 1 <= u64::MAX,
            old(self)@.docker.confirm is None,
        ensures
            final(self)@ == old(self)@.enter_logs().app,
            actions_view(final(actions)@) == actions_view(old(actions)@)
                + old(self)@.enter_logs().actions,
            final(self).wf(),
            final(self)@.next_sub_id <= old(self)@.next_sub_id + 1,
    {
        let ghost before = self@;
        let ghost shown = actions_view(actions@);
        let (container_id, container_name): (String, String) = match self.docker.selected_container() {
            Some(c) => (c.id.clone(), display_name_for(c)),
            None => {
                assert(shown + Seq::<ActionView>::empty() =~= shown);
                return;
            },
        };
        let sub_id: u64 = self.alloc_sub_id();
        self.docker.view = DockerView::Logs(
            LogsView::new(container_id.clone(), container_name, sub_id),
        );
        actions.push(
            AppAction::SendEnvelope(
                envelope(
                    Payload::Subscribe(
                        Subscription::DockerLogs {
                            id: sub_id,
                            container_id,
                            follow: true,
                            tail_lines: 0,
                        },
                    ),
                ),
            ),
        );
        actions.push(AppAction::DrawFrame);
        assert(self@ =~= before.enter_logs().app);
        assert(actions_view(actions@) =~= shown + before.enter_logs().actions);
    }

    fn issue_selected_docker_action(
        &mut self,
        kind: DockerActionKind,
        now: u64,
        actions: &mut Vec<AppAction>,
    )
        requires
            old(self).wf(),
            old(self)@.has_room(now, 1),
        ensures
            final(self)@ == old(self)@.issue(kind, now).app,
            actions_view(final(actions)@) == actions_view(old(actions)@) + old(self)@.issue(
                kind,
                now,
            ).actions,
            final(self).wf(),
            final(self)@.next_sub_id <= old(self)@.next_sub_id + 1,
    {
        let ghost shown = actions_view(actions@);
        let (container_id, display_name): (String, String) = match self.docker.selected_container() {
            Some(c) => (c.id.clone(), display_name_for(c)),
            None => {
                assert(shown + Seq::<ActionView>::empty() =~= shown);
                return;
            },
        };
        self.dispatch_docker_action(container_id, display_name, kind, now, actions);
    }

    fn dispatch_docker_action(
        &mut self,
        container_id: String,
        display_name: String,
        kind: DockerActionKind,
        now: u64,
        actions: &mut Vec<AppAction>,
    )
        requires
            old(self).wf(),
            old(self)@.has_room(now, 1),
        ensures
            final(self)@ == old(self)@.dispatch(container_id@, display_name@, kind, now).app,
            actions_view(final(actions)@) == actions_view(old(actions)@) + old(self)@.dispatch(
                container_id@,
                display_name@,
                kind,
                now,
            ).actions,
            final(self).wf(),
            final(self)@.next_sub_id == old(self)@.next_sub_id + 1,
    {
        let ghost before = self@;
        let ghost shown = actions_view(actions@);
        let ghost pending = self.pending_actions@;
        let request_id: u64 = self.alloc_sub_id();
        let description = describe_action(kind, display_name.as_str());
        let waiting = PendingAction { deadline: now + PENDING_ACTION_TIMEOUT_MS, description };
        let _previous = self.pending_actions.insert(request_id, waiting);
        assert(pending_views(pending.insert(request_id, waiting)) =~= pending_views(pending).insert(
            request_id,
            waiting@,
        ));
        let ghost step = before.dispatch(container_id@, display_name@, kind, now);
        actions.push(
            AppAction::SendEnvelope(
                envelope(
                    Payload::DockerAction(DockerActionRequest { request_id, container_id, kind }),
                ),
            ),
        );
        actions.push(AppAction::DrawFrame);
        assert(self@ =~= step.app);
        assert(actions_view(actions@) =~= shown + step.actions);
    }

    fn begin_confirm(&mut self, kind: DockerActionKind, now: u64, actions: &mut Vec<AppAction>)
        requires
            old(self).wf(),
            now + PENDING_ACTION_TIMEOUT_MS <= u64::MAX,
            old(self)@.docker.view is List,
        ensures
            final(self)@ == old(self)@.begin_confirm(kind, now).app,
            actions_view(final(actions)@) == actions_view(old(actions)@) + old(self)@.begin_confirm(
                kind,
                now,
            ).actions,
            final(self).wf(),
            final(self)@.next_sub_id == old(self)@.next_sub_id,
    {
        let ghost before = self@;
        let ghost shown = actions_view(actions@);
        let (container_id, container_name): (String, String) = match self.docker.selected_container() {
            Some(c) => (c.id.clone(), display_name_for(c)),
            None => {
                assert(shown + Seq::<ActionView>::empty() =~= shown);
                return;
            },
        };
        self.docker.pending_confirm = Some(
            PendingConfirm {
                kind,
                container_id,
                container_name,
                deadline: now + PENDING_CONFIRM_TIMEOUT_MS,
            },
        );
        actions.push(AppAction::DrawFrame);
        assert(self@ =~= before.begin_confirm(kind, now).app);
    }

    fn handle_ports_key(&mut self, key: ScopeKey, actions: &mut Vec<AppAction>)
        requires
            old(self).wf(),
        ensures
            final(self)@ == old(self)@.ports_key(key).app,
            actions_view(final(actions)@) == actions_view(old(actions)@) + old(self)@.ports_key(
                key,
            ).actions,
            final(self).wf(),
            final(self)@.next_sub_id == old(self)@.next_sub_id,
    {
        let ghost before = self@;
        let ghost shown = actions_view(actions@);
        if self.ports.handle_key(key) {
            actions.push(AppAction::DrawFrame);
        }
        assert(self@ =~= before.ports_key(key).app);
        assert(actions_view(actions@) =~= shown + before.ports_key(key).actions);
    }

    fn handle_fleet_key(&mut self, key: ScopeKey, actions: &mut Vec<AppAction>)
        requires
            old(self).wf(),
        ensures
            final(self)@ == old(self)@.fleet_key(key).app,
            actions_view(final(actions)@) == actions_view(old(actions)@) + old(self)@.fleet_key(
                key,
            ).actions,
            final(self).wf(),
            final(self)@.next_sub_id == old(self)@.next_sub_id,
    {
        let ghost before = self@;
        let ghost shown = actions_view(actions@);
        if self.fleet.handle_key(key) {
            actions.push(AppAction::DrawFrame);
        }
        assert(self@ =~= before.fleet_key(key).app);
        assert(actions_view(actions@) =~= shown + before.fleet_key(key).actions);
    }

    /// A fresh id for a subscription or a request. Ids are never reused.
    fn alloc_sub_id(&mut self) -> (id: u64)
        requires
            old(self)@.next_sub_id + 1 <= u64::MAX,
        ensures
            id == old(self)@.next_sub_id,
            final(self)@ == (AppModel {
                next_sub_id: (old(self)@.next_sub_id + 1) as u64,
                ..old(self)@
            }),
            final(self).docker == old(self).docker,
            final(self).pending_actions == old(self).pending_actions,
    {
        let id: u64 = self.next_sub_id;
        self.next_sub_id = id + 1;
        id
    }
}

/// What a pending action is called.
fn describe_action(kind: DockerActionKind, name: &str) -> (r: String)
    ensures
        r@ == action_description(kind, name@),
{
    String::from_str(action_verb(kind)).concat(" ").concat(name)
}

fn toast_duration(kind: ToastKind) -> (ms: u64)
    ensures
        ms == toast_ms(kind),
{
    match kind {
        ToastKind::Success => TOAST_SUCCESS_MS,
        ToastKind::Error => TOAST_ERROR_MS,
        ToastKind::Info => TOAST_INFO_MS,
    }
}

/// The overdue actions, in the order in which the map is walked.
fn overdue_ids(pending: &HashMap<u64, PendingAction>, now: u64) -> (ids: Vec<u64>)
    ensures
        ids@.no_duplicates(),
        forall|id: u64| #[trigger]
            ids@.contains(id) <==> pending@.contains_key(id) && now >= pending@[id].deadline,
{
    let mut ids: Vec<u64> = Vec::new();
    for key in it: pending.keys()
        invariant
            it.seq().unref().to_set() == pending@.dom(),
            it.seq().no_duplicates(),
            ids@.no_duplicates(),
            forall|id: u64| #[trigger]
                ids@.contains(id) <==> it.seq().unref().take(it.index()).contains(id) && now
                    >= pending@[id].deadline,
    {
        let ghost all = it.seq().unref();
        let ghost had = ids@;
        let ghost i = it.index();
        proof {
            assert(all[i] == *key);
            assert(all.to_set().contains(*key));
            assert(all.take(i + 1) =~= all.take(i).push(*key));
            assert(!all.take(i).contains(*key)) by {
                if all.take(i).contains(*key) {
                    let j = choose|j: int| 0 <= j < i && all.take(i)[j] == *key;
                    assert(it.seq()[j] == it.seq()[i]);
                }
            }
            assert(!had.contains(*key));
        }
        match pending.get(key) {
            Some(waiting) => {
                assert(pending@[*key] == *waiting);
                if now >= waiting.deadline {
                    ids.push(*key);
                }
            },
            None => {
                assert(false);
            },
        }
        proof {
            assert forall|id: u64| #[trigger]
                ids@.contains(id) <==> all.take(i + 1).contains(id) && now
                    >= pending@[id].deadline by {
                vstd::seq_lib::lemma_seq_contains_after_push(all.take(i), *key, id);
                vstd::seq_lib::lemma_seq_contains_after_push(had, *key, id);
                assert(had.contains(id) <==> all.take(i).contains(id) && now
                    >= pending@[id].deadline);
            }
        }
    }
    proof {
        let ghost_keys = vstd::std_specs::hash::spec_keys_iter(pending).remaining().unref();
        assert(ghost_keys.take(ghost_keys.len() as int) =~= ghost_keys);
        assert forall|id: u64| ghost_keys.contains(id) <==> pending@.contains_key(id) by {
            assert(ghost_keys.contains(id) <==> ghost_keys.to_set().contains(id));
        }
    }
    ids
}

/// Toasts, deadlines and the daemon.
impl App {
    /// Raises a toast. The oldest gives way if there are too many.
    pub fn push_toast_at(
        &mut self,
        now: u64,
        kind: ToastKind,
        message: String,
        actions: &mut Vec<AppAction>,
    )
        requires
            old(self).wf(),
            now + PENDING_ACTION_TIMEOUT_MS <= u64::MAX,
        ensures
            final(self)@ == old(self)@.push_toast(now, kind, message@).app,
            actions_view(final(actions)@) == actions_view(old(actions)@) + old(self)@.push_toast(
                now,
                kind,
                message@,
            ).actions,
            final(self).wf(),
            final(self).pending_actions == old(self).pending_actions,
    {
        let ghost before = self@;
        let ghost shown = actions_view(actions@);
        let ghost step = before.push_toast(now, kind, message@);
        if self.toasts.len() >= MAX_TOASTS {
            let _oldest = self.toasts.pop_front();
        }
        self.toasts.push_back(
            Toast { kind, message: message.clone(), expires_at: now + toast_duration(kind) },
        );
        assert(self@.toasts =~= step.app.toasts);
        actions.push(AppAction::ShowToast { kind, message });
        actions.push(AppAction::DrawFrame);
        assert(actions_view(actions@) =~= shown + step.actions);
    }

    fn expire_pending_action_at(&mut self, now: u64, id: u64, actions: &mut Vec<AppAction>)
        requires
            old(self).wf(),
            now + PENDING_ACTION_TIMEOUT_MS <= u64::MAX,
        ensures
            final(self)@ == old(self)@.expire_pending(now, id).app,
            actions_view(final(actions)@) == actions_view(old(actions)@)
                + old(self)@.expire_pending(now, id).actions,
            final(self).wf(),
    {
        let ghost before = self@;
        let ghost shown = actions_view(actions@);
        let ghost pending = self.pending_actions@;
        match self.pending_actions.remove(&id) {
            Some(lost) => {
                assert(pending_views(pending.remove(id)) =~= pending_views(pending).remove(id));
                assert(self@ =~= AppModel { pending: before.pending.remove(id), ..before });
                assert(lost@ == before.pending[id]);
                let message = lost.description.concat(" timed out — check engine");
                self.push_toast_at(now, ToastKind::Error, message, actions);
            },
            None => {
                assert(pending_views(self.pending_actions@) =~= pending_views(pending));
                assert(shown + Seq::<ActionView>::empty() =~= shown);
            },
        }
    }

    fn drop_stale_confirm(&mut self, now: u64)
        requires
            old(self).wf(),
        ensures
            final(self)@ == old(self)@.drop_stale_confirm(now),
            final(self).wf(),
            final(self).pending_actions == old(self).pending_actions,
    {
        let stale: bool = match &self.docker.pending_confirm {
            Some(confirm) => now >= confirm.deadline,
            None => false,
        };
        if stale {
            self.docker.pending_confirm = None;
        }
        assert(self@ =~= old(self)@.drop_stale_confirm(now));
    }

    fn drop_stale_toasts(&mut self, now: u64)
        requires
            old(self).wf(),
        ensures
            final(self)@ == old(self)@.drop_stale_toasts(now),
            final(self).wf(),
    {
        let ghost before = self@;
        let ghost all = toast_views(self.toasts@);
        let ghost fresh = |t: ToastModel| now < t.expires_at;
        let n: usize = self.toasts.len();
        let mut i: usize = 0;
        proof {
            reveal(Seq::filter);
            assert(all.take(0).filter(fresh) =~= Seq::empty());
            assert(toast_views(self.toasts@) =~= all.skip(0) + all.take(0).filter(fresh));
        }
        while i < n
            invariant
                0 <= i <= n,
                n == all.len(),
                fresh == (|t: ToastModel| now < t.expires_at),
                self@ == (AppModel { toasts: all.skip(i as int) + all.take(i as int).filter(fresh), ..before }),
            decreases n - i,
        {
            proof {
                reveal(Seq::filter);
                assert(all.take(i as int + 1).drop_last() =~= all.take(i as int));
                assert(all.skip(i as int)[0] == all[i as int]);
                assert(all.skip(i as int).drop_first() =~= all.skip(i as int + 1));
            }
            let ghost kept = all.take(i as int).filter(fresh);
            let ghost rest = all.skip(i as int + 1);
            let ghost queue = self.toasts@;
            assert(toast_views(queue) == all.skip(i as int) + kept);
            assert(toast_views(queue).len() == queue.len());
            assert(queue[0]@ == toast_views(queue)[0]);
            match self.toasts.pop_front() {
                Some(t) => {
                    assert(t@ == all[i as int]);
                    assert(self.toasts@ =~= queue.drop_first());
                    assert(toast_views(self.toasts@) =~= toast_views(queue).drop_first());
                    assert(toast_views(self.toasts@) =~= rest + kept);
                    if now < t.expires_at {
                        let ghost middle = self.toasts@;
                        self.toasts.push_back(t);
                        assert(toast_views(middle.push(t)) =~= toast_views(middle).push(t@));
                        assert(toast_views(self.toasts@) =~= rest + kept.push(t@));
                    }
                },
                None => {},
            }
            assert(self@ =~= AppModel {
                toasts: all.skip(i as int + 1) + all.take(i as int + 1).filter(fresh),
                ..before
            });
            i += 1;
        }
        proof {
            assert(all.take(n as int) =~= all);
            assert(all.skip(n as int) + all.filter(fresh) =~= all.filter(fresh));
            all.lemma_filter_len(fresh);
            assert(self@ =~= before.drop_stale_toasts(now));
        }
    }

    /// Gives up the pending actions `ids`, in that order.
    fn expire_each(&mut self, now: u64, ids: &Vec<u64>, actions: &mut Vec<AppAction>)
        requires
            old(self).wf(),
            now + PENDING_ACTION_TIMEOUT_MS <= u64::MAX,
        ensures
            final(self)@ == old(self)@.expire_each(now, ids@).app,
            actions_view(final(actions)@) == actions_view(old(actions)@) + old(self)@.expire_each(
                now,
                ids@,
            ).actions,
            final(self).wf(),
    {
        let ghost before = self@;
        let ghost shown = actions_view(actions@);
        let n: usize = ids.len();
        let mut i: usize = 0;
        assert(ids@.take(0) =~= Seq::empty());
        assert(shown + Seq::<ActionView>::empty() =~= shown);
        while i < n
            invariant
                n == ids@.len(),
                0 <= i <= n,
                self.wf(),
                now + PENDING_ACTION_TIMEOUT_MS <= u64::MAX,
                self@ == before.expire_each(now, ids@.take(i as int)).app,
                actions_view(actions@) == shown + before.expire_each(
                    now,
                    ids@.take(i as int),
                ).actions,
            decreases n - i,
        {
            let ghost done = before.expire_each(now, ids@.take(i as int));
            proof {
                assert(ids@.take(i as int + 1).drop_last() =~= ids@.take(i as int));
            }
            self.expire_pending_action_at(now, ids[i], actions);
            proof {
                let last = done.app.expire_pending(now, ids@[i as int]);
                assert(shown + done.actions + last.actions =~= shown + (done.actions
                    + last.actions));
            }
            i += 1;
        }
        assert(ids@.take(n as int) =~= ids@);
    }

    /// Drops what is out of date: the confirm prompt, the pending actions
    /// `ids` in that order, and toasts.
    pub fn sweep_in_order(&mut self, now: u64, ids: &Vec<u64>, actions: &mut Vec<AppAction>)
        requires
            old(self).wf(),
            old(self)@.has_room(now, 0),
        ensures
            final(self)@ == old(self)@.sweep(now, ids@).app,
            actions_view(final(actions)@) == actions_view(old(actions)@) + old(self)@.sweep(
                now,
                ids@,
            ).actions,
            final(self).wf(),
    {
        self.drop_stale_confirm(now);
        self.expire_each(now, ids, actions);
        self.drop_stale_toasts(now);
    }

    /// Drops what is out of date at time `now`. Overdue actions are given up
    /// in the order in which the map is walked, which is not fixed.
    pub fn sweep_expired(&mut self, now: u64, actions: &mut Vec<AppAction>)
        requires
            old(self).wf(),
            old(self)@.has_room(now, 0),
        ensures
            exists|ids: Seq<u64>| #[trigger]
                old(self)@.lists_overdue(now, ids) && final(self)@ == old(self)@.sweep(now, ids).app
                    && actions_view(final(actions)@) == actions_view(old(actions)@)
                    + old(self)@.sweep(now, ids).actions,
            final(self).wf(),
    {
        let ids: Vec<u64> = overdue_ids(&self.pending_actions, now);
        proof {
            assert(self@.lists_overdue(now, ids@)) by {
                assert forall|id: u64| #[trigger]
                    ids@.contains(id) <==> self@.is_overdue(now, id) by {}
            }
        }
        self.sweep_in_order(now, &ids, actions);
    }

    fn handle_daemon_envelope(&mut self, env: Envelope, now: u64, actions: &mut Vec<AppAction>)
        requires
            old(self).wf(),
            old(self)@.has_room(now, 0),
            old(self)@.can_show(AppEvent::DaemonEnvelope(env)),
        ensures
            final(self)@ == old(self)@.envelope(env, now).app,
            actions_view(final(actions)@) == actions_view(old(actions)@) + old(self)@.envelope(
                env,
                now,
            ).actions,
            final(self).wf(),
            pty_whole(old(self)@.pty) ==> pty_whole(final(self)@.pty),
    {
        let ghost shown = actions_view(actions@);
        match env.payload {
            Payload::Event(frame) => {
                self.handle_event_frame(frame, actions);
            },
            Payload::Error(info) => {
                let message = String::from_str("daemon error ").concat(info.kind.name()).concat(
                    ": ",
                ).concat(info.message.as_str());
                self.push_toast_at(now, ToastKind::Error, message, actions);
            },
            Payload::DockerActionResult(result) => {
                self.handle_action_result(result, now, actions);
            },
            _ => {
                assert(shown + Seq::<ActionView>::empty() =~= shown);
            },
        }
    }

    fn handle_action_result(
        &mut self,
        result: DockerActionResult,
        now: u64,
        actions: &mut Vec<AppAction>,
    )
        requires
            old(self).wf(),
            old(self)@.has_room(now, 0),
        ensures
            ({
                let step = old(self)@.envelope(
                    Envelope { payload: Payload::DockerActionResult(result) },
                    now,
                );
                &&& final(self)@ == step.app
                &&& actions_view(final(actions)@) == actions_view(old(actions)@) + step.actions
            }),
            final(self).wf(),
    {
        let ghost before = self@;
        let ghost pending = self.pending_actions@;
        let id: u64 = result.request_id;
        let description: String = match self.pending_actions.remove(&id) {
            Some(waiting) => {
                assert(pending_views(pending)[id] == waiting@);
                waiting.description
            },
            None => describe_action(result.kind, result.container_id.as_str()),
        };
        proof {
            assert(pending_views(self.pending_actions@) =~= pending_views(pending).remove(id));
            assert(self@ =~= AppModel { pending: before.pending.remove(id), ..before });
        }
        match result.outcome {
            DockerActionOutcome::Success => {
                let message = description.concat(" — succeeded");
                self.push_toast_at(now, ToastKind::Success, message, actions);
            },
            DockerActionOutcome::Failure { reason } => {
                let message = description.concat(" failed: ").concat(reason.as_str());
                self.push_toast_at(now, ToastKind::Error, message, actions);
            },
        }
    }

    fn handle_event_frame(&mut self, frame: EventFrame, actions: &mut Vec<AppAction>)
        requires
            old(self).wf(),
            old(self)@.can_show(
                AppEvent::DaemonEnvelope(Envelope { payload: Payload::Event(frame) }),
            ),
        ensures
            final(self)@ == old(self)@.event(frame.subscription_id, frame.event).app,
            actions_view(final(actions)@) == actions_view(old(actions)@) + old(self)@.event(
                frame.subscription_id,
                frame.event,
            ).actions,
            final(self).wf(),
            pty_whole(old(self)@.pty) ==> pty_whole(final(self)@.pty),
    {
        let ghost shown = actions_view(actions@);
        reveal(AppModel::event);
        let sub: u64 = frame.subscription_id;
        if sub == self.pane_sub {
            self.handle_pane_event(frame.event, actions);
        } else if sub == self.docker.sub_id {
            self.handle_docker_event(frame.event, actions);
        } else if self.docker.is_current_logs_sub(sub) {
            self.handle_logs_event(frame.event, actions);
        } else if sub == self.ports.ports_sub_id {
            self.handle_ports_event(frame.event, actions);
        } else if sub == self.ports.processes_sub_id {
            self.handle_processes_event(frame.event, actions);
        } else if sub == self.fleet.sub_id {
            self.handle_fleet_event(frame.event, actions);
        } else {
            assert(shown + Seq::<ActionView>::empty() =~= shown);
        }
    }

    fn feed_pty(&mut self, data: &[u8])
        requires
            old(self).wf(),
            pty_whole(old(self)@.pty) || pty_takes(old(self)@.pty, data@),
        ensures
            final(self)@ == old(self)@.feed_pty(data@),
            final(self).wf(),
            pty_whole(old(self)@.pty) ==> pty_whole(final(self)@.pty),
    {
        let ghost before = self@;
        self.pty_parser.process(data);
        proof {
            let fed = before.pty.push(PtyInput::Bytes(data@));
            assert(fed.drop_last() =~= before.pty);
            assert(self@ =~= before.feed_pty(data@));
        }
    }

    fn handle_pane_event(&mut self, event: Event, actions: &mut Vec<AppAction>)
        requires
            old(self).wf(),
            match event {
                Event::PaneSnapshot { scrollback, .. } => scrollback@.len() == 0 || pty_whole(
                    old(self)@.pty,
                ) || pty_takes(old(self)@.pty, scrollback@),
                Event::PaneOutput { data } => pty_whole(old(self)@.pty) || pty_takes(
                    old(self)@.pty,
                    data@,
                ),
                _ => true,
            },
        ensures
            final(self)@ == old(self)@.pane_event(event).app,
            actions_view(final(actions)@) == actions_view(old(actions)@) + old(self)@.pane_event(
                event,
            ).actions,
            final(self).wf(),
            pty_whole(old(self)@.pty) ==> pty_whole(final(self)@.pty),
    {
        let ghost shown = actions_view(actions@);
        match event {
            Event::PaneSnapshot { scrollback, .. } => {
                if scrollback.len() > 0 {
                    self.feed_pty(scrollback.as_slice());
                    actions.push(AppAction::DrawFrame);
                } else {
                    assert(shown + Seq::<ActionView>::empty() =~= shown);
                }
            },
            Event::PaneOutput { data } => {
                self.feed_pty(data.as_slice());
                actions.push(AppAction::DrawFrame);
            },
            Event::PaneExit { exit_code } => {
                actions.push(AppAction::Detach(DetachReason::PaneExited { exit_code }));
            },
            _ => {
                assert(shown + Seq::<ActionView>::empty() =~= shown);
            },
        }
    }

    fn handle_docker_event(&mut self, event: Event, actions: &mut Vec<AppAction>)
        requires
            old(self).wf(),
        ensures
            final(self)@ == old(self)@.docker_event(event).app,
            actions_view(final(actions)@) == actions_view(old(actions)@) + old(self)@.docker_event(
                event,
            ).actions,
            final(self).wf(),
    {
        let ghost before = self@;
        let ghost shown = actions_view(actions@);
        match event {
            Event::ContainerList { containers, engine_source } => {
                self.docker.state = DockerScopeState::Available { containers, engine_source };
                self.docker.clamp_selection();
                actions.push(AppAction::DrawFrame);
            },
            Event::DockerUnavailable { reason } => {
                self.docker.state = DockerScopeState::Unavailable { reason };
                self.docker.selection = 0;
                actions.push(AppAction::DrawFrame);
            },
            _ => {
                assert(shown + Seq::<ActionView>::empty() =~= shown);
            },
        }
        assert(self@ =~= before.docker_event(event).app);
    }

    fn handle_logs_event(&mut self, event: Event, actions: &mut Vec<AppAction>)
        requires
            old(self).wf(),
            old(self)@.docker.view is Logs,
        ensures
            final(self)@ == old(self)@.logs_event(old(self)@.docker.view->Logs_0, event).app,
            actions_view(final(actions)@) == actions_view(old(actions)@) + old(self)@.logs_event(
                old(self)@.docker.view->Logs_0,
                event,
            ).actions,
            final(self).wf(),
    {
        let ghost before = self@;
        let ghost shown = actions_view(actions@);
        match event {
            Event::ContainerLog { stream, data } => {
                match &mut self.docker.view {
                    DockerView::Logs(logs) => {
                        logs.ingest(stream, data.as_slice());
                    },
                    DockerView::List => {},
                }
                actions.push(AppAction::DrawFrame);
            },
            Event::DockerStreamEnded { reason } => {
                match &mut self.docker.view {
                    DockerView::Logs(logs) => {
                        logs.end_stream(reason);
                    },
                    DockerView::List => {},
                }
                actions.push(AppAction::DrawFrame);
            },
            _ => {
                assert(shown + Seq::<ActionView>::empty() =~= shown);
            },
        }
        assert(self@ =~= before.logs_event(before.docker.view->Logs_0, event).app);
    }

    fn handle_ports_event(&mut self, event: Event, actions: &mut Vec<AppAction>)
        requires
            old(self).wf(),
        ensures
            final(self)@ == old(self)@.ports_event(event).app,
            actions_view(final(actions)@) == actions_view(old(actions)@) + old(self)@.ports_event(
                event,
            ).actions,
            final(self).wf(),
    {
        let ghost before = self@;
        let ghost shown = actions_view(actions@);
        match event {
            Event::PortList { ports, source } => {
                self.ports.ports.refresh(ports, source);
                actions.push(AppAction::DrawFrame);
            },
            Event::PortsUnavailable { reason } => {
                self.ports.ports.lose(reason);
                actions.push(AppAction::DrawFrame);
            },
            _ => {
                assert(shown + Seq::<ActionView>::empty() =~= shown);
            },
        }
        assert(self@ =~= before.ports_event(event).app);
    }

    fn handle_processes_event(&mut self, event: Event, actions: &mut Vec<AppAction>)
        requires
            old(self).wf(),
        ensures
            final(self)@ == old(self)@.processes_event(event).app,
            actions_view(final(actions)@) == actions_view(old(actions)@)
                + old(self)@.processes_event(event).actions,
            final(self).wf(),
    {
        let ghost before = self@;
        let ghost shown = actions_view(actions@);
        match event {
            Event::ProcessList { rows, source } => {
                self.ports.processes.refresh(rows, source);
                actions.push(AppAction::DrawFrame);
            },
            Event::ProcessesUnavailable { reason } => {
                self.ports.processes.lose(reason);
                actions.push(AppAction::DrawFrame);
            },
            _ => {
                assert(shown + Seq::<ActionView>::empty() =~= shown);
            },
        }
        assert(self@ =~= before.processes_event(event).app);
    }

    fn handle_fleet_event(&mut self, event: Event, actions: &mut Vec<AppAction>)
        requires
            old(self).wf(),
        ensures
            final(self)@ == old(self)@.fleet_event(event).app,
            actions_view(final(actions)@) == actions_view(old(actions)@) + old(self)@.fleet_event(
                event,
            ).actions,
            final(self).wf(),
    {
        let ghost before = self@;
        let ghost shown = actions_view(actions@);
        match event {
            Event::HostList { hosts, source } => {
                self.fleet.refresh(hosts, source);
                actions.push(AppAction::DrawFrame);
            },
            Event::HostStateChanged { alias, state } => {
                if self.fleet.change_host(alias, state) {
                    actions.push(AppAction::DrawFrame);
                } else {
                    assert(shown + Seq::<ActionView>::empty() =~= shown);
                }
            },
            _ => {
                assert(shown + Seq::<ActionView>::empty() =~= shown);
            },
        }
        assert(self@ =~= before.fleet_event(event).app);
    }

    fn handle_resize(&mut self, rows: u16, cols: u16, actions: &mut Vec<AppAction>)
        requires
            old(self).wf(),
            terminal_fits(rows, cols),
        ensures
            final(self)@ == old(self)@.resize(rows, cols).app,
            actions_view(final(actions)@) == actions_view(old(actions)@) + old(self)@.resize(
                rows,
                cols,
            ).actions,
            final(self).wf(),
            pty_whole(old(self)@.pty) && !narrows(old(self)@, (AppEvent::Resize { rows, cols }))
                ==> pty_whole(final(self)@.pty),
    {
        let ghost before = self@;
        let ghost shown = actions_view(actions@);
        self.terminal_size = (rows, cols);
        let area = Rect::new(0, 0, cols, rows);
        assert(area == terminal_area(rows, cols));
        self.view.layout = TileLayout::default_for(area);
        let was: TileId = self.view.focused;
        if self.view.layout.tile(was).is_none() {
            self.view.focused = self.view.layout.default_focus;
        }
        if was == TileId::Docker && self.view.focused != TileId::Docker {
            self.docker.pending_confirm = None;
        }
        self.view.hovered = None;
        let (pty_rows, pty_cols) = pty_tile_dims(&self.view.layout);
        proof {
            lemma_pty_tile_size(area);
            default_focus_is_shown(area);
        }
        self.pty_parser.set_size(pty_rows, pty_cols);
        actions.push(
            AppAction::SendEnvelope(
                envelope(
                    Payload::ResizePane { pane_id: self.pane, rows: pty_rows, cols: pty_cols },
                ),
            ),
        );
        actions.push(AppAction::DrawFrame);
        let ghost step = before.resize(rows, cols);
        assert(self@ =~= step.app);
        assert(actions_view(actions@) =~= shown + step.actions);
        assert(pty_size(self@.pty) == (pty_rows, pty_cols));
    }
}

} // verus!
