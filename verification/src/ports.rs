//! State of the Ports tile, which hosts the Ports and the Processes view.

use vstd::prelude::*;

use crate::list::{
    fresh_cursor, list_key, list_step, matches_filter, nth_visible, reanchor, reanchor_selection,
    row_matches, selected_key, visible, visible_count, Cursor, FilterRow, KeyedRow, RowKey,
};
use crate::keys::ScopeKey;
use crate::proto::{ProbePort, ProbeProcess};
use crate::text::{decimal, decimal_string, lowercase, texts, to_lowercase};

verus! {

/// Which view the tile shows.
#[derive(Debug, Clone, Copy, PartialEq, Eq, Structural)]
pub enum PortsActiveView {
    Ports,
    Processes,
}

/// Lifecycle of the Ports view.
#[derive(Debug)]
pub enum PortsViewState {
    Connecting,
    Available { rows: Vec<ProbePort>, source: String },
    Unavailable { reason: String },
}

/// Lifecycle of the Processes view.
#[derive(Debug)]
pub enum ProcessesViewState {
    Connecting,
    Available { rows: Vec<ProbeProcess>, source: String },
    Unavailable { reason: String },
}

/// The Ports view.
#[derive(Debug)]
pub struct PortsView {
    pub state: PortsViewState,
    /// Index into the rows that the filter lets through.
    pub selection: usize,
    pub filter: String,
    pub filter_active: bool,
}

/// The Processes view.
#[derive(Debug)]
pub struct ProcessesView {
    pub state: ProcessesViewState,
    /// Index into the rows that the filter lets through.
    pub selection: usize,
    pub filter: String,
    pub filter_active: bool,
}

/// The Ports tile. Both subscriptions stay live whichever view is shown.
#[derive(Debug)]
pub struct PortsScope {
    pub ports: PortsView,
    pub processes: ProcessesView,
    pub active: PortsActiveView,
    pub ports_sub_id: u64,
    pub processes_sub_id: u64,
}

/// Identity of a listening port across refreshes.
#[derive(Debug, Clone)]
pub struct PortKey {
    pub protocol: String,
    pub local_port: u16,
    pub pid: u32,
}

/// Identity of a process across refreshes. The start time tells a process
/// from an earlier one with the same pid.
#[derive(Debug, Clone, Copy, PartialEq, Eq, Structural)]
pub struct ProcessKey {
    pub pid: u32,
    pub start_time_unix_secs: i64,
}

impl PortKey {
    /// The port's identity.
    pub fn of(p: &ProbePort) -> (key: PortKey)
        ensures
            key.protocol@ == p.protocol@,
            key.local_port == p.local_port,
            key.pid == p.pid,
    {
        PortKey { protocol: p.protocol.clone(), local_port: p.local_port, pid: p.pid }
    }
}

impl ProcessKey {
    /// The process's identity.
    pub fn of(p: &ProbeProcess) -> (key: ProcessKey)
        ensures
            key == (ProcessKey { pid: p.pid, start_time_unix_secs: p.start_time_unix_secs }),
    {
        ProcessKey { pid: p.pid, start_time_unix_secs: p.start_time_unix_secs }
    }
}

impl FilterRow for ProbePort {
    /// Process name, address, port number and container id.
    open spec fn haystacks(&self) -> Seq<Seq<char>> {
        let always = seq![
            lowercase(self.process_name@),
            lowercase(self.local_ip@),
            decimal(self.local_port as nat),
        ];
        match self.container_id {
            Some(id) => always.push(lowercase(id@)),
            None => always,
        }
    }

    fn filter_texts(&self) -> (r: Vec<String>) {
        let mut out: Vec<String> = Vec::new();
        out.push(to_lowercase(self.process_name.as_str()));
        out.push(to_lowercase(self.local_ip.as_str()));
        out.push(decimal_string(self.local_port as u64));
        match &self.container_id {
            Some(id) => {
                out.push(to_lowercase(id.as_str()));
            },
            None => {},
        }
        assert(texts(out@) =~= self.haystacks());
        out
    }
}

impl KeyedRow for ProbePort {
    type Key = PortKey;

    open spec fn row_key(&self) -> RowKey {
        RowKey::Port { protocol: self.protocol@, local_port: self.local_port, pid: self.pid }
    }

    open spec fn key_view(key: PortKey) -> RowKey {
        RowKey::Port { protocol: key.protocol@, local_port: key.local_port, pid: key.pid }
    }

    fn key_of(&self) -> (key: PortKey) {
        PortKey::of(self)
    }

    fn has_key(&self, key: &PortKey) -> (r: bool) {
        self.protocol == key.protocol && self.local_port == key.local_port && self.pid == key.pid
    }
}

impl FilterRow for ProbeProcess {
    /// Command and pid.
    open spec fn haystacks(&self) -> Seq<Seq<char>> {
        seq![lowercase(self.command@), decimal(self.pid as nat)]
    }

    fn filter_texts(&self) -> (r: Vec<String>) {
        let mut out: Vec<String> = Vec::new();
        out.push(to_lowercase(self.command.as_str()));
        out.push(decimal_string(self.pid as u64));
        assert(texts(out@) =~= self.haystacks());
        out
    }
}

impl KeyedRow for ProbeProcess {
    type Key = ProcessKey;

    open spec fn row_key(&self) -> RowKey {
        RowKey::Process { pid: self.pid, start_time_unix_secs: self.start_time_unix_secs }
    }

    open spec fn key_view(key: ProcessKey) -> RowKey {
        RowKey::Process { pid: key.pid, start_time_unix_secs: key.start_time_unix_secs }
    }

    fn key_of(&self) -> (key: ProcessKey) {
        ProcessKey::of(self)
    }

    fn has_key(&self, key: &ProcessKey) -> (r: bool) {
        self.pid == key.pid && self.start_time_unix_secs == key.start_time_unix_secs
    }
}

impl PortsViewState {
    /// The listening ports; none unless the probe is available.
    pub open spec fn rows(self) -> Seq<ProbePort> {
        match self {
            PortsViewState::Available { rows, .. } => rows@,
            _ => Seq::empty(),
        }
    }
}

impl ProcessesViewState {
    /// The processes; none unless the probe is available.
    pub open spec fn rows(self) -> Seq<ProbeProcess> {
        match self {
            ProcessesViewState::Available { rows, .. } => rows@,
            _ => Seq::empty(),
        }
    }
}

/// [`PortsView`] with its cursor viewed.
#[verifier::ext_equal]
pub ghost struct PortsModel {
    pub state: PortsViewState,
    pub cursor: Cursor,
}

/// [`ProcessesView`] with its cursor viewed.
#[verifier::ext_equal]
pub ghost struct ProcessesModel {
    pub state: ProcessesViewState,
    pub cursor: Cursor,
}

impl PortsModel {
    /// The ports that the view lists.
    pub open spec fn shown(self) -> Seq<ProbePort> {
        visible(self.state.rows(), self.cursor.filter)
    }

    /// A fresh list arrived: the cursor follows its row.
    pub open spec fn refreshed(self, state: PortsViewState) -> PortsModel {
        PortsModel {
            state,
            cursor: Cursor {
                selection: reanchor(
                    visible(state.rows(), self.cursor.filter),
                    selected_key(self.shown(), self.cursor.selection),
                    self.cursor.selection,
                ),
                ..self.cursor
            },
        }
    }

    /// The probe became unavailable: the cursor goes to the top.
    pub open spec fn lost(self, state: PortsViewState) -> PortsModel {
        PortsModel { state, cursor: Cursor { selection: 0, ..self.cursor } }
    }
}

impl ProcessesModel {
    /// The processes that the view lists.
    pub open spec fn shown(self) -> Seq<ProbeProcess> {
        visible(self.state.rows(), self.cursor.filter)
    }

    /// A fresh list arrived: the cursor follows its row.
    pub open spec fn refreshed(self, state: ProcessesViewState) -> ProcessesModel {
        ProcessesModel {
            state,
            cursor: Cursor {
                selection: reanchor(
                    visible(state.rows(), self.cursor.filter),
                    selected_key(self.shown(), self.cursor.selection),
                    self.cursor.selection,
                ),
                ..self.cursor
            },
        }
    }

    /// The probe became unavailable: the cursor goes to the top.
    pub open spec fn lost(self, state: ProcessesViewState) -> ProcessesModel {
        ProcessesModel { state, cursor: Cursor { selection: 0, ..self.cursor } }
    }
}

impl View for PortsView {
    type V = PortsModel;

    open spec fn view(&self) -> PortsModel {
        PortsModel {
            state: self.state,
            cursor: Cursor {
                selection: self.selection as int,
                filter: self.filter@,
                filter_active: self.filter_active,
            },
        }
    }
}

impl View for ProcessesView {
    type V = ProcessesModel;

    open spec fn view(&self) -> ProcessesModel {
        ProcessesModel {
            state: self.state,
            cursor: Cursor {
                selection: self.selection as int,
                filter: self.filter@,
                filter_active: self.filter_active,
            },
        }
    }
}

/// [`PortsScope`] with its views viewed.
#[verifier::ext_equal]
pub ghost struct PortsScopeModel {
    pub ports: PortsModel,
    pub processes: ProcessesModel,
    pub active: PortsActiveView,
    pub ports_sub_id: u64,
    pub processes_sub_id: u64,
}

impl View for PortsScope {
    type V = PortsScopeModel;

    open spec fn view(&self) -> PortsScopeModel {
        PortsScopeModel {
            ports: self.ports@,
            processes: self.processes@,
            active: self.active,
            ports_sub_id: self.ports_sub_id,
            processes_sub_id: self.processes_sub_id,
        }
    }
}

/// The other of the two views.
pub open spec fn other_view(active: PortsActiveView) -> PortsActiveView {
    match active {
        PortsActiveView::Ports => PortsActiveView::Processes,
        PortsActiveView::Processes => PortsActiveView::Ports,
    }
}

/// The Ports tile after a key, and whether it must be redrawn.
pub ghost struct PortsStep {
    pub scope: PortsScopeModel,
    pub redraw: bool,
}

impl PortsScopeModel {
    /// Keys go to the filter of the view that is shown.
    pub open spec fn typing(self) -> bool {
        match self.active {
            PortsActiveView::Ports => self.ports.cursor.filter_active,
            PortsActiveView::Processes => self.processes.cursor.filter_active,
        }
    }

    /// What a key does to the tile: `p` switches views unless it is being
    /// typed into a filter; any other key goes to the view that is shown.
    pub open spec fn step(self, key: ScopeKey) -> PortsStep {
        if key == ScopeKey::Char(0x70) && !self.typing() {
            PortsStep {
                scope: PortsScopeModel { active: other_view(self.active), ..self },
                redraw: true,
            }
        } else {
            match self.active {
                PortsActiveView::Ports => {
                    let step = list_step(self.ports.state.rows(), self.ports.cursor, key);
                    PortsStep {
                        scope: PortsScopeModel {
                            ports: PortsModel { cursor: step.cursor, ..self.ports },
                            ..self
                        },
                        redraw: step.redraw,
                    }
                },
                PortsActiveView::Processes => {
                    let step = list_step(self.processes.state.rows(), self.processes.cursor, key);
                    PortsStep {
                        scope: PortsScopeModel {
                            processes: ProcessesModel { cursor: step.cursor, ..self.processes },
                            ..self
                        },
                        redraw: step.redraw,
                    }
                },
            }
        }
    }
}

proof fn lemma_no_ports(filter: Seq<char>)
    ensures
        visible(Seq::<ProbePort>::empty(), filter).len() == 0,
{
    reveal(Seq::filter);
}

proof fn lemma_no_processes(filter: Seq<char>)
    ensures
        visible(Seq::<ProbeProcess>::empty(), filter).len() == 0,
{
    reveal(Seq::filter);
}

impl PortsView {
    /// Whether the filter lets the port through.
    pub fn matches_filter(&self, p: &ProbePort) -> (r: bool)
        ensures
            r == row_matches(self.filter@, *p),
    {
        matches_filter(&self.filter, p)
    }

    /// How many ports are listed.
    pub fn visible_count(&self) -> (n: usize)
        ensures
            n == self@.shown().len(),
    {
        match &self.state {
            PortsViewState::Available { rows, .. } => visible_count(rows, &self.filter),
            _ => {
                proof {
                    lemma_no_ports(self.filter@);
                }
                0
            },
        }
    }

    /// The selected port.
    pub fn selected_port(&self) -> (r: Option<&ProbePort>)
        ensures
            match r {
                Some(p) => self.selection < self@.shown().len() && *p
                    == self@.shown()[self.selection as int],
                None => self.selection >= self@.shown().len(),
            },
    {
        match &self.state {
            PortsViewState::Available { rows, .. } => nth_visible(
                rows,
                &self.filter,
                self.selection,
            ),
            _ => {
                proof {
                    lemma_no_ports(self.filter@);
                }
                None
            },
        }
    }

    /// The key of the selected port.
    pub fn selected_key(&self) -> (r: Option<PortKey>)
        ensures
            selected_key(self@.shown(), self.selection as int) == (match r {
                Some(key) => Some(<ProbePort as KeyedRow>::key_view(key)),
                None => None,
            }),
    {
        match self.selected_port() {
            Some(p) => Some(p.key_of()),
            None => None,
        }
    }

    /// Moves the cursor to the row with `old_key`, or else to the nearest row.
    pub fn reanchor_selection(&mut self, old_key: Option<PortKey>)
        ensures
            final(self)@ == (PortsModel {
                cursor: Cursor {
                    selection: reanchor(
                        old(self)@.shown(),
                        match old_key {
                            Some(key) => Some(<ProbePort as KeyedRow>::key_view(key)),
                            None => None,
                        },
                        old(self).selection as int,
                    ),
                    ..old(self)@.cursor
                },
                ..old(self)@
            }),
    {
        match &self.state {
            PortsViewState::Available { rows, .. } => {
                self.selection = reanchor_selection(rows, &self.filter, old_key, self.selection);
            },
            _ => {
                proof {
                    lemma_no_ports(self.filter@);
                }
                self.selection = 0;
            },
        }
    }

    /// A fresh list arrived.
    pub fn refresh(&mut self, rows: Vec<ProbePort>, source: String)
        ensures
            final(self)@ == old(self)@.refreshed(PortsViewState::Available { rows, source }),
    {
        let old_key = self.selected_key();
        self.state = PortsViewState::Available { rows, source };
        self.reanchor_selection(old_key);
    }

    /// The probe became unavailable.
    pub fn lose(&mut self, reason: String)
        ensures
            final(self)@ == old(self)@.lost(PortsViewState::Unavailable { reason }),
    {
        self.state = PortsViewState::Unavailable { reason };
        self.selection = 0;
    }

    /// Applies a key. Returns whether the view must be redrawn.
    pub fn handle_key(&mut self, key: ScopeKey) -> (redraw: bool)
        ensures
            ({
                let step = list_step(old(self)@.state.rows(), old(self)@.cursor, key);
                &&& final(self)@ == (PortsModel { cursor: step.cursor, ..old(self)@ })
                &&& redraw == step.redraw
            }),
    {
        let empty: Vec<ProbePort> = Vec::new();
        let rows = match &self.state {
            PortsViewState::Available { rows, .. } => rows,
            _ => &empty,
        };
        assert(rows@ =~= self.state.rows());
        list_key(rows, &mut self.selection, &mut self.filter, &mut self.filter_active, key)
    }
}

impl ProcessesView {
    /// Whether the filter lets the process through.
    pub fn matches_filter(&self, p: &ProbeProcess) -> (r: bool)
        ensures
            r == row_matches(self.filter@, *p),
    {
        matches_filter(&self.filter, p)
    }

    /// How many processes are listed.
    pub fn visible_count(&self) -> (n: usize)
        ensures
            n == self@.shown().len(),
    {
        match &self.state {
            ProcessesViewState::Available { rows, .. } => visible_count(rows, &self.filter),
            _ => {
                proof {
                    lemma_no_processes(self.filter@);
                }
                0
            },
        }
    }

    /// The selected process.
    pub fn selected_process(&self) -> (r: Option<&ProbeProcess>)
        ensures
            match r {
                Some(p) => self.selection < self@.shown().len() && *p
                    == self@.shown()[self.selection as int],
                None => self.selection >= self@.shown().len(),
            },
    {
        match &self.state {
            ProcessesViewState::Available { rows, .. } => nth_visible(
                rows,
                &self.filter,
                self.selection,
            ),
            _ => {
                proof {
                    lemma_no_processes(self.filter@);
                }
                None
            },
        }
    }

    /// The key of the selected process.
    pub fn selected_key(&self) -> (r: Option<ProcessKey>)
        ensures
            selected_key(self@.shown(), self.selection as int) == (match r {
                Some(key) => Some(<ProbeProcess as KeyedRow>::key_view(key)),
                None => None,
            }),
    {
        match self.selected_process() {
            Some(p) => Some(p.key_of()),
            None => None,
        }
    }

    /// Moves the cursor to the row with `old_key`, or else to the nearest row.
    pub fn reanchor_selection(&mut self, old_key: Option<ProcessKey>)
        ensures
            final(self)@ == (ProcessesModel {
                cursor: Cursor {
                    selection: reanchor(
                        old(self)@.shown(),
                        match old_key {
                            Some(key) => Some(<ProbeProcess as KeyedRow>::key_view(key)),
                            None => None,
                        },
                        old(self).selection as int,
                    ),
                    ..old(self)@.cursor
                },
                ..old(self)@
            }),
    {
        match &self.state {
            ProcessesViewState::Available { rows, .. } => {
                self.selection = reanchor_selection(rows, &self.filter, old_key, self.selection);
            },
            _ => {
                proof {
                    lemma_no_processes(self.filter@);
                }
                self.selection = 0;
            },
        }
    }

    /// A fresh list arrived.
    pub fn refresh(&mut self, rows: Vec<ProbeProcess>, source: String)
        ensures
            final(self)@ == old(self)@.refreshed(ProcessesViewState::Available { rows, source }),
    {
        let old_key = self.selected_key();
        self.state = ProcessesViewState::Available { rows, source };
        self.reanchor_selection(old_key);
    }

    /// The probe became unavailable.
    pub fn lose(&mut self, reason: String)
        ensures
            final(self)@ == old(self)@.lost(ProcessesViewState::Unavailable { reason }),
    {
        self.state = ProcessesViewState::Unavailable { reason };
        self.selection = 0;
    }

    /// Applies a key. Returns whether the view must be redrawn.
    pub fn handle_key(&mut self, key: ScopeKey) -> (redraw: bool)
        ensures
            ({
                let step = list_step(old(self)@.state.rows(), old(self)@.cursor, key);
                &&& final(self)@ == (ProcessesModel { cursor: step.cursor, ..old(self)@ })
                &&& redraw == step.redraw
            }),
    {
        let empty: Vec<ProbeProcess> = Vec::new();
        let rows = match &self.state {
            ProcessesViewState::Available { rows, .. } => rows,
            _ => &empty,
        };
        assert(rows@ =~= self.state.rows());
        list_key(rows, &mut self.selection, &mut self.filter, &mut self.filter_active, key)
    }
}

impl PortsScope {
    /// A tile that has subscribed to both probes and waits.
    pub fn new(ports_sub_id: u64, processes_sub_id: u64) -> (p: PortsScope)
        ensures
            p@ == (PortsScopeModel {
                ports: PortsModel { state: PortsViewState::Connecting, cursor: fresh_cursor() },
                processes: ProcessesModel {
                    state: ProcessesViewState::Connecting,
                    cursor: fresh_cursor(),
                },
                active: PortsActiveView::Ports,
                ports_sub_id,
                processes_sub_id,
            }),
    {
        PortsScope {
            ports: PortsView {
                state: PortsViewState::Connecting,
                selection: 0,
                filter: String::new(),
                filter_active: false,
            },
            processes: ProcessesView {
                state: ProcessesViewState::Connecting,
                selection: 0,
                filter: String::new(),
                filter_active: false,
            },
            active: PortsActiveView::Ports,
            ports_sub_id,
            processes_sub_id,
        }
    }

    /// Applies a key. Returns whether the tile must be redrawn.
    pub fn handle_key(&mut self, key: ScopeKey) -> (redraw: bool)
        ensures
            final(self)@ == old(self)@.step(key).scope,
            redraw == old(self)@.step(key).redraw,
    {
        let typing: bool = match self.active {
            PortsActiveView::Ports => self.ports.filter_active,
            PortsActiveView::Processes => self.processes.filter_active,
        };
        if key == ScopeKey::Char(0x70) && !typing {
            self.active = match self.active {
                PortsActiveView::Ports => PortsActiveView::Processes,
                PortsActiveView::Processes => PortsActiveView::Ports,
            };
            return true;
        }
        match self.active {
            PortsActiveView::Ports => self.ports.handle_key(key),
            PortsActiveView::Processes => self.processes.handle_key(key),
        }
    }
}

/// Switching views never touches a list, a filter or a cursor, and switching
/// back leaves the tile as it was, unless the other view's filter takes the
/// key.
pub proof fn toggling_twice_restores(m: PortsScopeModel)
    requires
        !m.typing(),
    ensures
        ({
            let other = m.step(ScopeKey::Char(0x70)).scope;
            &&& other.active != m.active
            &&& other.ports == m.ports
            &&& other.processes == m.processes
            &&& !other.typing() ==> other.step(ScopeKey::Char(0x70)).scope == m
        }),
{
}

/// A key for one view leaves the other view alone.
pub proof fn views_are_independent(m: PortsScopeModel, key: ScopeKey)
    ensures
        m.active == PortsActiveView::Ports ==> m.step(key).scope.processes == m.processes,
        m.active == PortsActiveView::Processes ==> m.step(key).scope.ports == m.ports,
{
}

} // verus!
