//! State of the SSH Fleet tile.

use vstd::hash_map::StringHashMap;
use vstd::prelude::*;

use crate::keys::ScopeKey;
use crate::list::{
    fresh_cursor, list_key, list_step, matches_filter, nth_visible, reanchor, reanchor_selection,
    row_matches, selected_key, visible, visible_count, Cursor, FilterRow, KeyedRow, RowKey,
};
use crate::proto::{HostEntry, HostState};
use crate::text::{lowercase, texts, to_lowercase};

verus! {

/// Lifecycle of the Fleet tile. A failed discovery is an empty host list
/// whose source says so.
pub enum FleetScopeState {
    Connecting,
    Available { hosts: Vec<HostEntry>, states: StringHashMap<HostState>, source: String },
}

/// The Fleet tile.
pub struct FleetScope {
    pub state: FleetScopeState,
    /// Index into the rows that the filter lets through.
    pub selection: usize,
    pub filter: String,
    pub filter_active: bool,
    pub sub_id: u64,
}

/// Identity of a host across refreshes: its alias.
#[derive(Debug, Clone)]
pub struct FleetKey(pub String);

impl FleetKey {
    /// The host's identity.
    pub fn of(h: &HostEntry) -> (key: FleetKey)
        ensures
            key.0@ == h.alias@,
    {
        FleetKey(h.alias.clone())
    }
}

impl FilterRow for HostEntry {
    /// Alias, hostname and user.
    open spec fn haystacks(&self) -> Seq<Seq<char>> {
        seq![lowercase(self.alias@), lowercase(self.hostname@), lowercase(self.user@)]
    }

    fn filter_texts(&self) -> (r: Vec<String>) {
        let mut out: Vec<String> = Vec::new();
        out.push(to_lowercase(self.alias.as_str()));
        out.push(to_lowercase(self.hostname.as_str()));
        out.push(to_lowercase(self.user.as_str()));
        assert(texts(out@) =~= self.haystacks());
        out
    }
}

impl KeyedRow for HostEntry {
    type Key = FleetKey;

    open spec fn row_key(&self) -> RowKey {
        RowKey::Host { alias: self.alias@ }
    }

    open spec fn key_view(key: FleetKey) -> RowKey {
        RowKey::Host { alias: key.0@ }
    }

    fn key_of(&self) -> (key: FleetKey) {
        FleetKey::of(self)
    }

    fn has_key(&self, key: &FleetKey) -> (r: bool) {
        self.alias == key.0
    }
}

/// [`FleetScopeState`] with its contents viewed.
#[verifier::ext_equal]
pub ghost enum FleetStateModel {
    Connecting,
    Available { hosts: Seq<HostEntry>, states: Map<Seq<char>, HostState>, source: Seq<char> },
}

impl View for FleetScopeState {
    type V = FleetStateModel;

    open spec fn view(&self) -> FleetStateModel {
        match self {
            FleetScopeState::Connecting => FleetStateModel::Connecting,
            FleetScopeState::Available { hosts, states, source } => FleetStateModel::Available {
                hosts: hosts@,
                states: states@,
                source: source@,
            },
        }
    }
}

impl FleetStateModel {
    /// The configured hosts; none before the first list.
    pub open spec fn rows(self) -> Seq<HostEntry> {
        match self {
            FleetStateModel::Available { hosts, .. } => hosts,
            FleetStateModel::Connecting => Seq::empty(),
        }
    }

    /// The known connection states; none before the first list.
    pub open spec fn known(self) -> Map<Seq<char>, HostState> {
        match self {
            FleetStateModel::Available { states, .. } => states,
            FleetStateModel::Connecting => Map::empty(),
        }
    }
}

/// `alias` names one of the hosts.
pub open spec fn is_alias(hosts: Seq<HostEntry>, alias: Seq<char>) -> bool {
    exists|i: int| 0 <= i < hosts.len() && (#[trigger] hosts[i]).alias@ == alias
}

/// The connection state of every listed host: as it was known, and
/// disconnected for a host that is new.
pub open spec fn carried_states(
    hosts: Seq<HostEntry>,
    known: Map<Seq<char>, HostState>,
) -> Map<Seq<char>, HostState> {
    Map::new(
        |alias: Seq<char>| is_alias(hosts, alias),
        |alias: Seq<char>|
            if known.contains_key(alias) {
                known[alias]
            } else {
                HostState::Disconnected
            },
    )
}

/// What is known of a host's connection; nothing known means it is down.
pub open spec fn state_of(states: Map<Seq<char>, HostState>, h: HostEntry) -> HostState {
    if states.contains_key(h.alias@) {
        states[h.alias@]
    } else {
        HostState::Disconnected
    }
}

/// What is known of a host's connection.
pub fn connection_state(states: &StringHashMap<HostState>, h: &HostEntry) -> (r: HostState)
    ensures
        r == state_of(states@, *h),
{
    match states.get(h.alias.as_str()) {
        Some(state) => *state,
        None => HostState::Disconnected,
    }
}

/// [`FleetScope`] with its contents viewed.
#[verifier::ext_equal]
pub ghost struct FleetModel {
    pub state: FleetStateModel,
    pub cursor: Cursor,
    pub sub_id: u64,
}

impl View for FleetScope {
    type V = FleetModel;

    open spec fn view(&self) -> FleetModel {
        FleetModel {
            state: self.state@,
            cursor: Cursor {
                selection: self.selection as int,
                filter: self.filter@,
                filter_active: self.filter_active,
            },
            sub_id: self.sub_id,
        }
    }
}

impl FleetModel {
    /// The hosts that the tile lists.
    pub open spec fn shown(self) -> Seq<HostEntry> {
        visible(self.state.rows(), self.cursor.filter)
    }

    /// A host list arrived: known connection states are kept and the cursor
    /// follows its row.
    pub open spec fn refreshed(self, hosts: Seq<HostEntry>, source: Seq<char>) -> FleetModel {
        FleetModel {
            state: FleetStateModel::Available {
                hosts,
                states: carried_states(hosts, self.state.known()),
                source,
            },
            cursor: Cursor {
                selection: reanchor(
                    visible(hosts, self.cursor.filter),
                    selected_key(self.shown(), self.cursor.selection),
                    self.cursor.selection,
                ),
                ..self.cursor
            },
            ..self
        }
    }

    /// A host's connection state changed. Before the first list this is
    /// ignored.
    pub open spec fn host_changed(self, alias: Seq<char>, state: HostState) -> FleetModel {
        match self.state {
            FleetStateModel::Available { hosts, states, source } => FleetModel {
                state: FleetStateModel::Available {
                    hosts,
                    states: states.insert(alias, state),
                    source,
                },
                ..self
            },
            FleetStateModel::Connecting => self,
        }
    }
}

proof fn lemma_no_hosts(filter: Seq<char>)
    ensures
        visible(Seq::<HostEntry>::empty(), filter).len() == 0,
{
    reveal(Seq::filter);
}

/// The connection states of `hosts`, carried over from `known`.
fn carry_states(hosts: &Vec<HostEntry>, known: Option<&StringHashMap<HostState>>) -> (r:
    StringHashMap<HostState>)
    ensures
        r@ == carried_states(
            hosts@,
            match known {
                Some(states) => states@,
                None => Map::empty(),
            },
        ),
{
    let ghost before = match known {
        Some(states) => states@,
        None => Map::<Seq<char>, HostState>::empty(),
    };
    let mut states: StringHashMap<HostState> = StringHashMap::new();
    let n: usize = hosts.len();
    let mut i: usize = 0;
    assert(states@ =~= carried_states(hosts@.take(0), before));
    while i < n
        invariant
            n == hosts@.len(),
            0 <= i <= n,
            before == (match known {
                Some(states) => states@,
                None => Map::<Seq<char>, HostState>::empty(),
            }),
            states@ == carried_states(hosts@.take(i as int), before),
        decreases n - i,
    {
        let alias = &hosts[i].alias;
        let state: HostState = match known {
            Some(states) => match states.get(alias.as_str()) {
                Some(state) => *state,
                None => HostState::Disconnected,
            },
            None => HostState::Disconnected,
        };
        states.insert(alias.clone(), state);
        proof {
            let shorter = hosts@.take(i as int);
            let longer = hosts@.take(i as int + 1);
            assert forall|a: Seq<char>|
                is_alias(longer, a) <==> is_alias(shorter, a) || a == alias@ by {
                if is_alias(longer, a) {
                    let k = choose|k: int|
                        0 <= k < longer.len() && (#[trigger] longer[k]).alias@ == a;
                    if k < i {
                        assert(shorter[k] == longer[k]);
                    }
                }
                if is_alias(shorter, a) {
                    let k = choose|k: int|
                        0 <= k < shorter.len() && (#[trigger] shorter[k]).alias@ == a;
                    assert(longer[k] == shorter[k]);
                }
                if a == alias@ {
                    assert(longer[i as int].alias@ == a);
                }
            }
            assert(states@ =~= carried_states(longer, before));
        }
        i += 1;
    }
    assert(hosts@.take(n as int) =~= hosts@);
    states
}

impl FleetScope {
    /// A tile that has subscribed and waits for the first list.
    pub fn new(sub_id: u64) -> (f: FleetScope)
        ensures
            f@ == (FleetModel {
                state: FleetStateModel::Connecting,
                cursor: fresh_cursor(),
                sub_id,
            }),
    {
        FleetScope {
            state: FleetScopeState::Connecting,
            selection: 0,
            filter: String::new(),
            filter_active: false,
            sub_id,
        }
    }

    /// Whether the filter lets the host through.
    pub fn matches_filter(&self, h: &HostEntry) -> (r: bool)
        ensures
            r == row_matches(self.filter@, *h),
    {
        matches_filter(&self.filter, h)
    }

    /// How many hosts are listed.
    pub fn visible_count(&self) -> (n: usize)
        ensures
            n == self@.shown().len(),
    {
        match &self.state {
            FleetScopeState::Available { hosts, .. } => visible_count(hosts, &self.filter),
            FleetScopeState::Connecting => {
                proof {
                    lemma_no_hosts(self.filter@);
                }
                0
            },
        }
    }

    /// The selected host.
    pub fn selected_host(&self) -> (r: Option<&HostEntry>)
        ensures
            match r {
                Some(h) => self.selection < self@.shown().len() && *h
                    == self@.shown()[self.selection as int],
                None => self.selection >= self@.shown().len(),
            },
    {
        match &self.state {
            FleetScopeState::Available { hosts, .. } => nth_visible(
                hosts,
                &self.filter,
                self.selection,
            ),
            FleetScopeState::Connecting => {
                proof {
                    lemma_no_hosts(self.filter@);
                }
                None
            },
        }
    }

    /// The key of the selected host.
    pub fn selected_key(&self) -> (r: Option<FleetKey>)
        ensures
            selected_key(self@.shown(), self.selection as int) == (match r {
                Some(key) => Some(<HostEntry as KeyedRow>::key_view(key)),
                None => None,
            }),
    {
        match self.selected_host() {
            Some(h) => Some(h.key_of()),
            None => None,
        }
    }

    /// Moves the cursor to the row with `old_key`, or else to the nearest row.
    pub fn reanchor_selection(&mut self, old_key: Option<FleetKey>)
        ensures
            final(self)@ == (FleetModel {
                cursor: Cursor {
                    selection: reanchor(
                        old(self)@.shown(),
                        match old_key {
                            Some(key) => Some(<HostEntry as KeyedRow>::key_view(key)),
                            None => None,
                        },
                        old(self).selection as int,
                    ),
                    ..old(self)@.cursor
                },
                ..old(self)@
            }),
    {
        match &self.state {
            FleetScopeState::Available { hosts, .. } => {
                self.selection = reanchor_selection(hosts, &self.filter, old_key, self.selection);
            },
            FleetScopeState::Connecting => {
                proof {
                    lemma_no_hosts(self.filter@);
                }
                self.selection = 0;
            },
        }
    }

    /// A host list arrived.
    pub fn refresh(&mut self, hosts: Vec<HostEntry>, source: String)
        ensures
            final(self)@ == old(self)@.refreshed(hosts@, source@),
    {
        let old_key = self.selected_key();
        let states = match &self.state {
            FleetScopeState::Available { states, .. } => carry_states(&hosts, Some(states)),
            FleetScopeState::Connecting => carry_states(&hosts, None),
        };
        self.state = FleetScopeState::Available { hosts, states, source };
        self.reanchor_selection(old_key);
    }

    /// A host's connection state changed. Returns whether the tile must be
    /// redrawn.
    pub fn change_host(&mut self, alias: String, state: HostState) -> (redraw: bool)
        ensures
            final(self)@ == old(self)@.host_changed(alias@, state),
            redraw == (old(self)@.state is Available),
    {
        match &mut self.state {
            FleetScopeState::Available { states, .. } => {
                states.insert(alias, state);
                true
            },
            FleetScopeState::Connecting => false,
        }
    }

    /// Applies a key. Returns whether the tile must be redrawn.
    pub fn handle_key(&mut self, key: ScopeKey) -> (redraw: bool)
        ensures
            ({
                let step = list_step(old(self)@.state.rows(), old(self)@.cursor, key);
                &&& final(self)@ == (FleetModel { cursor: step.cursor, ..old(self)@ })
                &&& redraw == step.redraw
            }),
    {
        let empty: Vec<HostEntry> = Vec::new();
        let rows = match &self.state {
            FleetScopeState::Available { hosts, .. } => hosts,
            FleetScopeState::Connecting => &empty,
        };
        assert(rows@ =~= self.state@.rows());
        list_key(rows, &mut self.selection, &mut self.filter, &mut self.filter_active, key)
    }
}

/// A refreshed host list does not make connection markers blink: a host that
/// was listed keeps its state, and a new one is disconnected.
pub proof fn refresh_keeps_host_states(m: FleetModel, hosts: Seq<HostEntry>, source: Seq<char>, i: int)
    requires
        0 <= i < hosts.len(),
    ensures
        ({
            let alias = hosts[i].alias@;
            let states = m.refreshed(hosts, source).state.known();
            &&& states.contains_key(alias)
            &&& m.state.known().contains_key(alias) ==> states[alias] == m.state.known()[alias]
            &&& !m.state.known().contains_key(alias) ==> states[alias] == HostState::Disconnected
        }),
{
    assert(is_alias(hosts, hosts[i].alias@));
}

} // verus!
