//! The fleet: what is known of each host.

use vstd::prelude::*;

use crate::event::{ActionView, AppEvent};
use crate::fleet::{is_alias, state_of, FleetModel};
use crate::geometry::Rect;
use crate::keys::ScopeKey;
use crate::list::{reanchor, selected_key, visible, Cursor, KeyedRow};
use crate::model::{AppModel, Step};
use crate::promises::keyboard::{arrows_are_read, escapes_and_arrows_go_on, home_and_end_are_read};
use crate::promises::lists::the_cursor_stays_with_its_row;
use crate::promises::typing::{
    at_rest, lemma_chunk_is_read, lemma_focus_routes, lemma_typed, lemma_typed_escape,
};
use crate::proto::{Envelope, Event, EventFrame, HostEntry, HostState, Payload};
use crate::tile::{ScopeKind, TileId};

verus! {

/// Once there is a list of hosts, what was heard last of a host is what is
/// known of it, whatever it was, and what is known of every other host stays
/// as it is. So do the list and the cursor.
pub proof fn the_last_word_on_a_host_counts(
    m: AppModel,
    alias: String,
    state: HostState,
    other: Seq<char>,
    now: u64,
    after: Step,
)
    requires
        m.fleet.state is Available,
        m.fleet.sub_id != m.pane_sub,
        m.fleet.sub_id != m.docker.sub_id,
        !m.docker.follows(m.fleet.sub_id),
        m.fleet.sub_id != m.ports.ports_sub_id,
        m.fleet.sub_id != m.ports.processes_sub_id,
        other != alias@,
        m.leads_to(
            AppEvent::DaemonEnvelope(
                Envelope {
                    payload: Payload::Event(
                        EventFrame {
                            subscription_id: m.fleet.sub_id,
                            event: Event::HostStateChanged { alias, state },
                        },
                    ),
                },
            ),
            now,
            after,
        ),
    ensures
        after.actions == seq![ActionView::DrawFrame],
        after.app.fleet.state is Available,
        after.app.fleet.state->states.contains_key(alias@),
        after.app.fleet.state->states[alias@] == state,
        after.app.fleet.state->states.contains_key(other)
            == m.fleet.state->states.contains_key(other),
        m.fleet.state->states.contains_key(other) ==> after.app.fleet.state->states[other]
            == m.fleet.state->states[other],
        after.app.fleet.state->hosts == m.fleet.state->hosts,
        after.app.fleet.state->source == m.fleet.state->source,
        after.app.fleet.cursor == m.fleet.cursor,
        after.app.fleet.sub_id == m.fleet.sub_id,
        after.app == (AppModel { fleet: after.app.fleet, ..m }),
{
    reveal(AppModel::event);
}

/// Before there is a list, nothing is known of any host and nothing is kept.
pub proof fn hosts_are_unknown_before_they_are_listed(
    m: AppModel,
    alias: String,
    state: HostState,
    now: u64,
    after: Step,
)
    requires
        m.fleet.state is Connecting,
        m.leads_to(
            AppEvent::DaemonEnvelope(
                Envelope {
                    payload: Payload::Event(
                        EventFrame {
                            subscription_id: m.fleet.sub_id,
                            event: Event::HostStateChanged { alias, state },
                        },
                    ),
                },
            ),
            now,
            after,
        ),
    ensures
        after.app == m,
        after.actions.len() == 0,
{
    reveal(AppModel::event);
}

/// A list of hosts is shown as it came. A host that was listed before keeps
/// the state that was known of it, a new one is down, and one that is gone is
/// forgotten. The cursor follows its host.
pub proof fn a_list_of_hosts_is_shown_as_it_came(
    m: AppModel,
    hosts: Vec<HostEntry>,
    source: String,
    alias: Seq<char>,
    i: int,
    now: u64,
    after: Step,
)
    requires
        m.fleet.cursor.selection >= 0,
        m.fleet.sub_id != m.pane_sub,
        m.fleet.sub_id != m.docker.sub_id,
        !m.docker.follows(m.fleet.sub_id),
        m.fleet.sub_id != m.ports.ports_sub_id,
        m.fleet.sub_id != m.ports.processes_sub_id,
        m.leads_to(
            AppEvent::DaemonEnvelope(
                Envelope {
                    payload: Payload::Event(
                        EventFrame {
                            subscription_id: m.fleet.sub_id,
                            event: Event::HostList { hosts, source },
                        },
                    ),
                },
            ),
            now,
            after,
        ),
    ensures
        after.actions == seq![ActionView::DrawFrame],
        after.app == (AppModel { fleet: after.app.fleet, ..m }),
        after.app.fleet.state is Available,
        after.app.fleet.state->hosts == hosts@,
        after.app.fleet.state->source == source@,
        0 <= i < hosts@.len() && alias == hosts@[i].alias@ ==> {
            &&& after.app.fleet.state->states.contains_key(alias)
            &&& m.fleet.state is Available && m.fleet.state->states.contains_key(alias)
                ==> after.app.fleet.state->states[alias] == m.fleet.state->states[alias]
            &&& !(m.fleet.state is Available && m.fleet.state->states.contains_key(alias))
                ==> after.app.fleet.state->states[alias] == HostState::Disconnected
        },
        (forall|k: int| 0 <= k < hosts@.len() ==> (#[trigger] hosts@[k]).alias@ != alias)
            ==> !after.app.fleet.state->states.contains_key(alias),
        after.app.fleet.cursor.filter == m.fleet.cursor.filter,
        after.app.fleet.cursor.filter_active == m.fleet.cursor.filter_active,
        m.fleet.state is Available && 0 <= m.fleet.cursor.selection < visible(
            m.fleet.state->hosts,
            m.fleet.cursor.filter,
        ).len() && 0 <= i < visible(hosts@, m.fleet.cursor.filter).len() && visible(
            hosts@,
            m.fleet.cursor.filter,
        )[i].alias@ == visible(m.fleet.state->hosts, m.fleet.cursor.filter)[
            m.fleet.cursor.selection
        ].alias@ ==> {
            let to = after.app.fleet.cursor.selection;
            &&& 0 <= to < visible(hosts@, m.fleet.cursor.filter).len()
            &&& visible(hosts@, m.fleet.cursor.filter)[to].alias@ == visible(
                m.fleet.state->hosts,
                m.fleet.cursor.filter,
            )[m.fleet.cursor.selection].alias@
        },
        ({
            let shown = visible(hosts@, m.fleet.cursor.filter);
            let at = m.fleet.cursor.selection;
            let gone = m.fleet.state is Connecting || at >= visible(
                m.fleet.state->hosts,
                m.fleet.cursor.filter,
            ).len() || (forall|k: int|
                0 <= k < shown.len() ==> (#[trigger] shown[k]).alias@ != visible(
                    m.fleet.state->hosts,
                    m.fleet.cursor.filter,
                )[at].alias@);
            at >= 0 && gone ==> after.app.fleet.cursor.selection == if at < shown.len() {
                at
            } else if shown.len() > 0 {
                shown.len() - 1
            } else {
                0
            }
        }),
{
    reveal(AppModel::event);
    lemma_lost_rows(m, hosts@);
    if 0 <= i < hosts@.len() && alias == hosts@[i].alias@ {
        assert(is_alias(hosts@, hosts@[i].alias@));
    }
    if m.fleet.state is Available {
        let before = visible(m.fleet.state->hosts, m.fleet.cursor.filter);
        let now_shown = visible(hosts@, m.fleet.cursor.filter);
        let at = m.fleet.cursor.selection;
        if 0 <= at < before.len() && 0 <= i < now_shown.len() && now_shown[i].alias@
            == before[at].alias@ {
            the_cursor_stays_with_its_row(before, now_shown, at, i);
            let to = reanchor(now_shown, selected_key(before, at), at);
            assert(now_shown[to].row_key() == before[at].row_key());
        }
    }
}

proof fn lemma_lost_rows(m: AppModel, hosts: Seq<HostEntry>)
    requires
        m.fleet.cursor.selection >= 0,
    ensures
        ({
            let shown = visible(hosts, m.fleet.cursor.filter);
            let at = m.fleet.cursor.selection;
            let gone = m.fleet.state is Connecting || at >= visible(
                m.fleet.state->hosts,
                m.fleet.cursor.filter,
            ).len() || (forall|k: int|
                0 <= k < shown.len() ==> (#[trigger] shown[k]).alias@ != visible(
                    m.fleet.state->hosts,
                    m.fleet.cursor.filter,
                )[at].alias@);
            gone ==> reanchor(shown, selected_key(m.fleet.shown(), at), at) == if at < shown.len() {
                at
            } else if shown.len() > 0 {
                shown.len() - 1
            } else {
                0
            }
        }),
{
    reveal(Seq::filter);
    let shown = visible(hosts, m.fleet.cursor.filter);
    let before = m.fleet.shown();
    let at = m.fleet.cursor.selection;
    the_cursor_stays_with_its_row(before, shown, at, 0);
    if m.fleet.state is Connecting {
        assert(before.len() == 0);
    } else if at < before.len() && (forall|k: int|
        0 <= k < shown.len() ==> (#[trigger] shown[k]).alias@ != before[at].alias@) {
        assert forall|k: int| 0 <= k < shown.len() implies (#[trigger] shown[k]).row_key()
            != before[at].row_key() by {
            assert(shown[k].alias@ != before[at].alias@);
        }
    }
}

/// A host of which nothing is known counts as down; of any other, what is
/// known counts.
pub proof fn unknown_hosts_are_down(states: Map<Seq<char>, HostState>, h: HostEntry)
    ensures
        !states.contains_key(h.alias@) ==> state_of(states, h) == HostState::Disconnected,
        states.contains_key(h.alias@) ==> state_of(states, h) == states[h.alias@],
{
}

/// The cursor of the host list: `j`, Down and `k`, Up go one row on or back as
/// far as there are rows, `g`, Home and `G`, End to the first and the last,
/// and `/` opens the filter. Nothing is sent and nothing else changes.
pub proof fn keys_move_through_hosts(
    m: AppModel,
    area: Rect,
    bytes: Vec<u8>,
    now: u64,
    after: Step,
)
    requires
        at_rest(m, area),
        m.focused == TileId::Fleet,
        m.fleet.state is Available,
        !m.fleet.cursor.filter_active,
        0 <= m.fleet.cursor.selection < visible(
            m.fleet.state->hosts,
            m.fleet.cursor.filter,
        ).len(),
        bytes@.len() == 1 || bytes@.len() == 3,
        bytes@.len() == 1 ==> bytes@[0] == 0x6a || bytes@[0] == 0x6b || bytes@[0] == 0x67
            || bytes@[0] == 0x47 || bytes@[0] == 0x2f,
        bytes@.len() == 3 ==> bytes@[0] == 0x1b && bytes@[1] == 0x5b && (bytes@[2] == 0x41
            || bytes@[2] == 0x42 || bytes@[2] == 0x46 || bytes@[2] == 0x48),
        m.leads_to(AppEvent::StdinChunk(bytes), now, after),
    ensures
        ({
            let n = visible(m.fleet.state->hosts, m.fleet.cursor.filter).len();
            let at = m.fleet.cursor.selection;
            let b = bytes@.last();
            let alone = bytes@.len() == 1;
            &&& after.actions == seq![ActionView::DrawFrame]
            &&& after.app == (AppModel {
                fleet: FleetModel {
                    cursor: Cursor {
                        selection: if (if alone { b == 0x6a } else { b == 0x42 }) && at + 1 < n {
                            at + 1
                        } else if (if alone { b == 0x6b } else { b == 0x41 }) && at > 0 {
                            at - 1
                        } else if (if alone { b == 0x67 } else { b == 0x48 }) {
                            0
                        } else if (if alone { b == 0x47 } else { b == 0x46 }) {
                            n - 1
                        } else {
                            at
                        },
                        filter_active: b == 0x2f,
                        ..m.fleet.cursor
                    },
                    ..m.fleet
                },
                ..m
            })
        }),
{
    lemma_focus_routes(m, area);
    reveal(AppModel::scope_key);
    if bytes@.len() == 1 {
        assert(bytes@ =~= seq![bytes@[0]]);
        lemma_typed(m, area, ScopeKind::Fleet, bytes@[0], now);
    } else {
        let last = bytes@[2];
        assert(bytes@ =~= seq![0x1bu8, 0x5bu8, last]);
        escapes_and_arrows_go_on(last);
        arrows_are_read();
        home_and_end_are_read();
        let key = if last == 0x41 {
            ScopeKey::Up
        } else if last == 0x42 {
            ScopeKey::Down
        } else if last == 0x46 {
            ScopeKey::End
        } else {
            ScopeKey::Home
        };
        lemma_chunk_is_read(m, ScopeKind::Fleet, bytes@, key, now);
    }
}

/// What is typed into the host filter becomes the filter; Backspace takes a
/// character away, Enter keeps the filter and Escape empties it. The hosts and
/// what is known of them stay.
pub proof fn the_host_filter_takes_what_is_typed(
    m: AppModel,
    area: Rect,
    b: u8,
    bytes: Vec<u8>,
    now: u64,
    after: Step,
)
    requires
        at_rest(m, area),
        m.focused == TileId::Fleet,
        m.fleet.cursor.filter_active,
        bytes@ == seq![b],
        0x20 <= b <= 0x7f || b == 0x08 || b == 0x0d || b == 0x0a || b == 0x1b,
        m.leads_to(AppEvent::StdinChunk(bytes), now, after),
    ensures
        ({
            let from = m.fleet.cursor;
            let to = after.app.fleet.cursor;
            &&& after.app == (AppModel { fleet: FleetModel { cursor: to, ..m.fleet }, ..m })
            &&& forall|i: int|
                0 <= i < after.actions.len() ==> #[trigger] after.actions[i]
                    == ActionView::DrawFrame
            &&& 0x20 <= b <= 0x7e ==> to.filter == from.filter.push(b as char) && to.filter_active
            &&& (b == 0x7f || b == 0x08) && from.filter.len() > 0 ==> to.filter
                == from.filter.subrange(0, from.filter.len() - 1) && to.filter_active
            &&& (b == 0x7f || b == 0x08) && from.filter.len() == 0 ==> to == from
            &&& b == 0x0d || b == 0x0a ==> to == (Cursor { filter_active: false, ..from })
            &&& b == 0x1b ==> to.filter.len() == 0 && !to.filter_active
        }),
{
    lemma_focus_routes(m, area);
    if b == 0x1b {
        lemma_typed_escape(m, area, ScopeKind::Fleet, now);
    } else {
        lemma_typed(m, area, ScopeKind::Fleet, b, now);
    }
    reveal(AppModel::scope_key);
    if m.fleet.cursor.filter.len() > 0 {
        assert(m.fleet.cursor.filter.drop_last() =~= m.fleet.cursor.filter.subrange(
            0,
            m.fleet.cursor.filter.len() - 1,
        ));
    }
}

/// No other character does anything to the hosts.
pub proof fn other_characters_do_nothing_to_hosts(
    m: AppModel,
    area: Rect,
    b: u8,
    bytes: Vec<u8>,
    now: u64,
    after: Step,
)
    requires
        at_rest(m, area),
        m.focused == TileId::Fleet,
        !m.fleet.cursor.filter_active,
        bytes@ == seq![b],
        b != 0x09 && b != 0x02,
        b != 0x6a && b != 0x6b && b != 0x67 && b != 0x47 && b != 0x2f,
        m.leads_to(AppEvent::StdinChunk(bytes), now, after),
    ensures
        after.app == m,
        after.actions.len() == 0,
{
    lemma_focus_routes(m, area);
    if b == 0x1b {
        lemma_typed_escape(m, area, ScopeKind::Fleet, now);
    } else {
        lemma_typed(m, area, ScopeKind::Fleet, b, now);
    }
    reveal(AppModel::scope_key);
}

} // verus!
