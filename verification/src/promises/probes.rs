//! Ports and processes: what the probe reports and how it is read.

use vstd::prelude::*;

use crate::event::{ActionView, AppEvent};
use crate::geometry::Rect;
use crate::keys::ScopeKey;
use crate::list::{reanchor, selected_key, visible, Cursor, KeyedRow};
use crate::model::{AppModel, Step};
use crate::ports::{
    PortsActiveView, PortsModel, PortsScopeModel, PortsViewState, ProcessesModel,
    ProcessesViewState,
};
use crate::promises::keyboard::{arrows_are_read, escapes_and_arrows_go_on, home_and_end_are_read};
use crate::promises::lists::the_cursor_stays_with_its_row;
use crate::promises::typing::{
    at_rest, lemma_chunk_is_read, lemma_focus_routes, lemma_typed, lemma_typed_escape,
};
use crate::proto::{Envelope, Event, EventFrame, Payload, ProbePort, ProbeProcess};
use crate::tile::{ScopeKind, TileId};

verus! {

/// `p` switches between ports and processes, unless it is being typed into a
/// filter. Nothing else changes.
pub proof fn p_switches_between_ports_and_processes(
    m: AppModel,
    area: Rect,
    bytes: Vec<u8>,
    now: u64,
    after: Step,
)
    requires
        at_rest(m, area),
        m.focused == TileId::Ports,
        m.ports.active == PortsActiveView::Ports ==> !m.ports.ports.cursor.filter_active,
        m.ports.active == PortsActiveView::Processes ==> !m.ports.processes.cursor.filter_active,
        bytes@ == seq![0x70u8],
        m.leads_to(AppEvent::StdinChunk(bytes), now, after),
    ensures
        after.actions == seq![ActionView::DrawFrame],
        after.app == (AppModel {
            ports: PortsScopeModel {
                active: if m.ports.active == PortsActiveView::Ports {
                    PortsActiveView::Processes
                } else {
                    PortsActiveView::Ports
                },
                ..m.ports
            },
            ..m
        }),
{
    lemma_focus_routes(m, area);
    lemma_typed(m, area, ScopeKind::Ports, 0x70, now);
    reveal(AppModel::scope_key);
}

/// The cursor of the port list: `j`, Down and `k`, Up go one row on or back
/// as far as there are rows, `g`, Home and `G`, End to the first and the last,
/// and `/` opens the filter. Nothing is sent and nothing else changes.
pub proof fn keys_move_through_ports(
    m: AppModel,
    area: Rect,
    bytes: Vec<u8>,
    now: u64,
    after: Step,
)
    requires
        at_rest(m, area),
        m.focused == TileId::Ports,
        m.ports.active == PortsActiveView::Ports,
        m.ports.ports.state is Available,
        !m.ports.ports.cursor.filter_active,
        0 <= m.ports.ports.cursor.selection < visible(
            m.ports.ports.state->rows@,
            m.ports.ports.cursor.filter,
        ).len(),
        bytes@.len() == 1 || bytes@.len() == 3,
        bytes@.len() == 1 ==> bytes@[0] == 0x6a || bytes@[0] == 0x6b || bytes@[0] == 0x67
            || bytes@[0] == 0x47 || bytes@[0] == 0x2f,
        bytes@.len() == 3 ==> bytes@[0] == 0x1b && bytes@[1] == 0x5b && (bytes@[2] == 0x41
            || bytes@[2] == 0x42 || bytes@[2] == 0x46 || bytes@[2] == 0x48),
        m.leads_to(AppEvent::StdinChunk(bytes), now, after),
    ensures
        ({
            let n = visible(m.ports.ports.state->rows@, m.ports.ports.cursor.filter).len();
            let at = m.ports.ports.cursor.selection;
            let b = bytes@.last();
            let alone = bytes@.len() == 1;
            &&& after.actions == seq![ActionView::DrawFrame]
            &&& after.app == (AppModel {
                ports: PortsScopeModel {
                    ports: PortsModel {
                        cursor: Cursor {
                            selection: if (if alone { b == 0x6a } else { b == 0x42 }) && at + 1
                                < n {
                                at + 1
                            } else if (if alone { b == 0x6b } else { b == 0x41 }) && at > 0 {
                                at - 1
                            } else if (if alone { b == 0x67 } else { b == 0x48 }) {
                                0
                            } else if (if alone { b == 0x47 } else { b == 0x46 }) {
                                n - 1
                            } else {
                                at
                            },
                            filter_active: b == 0x2f,
                            ..m.ports.ports.cursor
                        },
                        ..m.ports.ports
                    },
                    ..m.ports
                },
                ..m
            })
        }),
{
    lemma_focus_routes(m, area);
    reveal(AppModel::scope_key);
    if bytes@.len() == 1 {
        assert(bytes@ =~= seq![bytes@[0]]);
        lemma_typed(m, area, ScopeKind::Ports, bytes@[0], now);
    } else {
        let last = bytes@[2];
        assert(bytes@ =~= seq![0x1bu8, 0x5bu8, last]);
        escapes_and_arrows_go_on(last);
        arrows_are_read();
        home_and_end_are_read();
        let key = if last == 0x41 {
            ScopeKey::Up
        } else if last == 0x42 {
            ScopeKey::Down
        } else if last == 0x46 {
            ScopeKey::End
        } else {
            ScopeKey::Home
        };
        lemma_chunk_is_read(m, ScopeKind::Ports, bytes@, key, now);
    }
}

/// What is typed into the port filter becomes the filter; Backspace takes a
/// character away, Enter keeps the filter and Escape empties it. Nothing else
/// changes.
pub proof fn the_port_filter_takes_what_is_typed(
    m: AppModel,
    area: Rect,
    b: u8,
    bytes: Vec<u8>,
    now: u64,
    after: Step,
)
    requires
        at_rest(m, area),
        m.focused == TileId::Ports,
        m.ports.active == PortsActiveView::Ports,
        m.ports.ports.cursor.filter_active,
        bytes@ == seq![b],
        0x20 <= b <= 0x7f || b == 0x08 || b == 0x0d || b == 0x0a || b == 0x1b,
        m.leads_to(AppEvent::StdinChunk(bytes), now, after),
    ensures
        ({
            let from = m.ports.ports.cursor;
            let to = after.app.ports.ports.cursor;
            &&& after.app == (AppModel {
                ports: PortsScopeModel {
                    ports: PortsModel { cursor: to, ..m.ports.ports },
                    ..m.ports
                },
                ..m
            })
            &&& forall|i: int|
                0 <= i < after.actions.len() ==> #[trigger] after.actions[i]
                    == ActionView::DrawFrame
            &&& 0x20 <= b <= 0x7e ==> to.filter == from.filter.push(b as char) && to.filter_active
            &&& (b == 0x7f || b == 0x08) && from.filter.len() > 0 ==> to.filter
                == from.filter.subrange(0, from.filter.len() - 1) && to.filter_active
            &&& (b == 0x7f || b == 0x08) && from.filter.len() == 0 ==> to == from
            &&& b == 0x0d || b == 0x0a ==> to == (Cursor { filter_active: false, ..from })
            &&& b == 0x1b ==> to.filter.len() == 0 && !to.filter_active
        }),
{
    lemma_focus_routes(m, area);
    if b == 0x1b {
        lemma_typed_escape(m, area, ScopeKind::Ports, now);
    } else {
        lemma_typed(m, area, ScopeKind::Ports, b, now);
    }
    reveal(AppModel::scope_key);
    if m.ports.ports.cursor.filter.len() > 0 {
        assert(m.ports.ports.cursor.filter.drop_last() =~= m.ports.ports.cursor.filter.subrange(
            0,
            m.ports.ports.cursor.filter.len() - 1,
        ));
    }
}

/// A list of ports is shown as it came, and the cursor follows its row. A
/// probe that cannot be had is shown with its reason, and the cursor goes to
/// the top. Nothing else changes.
pub proof fn ports_are_shown_as_they_came(
    m: AppModel,
    rows: Vec<ProbePort>,
    source: String,
    reason: String,
    i: int,
    now: u64,
    listed: Step,
    lost: Step,
)
    requires
        m.ports.ports_sub_id != m.pane_sub,
        m.ports.ports_sub_id != m.docker.sub_id,
        !m.docker.follows(m.ports.ports_sub_id),
        m.leads_to(
            AppEvent::DaemonEnvelope(
                Envelope {
                    payload: Payload::Event(
                        EventFrame {
                            subscription_id: m.ports.ports_sub_id,
                            event: Event::PortList { ports: rows, source },
                        },
                    ),
                },
            ),
            now,
            listed,
        ),
        m.leads_to(
            AppEvent::DaemonEnvelope(
                Envelope {
                    payload: Payload::Event(
                        EventFrame {
                            subscription_id: m.ports.ports_sub_id,
                            event: Event::PortsUnavailable { reason },
                        },
                    ),
                },
            ),
            now,
            lost,
        ),
    ensures
        ({
            let filter = m.ports.ports.cursor.filter;
            let at = m.ports.ports.cursor.selection;
            let to = listed.app.ports.ports.cursor.selection;
            &&& listed.actions == seq![ActionView::DrawFrame]
            &&& listed.app == (AppModel {
                ports: PortsScopeModel {
                    ports: PortsModel {
                        state: PortsViewState::Available { rows, source },
                        cursor: Cursor { selection: to, ..m.ports.ports.cursor },
                    },
                    ..m.ports
                },
                ..m
            })
            &&& m.ports.ports.state is Available && 0 <= at < visible(
                m.ports.ports.state->rows@,
                filter,
            ).len() && 0 <= i < visible(rows@, filter).len() && visible(rows@, filter)[i].protocol@ == visible(m.ports.ports.state->rows@, filter)[at].protocol@
                && visible(rows@, filter)[i].local_port == visible(m.ports.ports.state->rows@, filter)[at].local_port
                && visible(rows@, filter)[i].pid == visible(m.ports.ports.state->rows@, filter)[at].pid ==> 0 <= to < visible(rows@, filter).len() && visible(rows@, filter)[to].protocol@ == visible(m.ports.ports.state->rows@, filter)[at].protocol@
                && visible(rows@, filter)[to].local_port == visible(m.ports.ports.state->rows@, filter)[at].local_port
                && visible(rows@, filter)[to].pid == visible(m.ports.ports.state->rows@, filter)[at].pid
            &&& {
                let shown = visible(rows@, filter);
                let before = visible(m.ports.ports.state->rows@, filter);
                let gone = !(m.ports.ports.state is Available) || at >= before.len() || (forall|k: int|
                    0 <= k < shown.len() ==> (#[trigger] shown[k]).protocol@ != before[at].protocol@ || shown[k].local_port != before[at].local_port || shown[k].pid != before[at].pid);
                at >= 0 && gone ==> to == if at < shown.len() {
                    at
                } else if shown.len() > 0 {
                    shown.len() - 1
                } else {
                    0
                }
            }
            &&& lost.actions == seq![ActionView::DrawFrame]
            &&& lost.app == (AppModel {
                ports: PortsScopeModel {
                    ports: PortsModel {
                        state: PortsViewState::Unavailable { reason },
                        cursor: Cursor { selection: 0, ..m.ports.ports.cursor },
                    },
                    ..m.ports
                },
                ..m
            })
        }),
{
    reveal(AppModel::event);
    reveal(Seq::filter);
    if m.ports.ports.cursor.selection >= 0 {
        let shown = visible(rows@, m.ports.ports.cursor.filter);
        let before = m.ports.ports.shown();
        let at = m.ports.ports.cursor.selection;
        the_cursor_stays_with_its_row(before, shown, at, 0);
        if !(m.ports.ports.state is Available) {
            assert(before.len() == 0);
        } else if at < before.len() && (forall|k: int|
            0 <= k < shown.len() ==> (#[trigger] shown[k]).protocol@ != before[at].protocol@ || shown[k].local_port != before[at].local_port || shown[k].pid != before[at].pid) {
            assert forall|k: int| 0 <= k < shown.len() implies (#[trigger] shown[k]).row_key()
                != before[at].row_key() by {
                assert(shown[k].protocol@ != before[at].protocol@ || shown[k].local_port != before[at].local_port || shown[k].pid != before[at].pid);
            }
        }
    }
    let filter = m.ports.ports.cursor.filter;
    let at = m.ports.ports.cursor.selection;
    if m.ports.ports.state is Available {
        let before = visible(m.ports.ports.state->rows@, filter);
        let shown = visible(rows@, filter);
        if 0 <= at < before.len() && 0 <= i < shown.len() && shown[i].row_key()
            == before[at].row_key() {
            the_cursor_stays_with_its_row(before, shown, at, i);
            let to = reanchor(shown, selected_key(before, at), at);
            assert(shown[to].row_key() == before[at].row_key());
        }
    }
}

/// The cursor of the process list: `j`, Down and `k`, Up go one row on or back
/// as far as there are rows, `g`, Home and `G`, End to the first and the last,
/// and `/` opens the filter. Nothing is sent and nothing else changes.
pub proof fn keys_move_through_processes(
    m: AppModel,
    area: Rect,
    bytes: Vec<u8>,
    now: u64,
    after: Step,
)
    requires
        at_rest(m, area),
        m.focused == TileId::Ports,
        m.ports.active == PortsActiveView::Processes,
        m.ports.processes.state is Available,
        !m.ports.processes.cursor.filter_active,
        0 <= m.ports.processes.cursor.selection < visible(
            m.ports.processes.state->rows@,
            m.ports.processes.cursor.filter,
        ).len(),
        bytes@.len() == 1 || bytes@.len() == 3,
        bytes@.len() == 1 ==> bytes@[0] == 0x6a || bytes@[0] == 0x6b || bytes@[0] == 0x67
            || bytes@[0] == 0x47 || bytes@[0] == 0x2f,
        bytes@.len() == 3 ==> bytes@[0] == 0x1b && bytes@[1] == 0x5b && (bytes@[2] == 0x41
            || bytes@[2] == 0x42 || bytes@[2] == 0x46 || bytes@[2] == 0x48),
        m.leads_to(AppEvent::StdinChunk(bytes), now, after),
    ensures
        ({
            let n = visible(m.ports.processes.state->rows@, m.ports.processes.cursor.filter).len();
            let at = m.ports.processes.cursor.selection;
            let b = bytes@.last();
            let alone = bytes@.len() == 1;
            &&& after.actions == seq![ActionView::DrawFrame]
            &&& after.app == (AppModel {
                ports: PortsScopeModel {
                    processes: ProcessesModel {
                        cursor: Cursor {
                            selection: if (if alone { b == 0x6a } else { b == 0x42 }) && at + 1
                                < n {
                                at + 1
                            } else if (if alone { b == 0x6b } else { b == 0x41 }) && at > 0 {
                                at - 1
                            } else if (if alone { b == 0x67 } else { b == 0x48 }) {
                                0
                            } else if (if alone { b == 0x47 } else { b == 0x46 }) {
                                n - 1
                            } else {
                                at
                            },
                            filter_active: b == 0x2f,
                            ..m.ports.processes.cursor
                        },
                        ..m.ports.processes
                    },
                    ..m.ports
                },
                ..m
            })
        }),
{
    lemma_focus_routes(m, area);
    reveal(AppModel::scope_key);
    if bytes@.len() == 1 {
        assert(bytes@ =~= seq![bytes@[0]]);
        lemma_typed(m, area, ScopeKind::Ports, bytes@[0], now);
    } else {
        let last = bytes@[2];
        assert(bytes@ =~= seq![0x1bu8, 0x5bu8, last]);
        escapes_and_arrows_go_on(last);
        arrows_are_read();
        home_and_end_are_read();
        let key = if last == 0x41 {
            ScopeKey::Up
        } else if last == 0x42 {
            ScopeKey::Down
        } else if last == 0x46 {
            ScopeKey::End
        } else {
            ScopeKey::Home
        };
        lemma_chunk_is_read(m, ScopeKind::Ports, bytes@, key, now);
    }
}

/// What is typed into the process filter becomes the filter; Backspace takes a
/// character away, Enter keeps the filter and Escape empties it. Nothing else
/// changes.
pub proof fn the_process_filter_takes_what_is_typed(
    m: AppModel,
    area: Rect,
    b: u8,
    bytes: Vec<u8>,
    now: u64,
    after: Step,
)
    requires
        at_rest(m, area),
        m.focused == TileId::Ports,
        m.ports.active == PortsActiveView::Processes,
        m.ports.processes.cursor.filter_active,
        bytes@ == seq![b],
        0x20 <= b <= 0x7f || b == 0x08 || b == 0x0d || b == 0x0a || b == 0x1b,
        m.leads_to(AppEvent::StdinChunk(bytes), now, after),
    ensures
        ({
            let from = m.ports.processes.cursor;
            let to = after.app.ports.processes.cursor;
            &&& after.app == (AppModel {
                ports: PortsScopeModel {
                    processes: ProcessesModel { cursor: to, ..m.ports.processes },
                    ..m.ports
                },
                ..m
            })
            &&& forall|i: int|
                0 <= i < after.actions.len() ==> #[trigger] after.actions[i]
                    == ActionView::DrawFrame
            &&& 0x20 <= b <= 0x7e ==> to.filter == from.filter.push(b as char) && to.filter_active
            &&& (b == 0x7f || b == 0x08) && from.filter.len() > 0 ==> to.filter
                == from.filter.subrange(0, from.filter.len() - 1) && to.filter_active
            &&& (b == 0x7f || b == 0x08) && from.filter.len() == 0 ==> to == from
            &&& b == 0x0d || b == 0x0a ==> to == (Cursor { filter_active: false, ..from })
            &&& b == 0x1b ==> to.filter.len() == 0 && !to.filter_active
        }),
{
    lemma_focus_routes(m, area);
    if b == 0x1b {
        lemma_typed_escape(m, area, ScopeKind::Ports, now);
    } else {
        lemma_typed(m, area, ScopeKind::Ports, b, now);
    }
    reveal(AppModel::scope_key);
    if m.ports.processes.cursor.filter.len() > 0 {
        assert(m.ports.processes.cursor.filter.drop_last() =~= m.ports.processes.cursor.filter.subrange(
            0,
            m.ports.processes.cursor.filter.len() - 1,
        ));
    }
}

/// A list of processes is shown as it came, and the cursor follows its row. A
/// probe that cannot be had is shown with its reason, and the cursor goes to
/// the top. Nothing else changes.
pub proof fn processes_are_shown_as_they_came(
    m: AppModel,
    rows: Vec<ProbeProcess>,
    source: String,
    reason: String,
    i: int,
    now: u64,
    listed: Step,
    lost: Step,
)
    requires
        m.ports.processes_sub_id != m.pane_sub,
        m.ports.processes_sub_id != m.docker.sub_id,
        !m.docker.follows(m.ports.processes_sub_id),
        m.ports.processes_sub_id != m.ports.ports_sub_id,
        m.leads_to(
            AppEvent::DaemonEnvelope(
                Envelope {
                    payload: Payload::Event(
                        EventFrame {
                            subscription_id: m.ports.processes_sub_id,
                            event: Event::ProcessList { rows, source },
                        },
                    ),
                },
            ),
            now,
            listed,
        ),
        m.leads_to(
            AppEvent::DaemonEnvelope(
                Envelope {
                    payload: Payload::Event(
                        EventFrame {
                            subscription_id: m.ports.processes_sub_id,
                            event: Event::ProcessesUnavailable { reason },
                        },
                    ),
                },
            ),
            now,
            lost,
        ),
    ensures
        ({
            let filter = m.ports.processes.cursor.filter;
            let at = m.ports.processes.cursor.selection;
            let to = listed.app.ports.processes.cursor.selection;
            &&& listed.actions == seq![ActionView::DrawFrame]
            &&& listed.app == (AppModel {
                ports: PortsScopeModel {
                    processes: ProcessesModel {
                        state: ProcessesViewState::Available { rows, source },
                        cursor: Cursor { selection: to, ..m.ports.processes.cursor },
                    },
                    ..m.ports
                },
                ..m
            })
            &&& m.ports.processes.state is Available && 0 <= at < visible(
                m.ports.processes.state->rows@,
                filter,
            ).len() && 0 <= i < visible(rows@, filter).len() && visible(rows@, filter)[i].pid == visible(m.ports.processes.state->rows@, filter)[at].pid
                && visible(rows@, filter)[i].start_time_unix_secs == visible(m.ports.processes.state->rows@, filter)[at].start_time_unix_secs ==> 0 <= to < visible(rows@, filter).len() && visible(rows@, filter)[to].pid == visible(m.ports.processes.state->rows@, filter)[at].pid
                && visible(rows@, filter)[to].start_time_unix_secs == visible(m.ports.processes.state->rows@, filter)[at].start_time_unix_secs
            &&& {
                let shown = visible(rows@, filter);
                let before = visible(m.ports.processes.state->rows@, filter);
                let gone = !(m.ports.processes.state is Available) || at >= before.len() || (forall|k: int|
                    0 <= k < shown.len() ==> (#[trigger] shown[k]).pid != before[at].pid || shown[k].start_time_unix_secs != before[at].start_time_unix_secs);
                at >= 0 && gone ==> to == if at < shown.len() {
                    at
                } else if shown.len() > 0 {
                    shown.len() - 1
                } else {
                    0
                }
            }
            &&& lost.actions == seq![ActionView::DrawFrame]
            &&& lost.app == (AppModel {
                ports: PortsScopeModel {
                    processes: ProcessesModel {
                        state: ProcessesViewState::Unavailable { reason },
                        cursor: Cursor { selection: 0, ..m.ports.processes.cursor },
                    },
                    ..m.ports
                },
                ..m
            })
        }),
{
    reveal(AppModel::event);
    reveal(Seq::filter);
    if m.ports.processes.cursor.selection >= 0 {
        let shown = visible(rows@, m.ports.processes.cursor.filter);
        let before = m.ports.processes.shown();
        let at = m.ports.processes.cursor.selection;
        the_cursor_stays_with_its_row(before, shown, at, 0);
        if !(m.ports.processes.state is Available) {
            assert(before.len() == 0);
        } else if at < before.len() && (forall|k: int|
            0 <= k < shown.len() ==> (#[trigger] shown[k]).pid != before[at].pid || shown[k].start_time_unix_secs != before[at].start_time_unix_secs) {
            assert forall|k: int| 0 <= k < shown.len() implies (#[trigger] shown[k]).row_key()
                != before[at].row_key() by {
                assert(shown[k].pid != before[at].pid || shown[k].start_time_unix_secs != before[at].start_time_unix_secs);
            }
        }
    }
    let filter = m.ports.processes.cursor.filter;
    let at = m.ports.processes.cursor.selection;
    if m.ports.processes.state is Available {
        let before = visible(m.ports.processes.state->rows@, filter);
        let shown = visible(rows@, filter);
        if 0 <= at < before.len() && 0 <= i < shown.len() && shown[i].row_key()
            == before[at].row_key() {
            the_cursor_stays_with_its_row(before, shown, at, i);
            let to = reanchor(shown, selected_key(before, at), at);
            assert(shown[to].row_key() == before[at].row_key());
        }
    }
}

/// No other character does anything to ports or processes.
pub proof fn other_characters_do_nothing_to_ports_and_processes(
    m: AppModel,
    area: Rect,
    b: u8,
    bytes: Vec<u8>,
    now: u64,
    after: Step,
)
    requires
        at_rest(m, area),
        m.focused == TileId::Ports,
        m.ports.active == PortsActiveView::Ports ==> !m.ports.ports.cursor.filter_active,
        m.ports.active == PortsActiveView::Processes ==> !m.ports.processes.cursor.filter_active,
        bytes@ == seq![b],
        b != 0x09 && b != 0x02,
        b != 0x6a && b != 0x6b && b != 0x67 && b != 0x47 && b != 0x2f && b != 0x70,
        m.leads_to(AppEvent::StdinChunk(bytes), now, after),
    ensures
        after.app == m,
        after.actions.len() == 0,
{
    lemma_focus_routes(m, area);
    if b == 0x1b {
        lemma_typed_escape(m, area, ScopeKind::Ports, now);
    } else {
        lemma_typed(m, area, ScopeKind::Ports, b, now);
    }
    reveal(AppModel::scope_key);
}

} // verus!
