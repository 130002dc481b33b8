//! Containers: acting on them from the Docker tile, and what is reported.

use vstd::prelude::*;
use vstd::utf8::{encode_utf8, is_char_boundary};

use crate::docker::{
    spec_display_name, ConfirmModel, DockerModel, DockerScopeState, DockerViewModel,
};
use crate::event::{ActionView, AppEvent, ToastKind};
use crate::geometry::Rect;
use crate::keys::ScopeKey;
use crate::list::{visible, Cursor};
use crate::logs::LogsModel;
use crate::model::{AppModel, PendingModel, Step, ToastModel};
use crate::promises::keyboard::{arrows_are_read, escapes_and_arrows_go_on, home_and_end_are_read};
use crate::promises::texts::leading_characters_go;
use crate::promises::typing::{
    at_rest, lemma_chunk_is_read, lemma_focus_routes, lemma_typed, lemma_typed_escape,
};
use crate::proto::{
    DockerActionKind, DockerActionOutcome, DockerActionResult, DockerContainer, Envelope, ErrorInfo,
    Event, EventFrame, Payload, Request,
};
use crate::tile::{ScopeKind, TileId};

verus! {

/// The container list has the focus and its keys: no prompt is open, and
/// nothing is being typed into the filter.
pub open spec fn list_has_the_keys(m: AppModel, area: Rect) -> bool {
    &&& at_rest(m, area)
    &&& m.focused == TileId::Docker
    &&& m.docker.view is List
    &&& m.docker.confirm is None
    &&& !m.docker.cursor.filter_active
    &&& m.docker.state is Available
}

/// A container goes by its first name, without the slashes in front of it.
pub proof fn containers_go_by_their_first_name(
    c: DockerContainer,
    slashes: Seq<char>,
    name: Seq<char>,
)
    requires
        c.names@.len() > 0,
        c.names@[0]@ == slashes + name,
        forall|i: int| 0 <= i < slashes.len() ==> (#[trigger] slashes[i]) == '/',
        name.len() > 0,
        name[0] != '/',
    ensures
        spec_display_name(c) == name,
{
    leading_characters_go(slashes, name, '/');
}

/// A container without a name goes by the first twelve bytes of its id, or by
/// all of it where it is shorter.
pub proof fn nameless_containers_go_by_their_id(
    c: DockerContainer,
    head: Seq<char>,
    tail: Seq<char>,
)
    requires
        c.names@.len() == 0 || (forall|i: int|
            0 <= i < c.names@[0]@.len() ==> (#[trigger] c.names@[0]@[i]) == '/'),
        c.id@ == head + tail,
    ensures
        encode_utf8(head).len() == 12 ==> spec_display_name(c) == head,
        encode_utf8(c.id@).len() < 12 ==> spec_display_name(c) == c.id@,
        !is_char_boundary(encode_utf8(c.id@), 12) ==> spec_display_name(c) == c.id@,
{
    if c.names@.len() > 0 {
        leading_characters_go(c.names@[0]@, Seq::empty(), '/');
        assert(c.names@[0]@ + Seq::<char>::empty() =~= c.names@[0]@);
    }
    lemma_encode_concat(head, tail);
    vstd::utf8::encode_utf8_valid_utf8(c.id@);
    if encode_utf8(head).len() == 12 {
        lemma_head_ends_on_boundary(head, tail);
        assert(encode_utf8(c.id@).take(12) =~= encode_utf8(head));
        vstd::utf8::encode_utf8_decode_utf8(head);
    }
    if encode_utf8(c.id@).len() < 12 {
        assert(!is_char_boundary(encode_utf8(c.id@), 12));
    }
}

proof fn lemma_encode_concat(a: Seq<char>, b: Seq<char>)
    ensures
        encode_utf8(a + b) == encode_utf8(a) + encode_utf8(b),
    decreases a.len(),
{
    if a.len() == 0 {
        assert(a + b =~= b);
        assert(encode_utf8(a) + encode_utf8(b) =~= encode_utf8(b));
    } else {
        lemma_encode_concat(a.drop_first(), b);
        assert((a + b).drop_first() =~= a.drop_first() + b);
        assert((a + b)[0] == a[0]);
        assert(encode_utf8(a + b) =~= encode_utf8(a) + encode_utf8(b));
    }
}

proof fn lemma_head_ends_on_boundary(head: Seq<char>, tail: Seq<char>)
    ensures
        is_char_boundary(encode_utf8(head + tail), encode_utf8(head).len() as int),
    decreases head.len(),
{
    let all = head + tail;
    vstd::utf8::encode_utf8_valid_utf8(all);
    lemma_encode_concat(head, tail);
    if head.len() > 0 {
        let rest = head.drop_first();
        assert(all.drop_first() =~= rest + tail);
        assert(all[0] == head[0]);
        vstd::utf8::encode_utf8_first_scalar(all);
        assert(vstd::utf8::pop_first_scalar(encode_utf8(all)) =~= encode_utf8(rest + tail));
        lemma_head_ends_on_boundary(rest, tail);
    }
}

/// `r` restarts and `s` stops the container that the cursor is on: one
/// request goes out, with that container's id, and the action is remembered
/// under the container's name for thirty seconds. Nothing else changes.
pub proof fn restart_and_stop_act_on_the_row_of_the_cursor(
    m: AppModel,
    area: Rect,
    bytes: Vec<u8>,
    now: u64,
    after: Step,
)
    requires
        list_has_the_keys(m, area),
        bytes@ == seq![0x72u8] || bytes@ == seq![0x73u8],
        now + 30_000 <= u64::MAX,
        m.next_sub_id < u64::MAX,
        0 <= m.docker.cursor.selection < visible(
            m.docker.state->containers@,
            m.docker.cursor.filter,
        ).len(),
        m.leads_to(AppEvent::StdinChunk(bytes), now, after),
    ensures
        ({
            let c = visible(m.docker.state->containers@, m.docker.cursor.filter)[
                m.docker.cursor.selection
            ];
            let (kind, verb) = if bytes@[0] == 0x72 {
                (DockerActionKind::Restart, "Restart "@)
            } else {
                (DockerActionKind::Stop, "Stop "@)
            };
            &&& after.actions == seq![
                ActionView::Send(
                    Request::DockerAction {
                        request_id: m.next_sub_id,
                        container_id: c.id@,
                        kind,
                    },
                ),
                ActionView::DrawFrame,
            ]
            &&& after.app == (AppModel {
                next_sub_id: (m.next_sub_id + 1) as u64,
                pending: m.pending.insert(
                    m.next_sub_id,
                    PendingModel {
                        deadline: (now + 30_000) as u64,
                        description: verb + spec_display_name(c),
                    },
                ),
                ..m
            })
        }),
{
    lemma_focus_routes(m, area);
    lemma_typed(m, area, ScopeKind::Docker, bytes@[0], now);
    reveal(AppModel::scope_key);
    lemma_verbs();
}

proof fn lemma_verbs()
    ensures
        "Restart"@ + " "@ == "Restart "@,
        "Stop"@ + " "@ == "Stop "@,
        "Kill"@ + " "@ == "Kill "@,
        "Remove"@ + " "@ == "Remove "@,
{
    reveal_strlit(" ");
    reveal_strlit("Restart");
    reveal_strlit("Restart ");
    reveal_strlit("Stop");
    reveal_strlit("Stop ");
    reveal_strlit("Kill");
    reveal_strlit("Kill ");
    reveal_strlit("Remove");
    reveal_strlit("Remove ");
    assert("Restart"@ + " "@ =~= "Restart "@);
    assert("Stop"@ + " "@ =~= "Stop "@);
    assert("Kill"@ + " "@ =~= "Kill "@);
    assert("Remove"@ + " "@ =~= "Remove "@);
}

/// `K` and `X` ask before they kill or remove the container that the cursor
/// is on: a prompt opens for ten seconds, and nothing is sent.
pub proof fn kill_and_remove_ask_first(
    m: AppModel,
    area: Rect,
    bytes: Vec<u8>,
    now: u64,
    after: Step,
)
    requires
        list_has_the_keys(m, area),
        bytes@ == seq![0x4bu8] || bytes@ == seq![0x58u8],
        now + 30_000 <= u64::MAX,
        0 <= m.docker.cursor.selection < visible(
            m.docker.state->containers@,
            m.docker.cursor.filter,
        ).len(),
        m.leads_to(AppEvent::StdinChunk(bytes), now, after),
    ensures
        ({
            let c = visible(m.docker.state->containers@, m.docker.cursor.filter)[
                m.docker.cursor.selection
            ];
            &&& after.actions == seq![ActionView::DrawFrame]
            &&& after.app == (AppModel {
                docker: DockerModel {
                    confirm: Some(
                        ConfirmModel {
                            kind: if bytes@[0] == 0x4b {
                                DockerActionKind::Kill
                            } else {
                                DockerActionKind::Remove
                            },
                            container_id: c.id@,
                            container_name: spec_display_name(c),
                            deadline: (now + 10_000) as u64,
                        },
                    ),
                    ..m.docker
                },
                ..m
            })
        }),
{
    lemma_focus_routes(m, area);
    lemma_typed(m, area, ScopeKind::Docker, bytes@[0], now);
    reveal(AppModel::scope_key);
}

/// A prompt is answered by `y` or `Y`: the request that it asked for goes out,
/// for the container that it named, and the prompt is gone.
pub proof fn a_confirmed_prompt_is_carried_out(
    m: AppModel,
    area: Rect,
    bytes: Vec<u8>,
    now: u64,
    after: Step,
)
    requires
        at_rest(m, area),
        m.focused == TileId::Docker,
        m.docker.view is List,
        m.docker.confirm is Some,
        bytes@ == seq![0x79u8] || bytes@ == seq![0x59u8],
        now + 30_000 <= u64::MAX,
        m.next_sub_id < u64::MAX,
        m.docker.confirm->0.kind == DockerActionKind::Kill || m.docker.confirm->0.kind
            == DockerActionKind::Remove,
        m.leads_to(AppEvent::StdinChunk(bytes), now, after),
    ensures
        after.actions == seq![
            ActionView::Send(
                Request::DockerAction {
                    request_id: m.next_sub_id,
                    container_id: m.docker.confirm->0.container_id,
                    kind: m.docker.confirm->0.kind,
                },
            ),
            ActionView::DrawFrame,
        ],
        after.app == (AppModel {
            docker: DockerModel { confirm: None, ..m.docker },
            next_sub_id: (m.next_sub_id + 1) as u64,
            pending: m.pending.insert(
                m.next_sub_id,
                PendingModel {
                    deadline: (now + 30_000) as u64,
                    description: if m.docker.confirm->0.kind == DockerActionKind::Kill {
                        "Kill "@ + m.docker.confirm->0.container_name
                    } else {
                        "Remove "@ + m.docker.confirm->0.container_name
                    },
                },
            ),
            ..m
        }),
{
    lemma_focus_routes(m, area);
    lemma_typed(m, area, ScopeKind::Docker, bytes@[0], now);
    reveal(AppModel::scope_key);
    lemma_verbs();
}

/// At a prompt, `K` and `X` do nothing, and every other character but `y` and
/// `Y` closes it: nothing is sent either way. So does Escape.
pub proof fn an_unconfirmed_prompt_sends_nothing(
    m: AppModel,
    area: Rect,
    b: u8,
    bytes: Vec<u8>,
    now: u64,
    after: Step,
)
    requires
        at_rest(m, area),
        m.focused == TileId::Docker,
        m.docker.view is List,
        m.docker.confirm is Some,
        bytes@ == seq![b],
        b != 0x79,
        b != 0x59,
        b != 0x09,
        b != 0x02,
        m.leads_to(AppEvent::StdinChunk(bytes), now, after),
    ensures
        b == 0x4b || b == 0x58 ==> after.app == m && after.actions.len() == 0,
        b != 0x4b && b != 0x58 ==> after.actions == seq![ActionView::DrawFrame] && after.app == (
        AppModel { docker: DockerModel { confirm: None, ..m.docker }, ..m }),
{
    lemma_focus_routes(m, area);
    if b == 0x1b {
        lemma_typed_escape(m, area, ScopeKind::Docker, now);
    } else {
        lemma_typed(m, area, ScopeKind::Docker, b, now);
    }
    reveal(AppModel::scope_key);
}

/// `l` opens the log of the container that the cursor is on, from its
/// beginning and following it.
pub proof fn l_follows_the_log_of_the_row_of_the_cursor(
    m: AppModel,
    area: Rect,
    bytes: Vec<u8>,
    now: u64,
    after: Step,
)
    requires
        list_has_the_keys(m, area),
        bytes@ == seq![0x6cu8],
        m.next_sub_id < u64::MAX,
        0 <= m.docker.cursor.selection < visible(
            m.docker.state->containers@,
            m.docker.cursor.filter,
        ).len(),
        m.leads_to(AppEvent::StdinChunk(bytes), now, after),
    ensures
        ({
            let c = visible(m.docker.state->containers@, m.docker.cursor.filter)[
                m.docker.cursor.selection
            ];
            &&& after.actions == seq![
                ActionView::Send(
                    Request::SubscribeDockerLogs {
                        id: m.next_sub_id,
                        container_id: c.id@,
                        follow: true,
                        tail_lines: 0,
                    },
                ),
                ActionView::DrawFrame,
            ]
            &&& after.app == (AppModel {
                next_sub_id: (m.next_sub_id + 1) as u64,
                docker: DockerModel {
                    view: DockerViewModel::Logs(
                        LogsModel {
                            container_id: c.id@,
                            container_name: spec_display_name(c),
                            sub_id: m.next_sub_id,
                            lines: Seq::empty(),
                            pending_stdout: Seq::empty(),
                            pending_stderr: Seq::empty(),
                            scroll_offset: 0,
                            at_tail: true,
                            stream_ended: None,
                        },
                    ),
                    ..m.docker
                },
                ..m
            })
        }),
{
    lemma_focus_routes(m, area);
    lemma_typed(m, area, ScopeKind::Docker, bytes@[0], now);
    reveal(AppModel::scope_key);
}

/// Where no container is under the cursor these keys do nothing, and neither
/// does any character that is not bound.
pub proof fn other_characters_do_nothing_to_containers(
    m: AppModel,
    area: Rect,
    b: u8,
    bytes: Vec<u8>,
    now: u64,
    after: Step,
)
    requires
        list_has_the_keys(m, area),
        bytes@ == seq![b],
        b != 0x09 && b != 0x02,
        b != 0x6a && b != 0x6b && b != 0x67 && b != 0x47 && b != 0x2f,
        m.docker.cursor.selection >= visible(
            m.docker.state->containers@,
            m.docker.cursor.filter,
        ).len() || (b != 0x72 && b != 0x73 && b != 0x4b && b != 0x58 && b != 0x6c),
        m.leads_to(AppEvent::StdinChunk(bytes), now, after),
    ensures
        after.app == m,
        after.actions.len() == 0,
{
    lemma_focus_routes(m, area);
    if b == 0x1b {
        lemma_typed_escape(m, area, ScopeKind::Docker, now);
    } else {
        lemma_typed(m, area, ScopeKind::Docker, b, now);
    }
    reveal(AppModel::scope_key);
}

/// The cursor of the container list: `j` and `k` go one row on or back as far
/// as there are rows, `g` goes to the first and `G` to the last, and `/` opens
/// the filter. Nothing is sent.
pub proof fn letters_move_through_containers(
    m: AppModel,
    area: Rect,
    bytes: Vec<u8>,
    now: u64,
    after: Step,
)
    requires
        list_has_the_keys(m, area),
        bytes@ == seq![0x6au8] || bytes@ == seq![0x6bu8] || bytes@ == seq![0x67u8] || bytes@
            == seq![0x47u8] || bytes@ == seq![0x2fu8],
        0 <= m.docker.cursor.selection < visible(
            m.docker.state->containers@,
            m.docker.cursor.filter,
        ).len(),
        m.leads_to(AppEvent::StdinChunk(bytes), now, after),
    ensures
        ({
            let n = visible(m.docker.state->containers@, m.docker.cursor.filter).len();
            let at = m.docker.cursor.selection;
            let b = bytes@[0];
            &&& after.actions == seq![ActionView::DrawFrame]
            &&& after.app == (AppModel {
                docker: DockerModel {
                    cursor: Cursor {
                        selection: if b == 0x6a && at + 1 < n {
                            at + 1
                        } else if b == 0x6b && at > 0 {
                            at - 1
                        } else if b == 0x67 {
                            0
                        } else if b == 0x47 {
                            n - 1
                        } else {
                            at
                        },
                        filter_active: b == 0x2f,
                        ..m.docker.cursor
                    },
                    ..m.docker
                },
                ..m
            })
        }),
{
    lemma_focus_routes(m, area);
    lemma_typed(m, area, ScopeKind::Docker, bytes@[0], now);
    reveal(AppModel::scope_key);
}

/// Home and End move the cursor of the container list to its first and its
/// last row, the arrows by one, from the bytes that a terminal sends.
pub proof fn arrows_move_through_containers(
    m: AppModel,
    area: Rect,
    last: u8,
    bytes: Vec<u8>,
    now: u64,
    after: Step,
)
    requires
        list_has_the_keys(m, area),
        last == 0x41 || last == 0x42 || last == 0x46 || last == 0x48,
        bytes@ == seq![0x1bu8, 0x5bu8, last],
        0 <= m.docker.cursor.selection < visible(
            m.docker.state->containers@,
            m.docker.cursor.filter,
        ).len(),
        m.leads_to(AppEvent::StdinChunk(bytes), now, after),
    ensures
        ({
            let n = visible(m.docker.state->containers@, m.docker.cursor.filter).len();
            let at = m.docker.cursor.selection;
            let to = after.app.docker.cursor.selection;
            &&& after.actions == seq![ActionView::DrawFrame]
            &&& last == 0x48 ==> to == 0
            &&& last == 0x46 ==> to == n - 1
            &&& last == 0x42 ==> to == if at + 1 < n {
                at + 1
            } else {
                at
            }
            &&& last == 0x41 ==> to == if at > 0 {
                at - 1
            } else {
                at
            }
        }),
{
    lemma_focus_routes(m, area);
    escapes_and_arrows_go_on(last);
    arrows_are_read();
    home_and_end_are_read();
    let key = if last == 0x41 {
        ScopeKey::Up
    } else if last == 0x42 {
        ScopeKey::Down
    } else if last == 0x46 {
        ScopeKey::End
    } else {
        ScopeKey::Home
    };
    lemma_chunk_is_read(m, ScopeKind::Docker, bytes@, key, now);
    reveal(AppModel::scope_key);
}

/// What is typed into the container filter becomes the filter, the cursor
/// stays where it is or goes to the last container that is left, Backspace
/// takes a character away, Enter keeps the filter and Escape empties it.
pub proof fn the_container_filter_takes_what_is_typed(
    m: AppModel,
    area: Rect,
    b: u8,
    bytes: Vec<u8>,
    now: u64,
    after: Step,
)
    requires
        at_rest(m, area),
        m.focused == TileId::Docker,
        m.docker.view is List,
        m.docker.confirm is None,
        m.docker.state is Available,
        m.docker.cursor.filter_active,
        m.docker.cursor.selection >= 0,
        bytes@ == seq![b],
        0x20 <= b <= 0x7f || b == 0x08 || b == 0x0d || b == 0x0a || b == 0x1b,
        m.leads_to(AppEvent::StdinChunk(bytes), now, after),
    ensures
        ({
            let from = m.docker.cursor;
            let to = after.app.docker.cursor;
            let n = visible(m.docker.state->containers@, to.filter).len();
            &&& after.app == (AppModel {
                docker: DockerModel { cursor: to, ..m.docker },
                ..m
            })
            &&& forall|i: int|
                0 <= i < after.actions.len() ==> #[trigger] after.actions[i]
                    == ActionView::DrawFrame
            &&& 0x20 <= b <= 0x7e ==> to.filter == from.filter.push(b as char) && to.filter_active
            &&& (b == 0x7f || b == 0x08) && from.filter.len() > 0 ==> to.filter
                == from.filter.subrange(0, from.filter.len() - 1) && to.filter_active
            &&& (b == 0x7f || b == 0x08) && from.filter.len() == 0 ==> to == from
            &&& b == 0x0d || b == 0x0a ==> to == (Cursor { filter_active: false, ..from })
            &&& b == 0x1b ==> to.filter.len() == 0 && !to.filter_active
            &&& to.filter != from.filter ==> to.selection == if n == 0 {
                0
            } else if from.selection < n {
                from.selection
            } else {
                n - 1
            }
        }),
{
    lemma_focus_routes(m, area);
    if b == 0x1b {
        lemma_typed_escape(m, area, ScopeKind::Docker, now);
    } else {
        lemma_typed(m, area, ScopeKind::Docker, b, now);
    }
    reveal(AppModel::scope_key);
    if m.docker.cursor.filter.len() > 0 {
        assert(m.docker.cursor.filter.drop_last() =~= m.docker.cursor.filter.subrange(
            0,
            m.docker.cursor.filter.len() - 1,
        ));
    }
}

/// A list from the engine is shown as it came, and the cursor stays where it
/// is or goes to the last row that is left. An engine that cannot be reached
/// is shown with its reason.
pub proof fn the_engines_list_is_shown(
    m: AppModel,
    containers: Vec<DockerContainer>,
    source: String,
    reason: String,
    now: u64,
    listed: Step,
    lost: Step,
)
    requires
        m.docker.cursor.selection >= 0,
        m.pane_sub != m.docker.sub_id,
        m.leads_to(
            AppEvent::DaemonEnvelope(
                Envelope {
                    payload: Payload::Event(
                        EventFrame {
                            subscription_id: m.docker.sub_id,
                            event: Event::ContainerList { containers, engine_source: source },
                        },
                    ),
                },
            ),
            now,
            listed,
        ),
        m.leads_to(
            AppEvent::DaemonEnvelope(
                Envelope {
                    payload: Payload::Event(
                        EventFrame {
                            subscription_id: m.docker.sub_id,
                            event: Event::DockerUnavailable { reason },
                        },
                    ),
                },
            ),
            now,
            lost,
        ),
    ensures
        ({
            let n = visible(containers@, m.docker.cursor.filter).len();
            let at = m.docker.cursor.selection;
            &&& listed.actions == seq![ActionView::DrawFrame]
            &&& listed.app == (AppModel {
                docker: DockerModel {
                    state: DockerScopeState::Available { containers, engine_source: source },
                    cursor: Cursor {
                        selection: if at < n {
                            at
                        } else if n > 0 {
                            n - 1
                        } else {
                            0
                        },
                        ..m.docker.cursor
                    },
                    ..m.docker
                },
                ..m
            })
            &&& lost.actions == seq![ActionView::DrawFrame]
            &&& lost.app == (AppModel {
                docker: DockerModel {
                    state: DockerScopeState::Unavailable { reason },
                    cursor: Cursor { selection: 0, ..m.docker.cursor },
                    ..m.docker
                },
                ..m
            })
        }),
{
    reveal(AppModel::event);
}

/// What came of an action is said in a toast, under the name that the action
/// was sent with: for three seconds that it succeeded, for eight that it
/// failed, and why. The action is then no longer waited for.
pub proof fn outcomes_are_reported(
    m: AppModel,
    result: DockerActionResult,
    now: u64,
    after: Step,
)
    requires
        now + 30_000 <= u64::MAX,
        m.pending.contains_key(result.request_id),
        m.leads_to(
            AppEvent::DaemonEnvelope(
                Envelope { payload: Payload::DockerActionResult(result) },
            ),
            now,
            after,
        ),
    ensures
        ({
            let name = m.pending[result.request_id].description;
            let (kind, message, stays) = match result.outcome {
                DockerActionOutcome::Success => (
                    ToastKind::Success,
                    name + " — succeeded"@,
                    3_000int,
                ),
                DockerActionOutcome::Failure { reason } => (
                    ToastKind::Error,
                    name + " failed: "@ + reason@,
                    8_000int,
                ),
            };
            &&& after.actions == seq![
                ActionView::ShowToast { kind, message },
                ActionView::DrawFrame,
            ]
            &&& after.app.toasts.len() > 0
            &&& after.app.toasts.last() == (ToastModel {
                kind,
                message,
                expires_at: (now + stays) as u64,
            })
            &&& after.app == (AppModel {
                toasts: after.app.toasts,
                pending: m.pending.remove(result.request_id),
                ..m
            })
        }),
{
}

/// An error of the daemon is said in a toast, for eight seconds.
pub proof fn daemon_errors_are_reported(m: AppModel, info: ErrorInfo, now: u64, after: Step)
    requires
        now + 30_000 <= u64::MAX,
        m.leads_to(
            AppEvent::DaemonEnvelope(Envelope { payload: Payload::Error(info) }),
            now,
            after,
        ),
    ensures
        ({
            let message = "daemon error "@ + info.kind.spec_name() + ": "@ + info.message@;
            &&& after.actions == seq![
                ActionView::ShowToast { kind: ToastKind::Error, message },
                ActionView::DrawFrame,
            ]
            &&& after.app.toasts.len() > 0
            &&& after.app.toasts.last() == (ToastModel {
                kind: ToastKind::Error,
                message,
                expires_at: (now + 8_000) as u64,
            })
            &&& after.app == (AppModel { toasts: after.app.toasts, ..m })
        }),
{
}

/// A new toast goes below the others; only where three are shown already does
/// the oldest go.
pub proof fn a_new_toast_keeps_the_others(
    m: AppModel,
    now: u64,
    kind: ToastKind,
    message: Seq<char>,
    i: int,
)
    requires
        m.toasts.len() <= 3,
        now + 30_000 <= u64::MAX,
    ensures
        ({
            let after = m.push_toast(now, kind, message).app.toasts;
            &&& after.len() == if m.toasts.len() < 3 {
                m.toasts.len() + 1
            } else {
                3
            }
            &&& after.last() == (ToastModel {
                kind,
                message,
                expires_at: (now + match kind {
                    ToastKind::Success => 3_000int,
                    ToastKind::Error => 8_000int,
                    ToastKind::Info => 4_000int,
                }) as u64,
            })
            &&& m.toasts.len() < 3 && 0 <= i < m.toasts.len() ==> after[i] == m.toasts[i]
            &&& m.toasts.len() == 3 && 0 <= i < 2 ==> after[i] == m.toasts[i + 1]
        }),
{
}

/// An action that was not answered in time is given up: the toast names it,
/// and it is no longer waited for. One that is not waited for is ignored.
pub proof fn unanswered_actions_are_given_up(m: AppModel, id: u64, now: u64, after: Step)
    requires
        now + 30_000 <= u64::MAX,
        m.leads_to(AppEvent::PendingActionTimeout(id), now, after),
    ensures
        m.pending.contains_key(id) ==> {
            let message = m.pending[id].description + " timed out — check engine"@;
            &&& after.actions == seq![
                ActionView::ShowToast { kind: ToastKind::Error, message },
                ActionView::DrawFrame,
            ]
            &&& after.app.toasts.len() > 0
            &&& after.app.toasts.last() == (ToastModel {
                kind: ToastKind::Error,
                message,
                expires_at: (now + 8_000) as u64,
            })
            &&& after.app == (AppModel {
                toasts: after.app.toasts,
                pending: m.pending.remove(id),
                ..m
            })
        },
        !m.pending.contains_key(id) ==> after.app == m && after.actions.len() == 0,
{
}

} // verus!
