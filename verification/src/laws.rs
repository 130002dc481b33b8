//! What holds of the application whatever happens.

use vstd::prelude::*;

use crate::app::{can_handle, ids_for};
use crate::docker::DockerModel;
use crate::event::{ActionView, AppEvent, ToastKind};
use crate::geometry::FocusDir;
use crate::input::{chunk_shape, filter_chunk, InputActionView, CSI_OPEN, ESC, TAB};
use crate::keys::{key_count, read_keys, ScopeKey};
use crate::list::{follows_row, in_range, reanchor_follows_the_row, selected_key, visible};
use crate::model::{
    action_description, spec_pty_tile_dims, stay, AppModel, Step, ToastModel, MAX_TOASTS,
    PENDING_ACTION_TIMEOUT_MS,
};
use crate::proto::{
    DockerActionKind, DockerActionOutcome, DockerActionResult, Envelope, Event, Payload, Request,
};
use crate::pty::{pty_size, PtyInput};
use crate::tile::{find_tile, ScopeKind, TileId};

verus! {

/// The id that an action hands out, if it hands one out.
pub open spec fn id_handed_out(a: ActionView) -> Option<u64> {
    match a {
        ActionView::Send(Request::DockerAction { request_id, .. }) => Some(request_id),
        ActionView::Send(Request::SubscribeDockerLogs { id, .. }) => Some(id),
        _ => None,
    }
}

/// The ids that a step hands out were next in line before it, no two are the
/// same, and the line has moved past them.
pub open spec fn ids_in_line(before: u64, after: u64, actions: Seq<ActionView>) -> bool {
    &&& before <= after
    &&& forall|i: int|
        0 <= i < actions.len() && id_handed_out(#[trigger] actions[i]) is Some ==> before
            <= id_handed_out(actions[i])->0 < after
    &&& forall|i: int, j: int|
        #![trigger actions[i], actions[j]]
        0 <= i < j < actions.len() && id_handed_out(actions[i]) is Some && id_handed_out(
            actions[j],
        ) is Some ==> id_handed_out(actions[i])->0 < id_handed_out(actions[j])->0
}

proof fn lemma_ids_concat(a: u64, b: u64, c: u64, first: Seq<ActionView>, second: Seq<ActionView>)
    requires
        ids_in_line(a, b, first),
        ids_in_line(b, c, second),
    ensures
        ids_in_line(a, c, first + second),
{
    let all = first + second;
    assert forall|i: int|
        0 <= i < all.len() && id_handed_out(#[trigger] all[i]) is Some implies a <= id_handed_out(
        all[i],
    )->0 < c by {
        if i < first.len() {
            assert(all[i] == first[i]);
        } else {
            assert(all[i] == second[i - first.len()]);
        }
    }
    assert forall|i: int, j: int|
        #![trigger all[i], all[j]]
        0 <= i < j < all.len() && id_handed_out(all[i]) is Some && id_handed_out(
            all[j],
        ) is Some implies id_handed_out(all[i])->0 < id_handed_out(all[j])->0 by {
        if i < first.len() {
            assert(all[i] == first[i]);
        } else {
            assert(all[i] == second[i - first.len()]);
        }
        if j < first.len() {
            assert(all[j] == first[j]);
        } else {
            assert(all[j] == second[j - first.len()]);
        }
    }
}

/// A key in a scope tile takes at most one id.
proof fn lemma_scope_key_ids(m: AppModel, scope: ScopeKind, key: ScopeKey, now: u64)
    requires
        m.has_room(now, 1),
    ensures
        ({
            let s = m.scope_key(scope, key, now);
            &&& ids_in_line(m.next_sub_id, s.app.next_sub_id, s.actions)
            &&& s.app.next_sub_id <= m.next_sub_id + 1
        }),
{
    reveal(AppModel::scope_key);
}

proof fn lemma_scope_keys_ids(m: AppModel, scope: ScopeKind, keys: Seq<ScopeKey>, now: u64)
    requires
        m.has_room(now, keys.len()),
    ensures
        ({
            let s = m.scope_keys(scope, keys, now);
            &&& ids_in_line(m.next_sub_id, s.app.next_sub_id, s.actions)
            &&& s.app.next_sub_id <= m.next_sub_id + keys.len()
        }),
    decreases keys.len(),
{
    if keys.len() > 0 {
        lemma_scope_keys_ids(m, scope, keys.drop_last(), now);
        let before = m.scope_keys(scope, keys.drop_last(), now);
        lemma_scope_key_ids(before.app, scope, keys.last(), now);
        let last = before.app.scope_key(scope, keys.last(), now);
        lemma_ids_concat(
            m.next_sub_id,
            before.app.next_sub_id,
            last.app.next_sub_id,
            before.actions,
            last.actions,
        );
    }
}

proof fn lemma_input_action_ids(m: AppModel, action: InputActionView, now: u64)
    requires
        action is Forward ==> m.has_room(now, ids_for(action->Forward_0.len())),
    ensures
        ({
            let s = m.input_action(action, now);
            &&& ids_in_line(m.next_sub_id, s.app.next_sub_id, s.actions)
            &&& action !is Forward ==> s.app.next_sub_id == m.next_sub_id
        }),
{
    reveal(AppModel::input_action);
    if let InputActionView::Forward(bytes) = action {
        if !m.pty_focused() {
            if let Some(scope) = m.focused_scope() {
                let read = read_keys(m.held_keys, bytes);
                key_count(m.held_keys, bytes);
                lemma_scope_keys_ids(
                    AppModel { held_keys: read.held, ..m },
                    scope,
                    read.keys,
                    now,
                );
            }
        }
    }
}

proof fn lemma_stdin_ids(m: AppModel, bytes: Seq<u8>, now: u64)
    requires
        m.has_room(now, ids_for(m.held_input.len() + bytes.len())),
    ensures
        ids_in_line(
            m.next_sub_id,
            m.stdin(bytes, now).app.next_sub_id,
            m.stdin(bytes, now).actions,
        ),
{
    reveal(AppModel::stdin);
    chunk_shape(m.held_input, Seq::empty(), bytes);
    let filtered = filter_chunk(m.held_input, Seq::empty(), bytes);
    let start = AppModel { held_input: filtered.held, ..m };
    let found = filtered.actions;
    reveal_with_fuel(AppModel::input_actions, 3);
    if found.len() == 0 {
    } else if found.len() == 1 {
        lemma_input_action_ids(start, found[0], now);
        assert(found.drop_last() =~= Seq::empty());
        let last = start.input_action(found[0], now);
        assert(Seq::<ActionView>::empty() + last.actions =~= last.actions);
    } else {
        assert(found.drop_last().len() == 1);
        assert(found.drop_last().drop_last() =~= Seq::empty());
        assert(found.drop_last().last() == found[0]);
        lemma_input_action_ids(start, found[0], now);
        let first = start.input_action(found[0], now);
        assert(Seq::<ActionView>::empty() + first.actions =~= first.actions);
        lemma_input_action_ids(first.app, found[1], now);
        let last = first.app.input_action(found[1], now);
        lemma_ids_concat(
            m.next_sub_id,
            first.app.next_sub_id,
            last.app.next_sub_id,
            first.actions,
            last.actions,
        );
    }
}

proof fn lemma_expire_each_ids(m: AppModel, now: u64, ids: Seq<u64>)
    ensures
        m.expire_each(now, ids).app.next_sub_id == m.next_sub_id,
        ids_in_line(m.next_sub_id, m.next_sub_id, m.expire_each(now, ids).actions),
    decreases ids.len(),
{
    if ids.len() > 0 {
        lemma_expire_each_ids(m, now, ids.drop_last());
        let before = m.expire_each(now, ids.drop_last());
        let last = before.app.expire_pending(now, ids.last());
        lemma_ids_concat(
            m.next_sub_id,
            m.next_sub_id,
            m.next_sub_id,
            before.actions,
            last.actions,
        );
    }
}

/// Ids of subscriptions and requests are handed out in order and never
/// reused: those of any event come from where the line stood before it, and
/// the line never moves back.
pub proof fn ids_are_never_reused(m: AppModel, event: AppEvent, now: u64, after: Step)
    requires
        can_handle(m, event, now),
        m.leads_to(event, now, after),
    ensures
        ids_in_line(m.next_sub_id, after.app.next_sub_id, after.actions),
{
    match event {
        AppEvent::StdinChunk(bytes) => {
            lemma_stdin_ids(m, bytes@, now);
        },
        AppEvent::Tick => {
            let ids = choose|ids: Seq<u64>| #[trigger]
                m.lists_overdue(now, ids) && after == (Step {
                    app: m.sweep(now, ids).app,
                    actions: m.sweep(now, ids).actions.push(ActionView::DrawFrame),
                });
            lemma_expire_each_ids(m.drop_stale_confirm(now), now, ids);
        },
        AppEvent::DaemonEnvelope(env) => {
            if let Payload::Event(frame) = env.payload {
                reveal(AppModel::event);
            }
        },
        _ => {},
    }
}

proof fn lemma_scope_keys_keep_pty(m: AppModel, scope: ScopeKind, keys: Seq<ScopeKey>, now: u64)
    ensures
        m.scope_keys(scope, keys, now).app.pty == m.pty,
    decreases keys.len(),
{
    reveal(AppModel::scope_key);
    if keys.len() > 0 {
        lemma_scope_keys_keep_pty(m, scope, keys.drop_last(), now);
    }
}

proof fn lemma_input_actions_keep_pty(m: AppModel, actions: Seq<InputActionView>, now: u64)
    ensures
        m.input_actions(actions, now).app.pty == m.pty,
    decreases actions.len(),
{
    if actions.len() > 0 {
        lemma_input_actions_keep_pty(m, actions.drop_last(), now);
        let before = m.input_actions(actions.drop_last(), now).app;
        reveal(AppModel::input_action);
        if let InputActionView::Forward(bytes) = actions.last() {
            if let Some(scope) = before.focused_scope() {
                let read = read_keys(before.held_keys, bytes);
                lemma_scope_keys_keep_pty(
                    AppModel { held_keys: read.held, ..before },
                    scope,
                    read.keys,
                    now,
                );
            }
        }
    }
}

proof fn lemma_expire_each_keeps_pty(m: AppModel, now: u64, ids: Seq<u64>)
    ensures
        m.expire_each(now, ids).app.pty == m.pty,
    decreases ids.len(),
{
    if ids.len() > 0 {
        lemma_expire_each_keeps_pty(m, now, ids.drop_last());
    }
}

/// Nothing but the pane's output and new sizes reaches the emulator: the
/// output byte for byte, and whatever else happens the screen stays as it is.
pub proof fn only_output_and_sizes_reach_the_emulator(
    m: AppModel,
    event: AppEvent,
    now: u64,
    after: Step,
)
    requires
        m.leads_to(event, now, after),
    ensures
        event !is Resize ==> after.app.pty == match m.output_in(event) {
            Some(data) => m.pty.push(PtyInput::Bytes(data)),
            None => m.pty,
        },
{
    match event {
        AppEvent::StdinChunk(bytes) => {
            reveal(AppModel::stdin);
            let filtered = filter_chunk(m.held_input, Seq::empty(), bytes@);
            lemma_input_actions_keep_pty(
                AppModel { held_input: filtered.held, ..m },
                filtered.actions,
                now,
            );
        },
        AppEvent::Tick => {
            let ids = choose|ids: Seq<u64>| #[trigger]
                m.lists_overdue(now, ids) && after == (Step {
                    app: m.sweep(now, ids).app,
                    actions: m.sweep(now, ids).actions.push(ActionView::DrawFrame),
                });
            lemma_expire_each_keeps_pty(m.drop_stale_confirm(now), now, ids);
        },
        AppEvent::DaemonEnvelope(env) => {
            if let Payload::Event(frame) = env.payload {
                reveal(AppModel::event);
            }
        },
        _ => {},
    }
}

/// The action asks the daemon for a destructive operation.
pub open spec fn is_destructive(a: ActionView) -> bool {
    match a {
        ActionView::Send(Request::DockerAction { kind, .. }) => kind == DockerActionKind::Kill
            || kind == DockerActionKind::Remove,
        _ => false,
    }
}

/// `key` is `y` or `Y`, at a prompt over the container list that asks for this
/// very action.
pub open spec fn confirmed_by(m: AppModel, key: ScopeKey, action: ActionView) -> bool {
    &&& key == ScopeKey::Char(0x79) || key == ScopeKey::Char(0x59)
    &&& m.docker.view is List
    &&& m.docker.confirm is Some
    &&& action == ActionView::Send(
        Request::DockerAction {
            request_id: m.next_sub_id,
            container_id: m.docker.confirm->0.container_id,
            kind: m.docker.confirm->0.kind,
        },
    )
}

/// Nothing is killed or removed without confirmation: a key that sends a
/// destructive operation is `y` or `Y`, at a prompt over the list for that
/// very operation on that very container.
pub proof fn destruction_needs_confirmation(m: AppModel, key: ScopeKey, now: u64, i: int)
    requires
        0 <= i < m.docker_key(key, now).actions.len(),
        is_destructive(m.docker_key(key, now).actions[i]),
    ensures
        confirmed_by(m, key, m.docker_key(key, now).actions[i]),
        m.docker_key(key, now).app.docker.confirm is None,
{
}

/// Only typing acts on containers: whatever else happens, be it an event of
/// the daemon, a tick, a resize or the pointer, no container operation is
/// sent.
pub proof fn only_typing_acts_on_containers(
    m: AppModel,
    event: AppEvent,
    now: u64,
    after: Step,
    i: int,
)
    requires
        can_handle(m, event, now),
        m.leads_to(event, now, after),
        0 <= i < after.actions.len(),
        after.actions[i] matches ActionView::Send(Request::DockerAction { .. }),
    ensures
        event is StdinChunk,
{
    ids_are_never_reused(m, event, now, after);
    assert(id_handed_out(after.actions[i]) is Some);
    match event {
        AppEvent::Tick => {
            let ids = choose|ids: Seq<u64>| #[trigger]
                m.lists_overdue(now, ids) && after == (Step {
                    app: m.sweep(now, ids).app,
                    actions: m.sweep(now, ids).actions.push(ActionView::DrawFrame),
                });
            lemma_expire_each_ids(m.drop_stale_confirm(now), now, ids);
        },
        AppEvent::DaemonEnvelope(env) => {
            if let Payload::Event(frame) = env.payload {
                reveal(AppModel::event);
            }
        },
        _ => {},
    }
}

/// However many keys are typed at once, each container that is killed or
/// removed was confirmed: at some key the tile showed a prompt for that very
/// operation, and that key was `y` or `Y`.
pub proof fn typed_destruction_is_confirmed(
    m: AppModel,
    keys: Seq<ScopeKey>,
    now: u64,
    i: int,
) -> (at: int)
    requires
        0 <= i < m.scope_keys(ScopeKind::Docker, keys, now).actions.len(),
        is_destructive(m.scope_keys(ScopeKind::Docker, keys, now).actions[i]),
    ensures
        0 <= at < keys.len(),
        confirmed_by(
            m.scope_keys(ScopeKind::Docker, keys.take(at), now).app,
            keys[at],
            m.scope_keys(ScopeKind::Docker, keys, now).actions[i],
        ),
    decreases keys.len(),
{
    reveal(AppModel::scope_key);
    let before = m.scope_keys(ScopeKind::Docker, keys.drop_last(), now);
    let last = before.app.docker_key(keys.last(), now);
    assert(keys.take(keys.len() - 1) =~= keys.drop_last());
    if i < before.actions.len() {
        assert((before.actions + last.actions)[i] == before.actions[i]);
        let at = typed_destruction_is_confirmed(m, keys.drop_last(), now, i);
        assert(keys.drop_last().take(at) =~= keys.take(at));
        at
    } else {
        let k = i - before.actions.len();
        assert((before.actions + last.actions)[i] == last.actions[k]);
        destruction_needs_confirmation(before.app, keys.last(), now, k);
        keys.len() - 1
    }
}

/// Keys for the ports and fleet tiles never act on containers.
pub proof fn other_tiles_do_not_act_on_containers(m: AppModel, key: ScopeKey, i: int, j: int)
    ensures
        0 <= i < m.ports_key(key).actions.len() ==> m.ports_key(key).actions[i] == ActionView::DrawFrame,
        0 <= j < m.fleet_key(key).actions.len() ==> m.fleet_key(key).actions[j] == ActionView::DrawFrame,
{
}

/// With the pty focused, `Tab` and `Shift-Tab` are typed into the shell;
/// elsewhere they move the focus and nothing is typed.
pub proof fn tab_belongs_to_a_focused_shell(m: AppModel, forward: bool, i: int)
    ensures
        m.pty_focused() ==> m.focus_cycle(forward) == (Step {
            app: m,
            actions: seq![
                ActionView::Send(
                    Request::SendInput {
                        pane_id: m.pane,
                        data: if forward { seq![TAB] } else { seq![ESC, CSI_OPEN, 0x5au8] },
                    },
                ),
            ],
        }),
        !m.pty_focused() && 0 <= i < m.focus_cycle(forward).actions.len() ==> !(
        m.focus_cycle(forward).actions[i] is Send),
{
}

/// A click focuses the tile under it and hovering never moves the focus.
pub proof fn pointer_moves(m: AppModel, x: u16, y: u16)
    ensures
        m.layout.tile_at(x, y) matches Some(id) ==> m.click(x, y).app.focused == id,
        m.layout.tile_at(x, y) is None ==> m.click(x, y) == stay(m),
        m.hover(x, y).app == (AppModel { hovered: m.layout.tile_at(x, y), ..m }),
{
}

/// A second destructive key never switches the target of a prompt, and any
/// key but `y` leaves nothing sent.
pub proof fn prompt_is_not_retargeted(m: AppModel, key: ScopeKey, now: u64)
    requires
        m.docker.view is List,
        m.docker.confirm is Some,
    ensures
        ({
            let s = m.docker_key(key, now);
            &&& key == ScopeKey::Char(0x4b) || key == ScopeKey::Char(0x58) ==> s == stay(m)
            &&& key != ScopeKey::Char(0x79) && key != ScopeKey::Char(0x59) ==> {
                &&& s.app.docker.confirm == m.docker.confirm || s.app.docker.confirm is None
                &&& s.app.pending == m.pending
                &&& forall|i: int|
                    0 <= i < s.actions.len() ==> #[trigger] s.actions[i] == ActionView::DrawFrame
            }
        }),
{
}

/// The prompt of the Docker tile is gone if `after` no longer focuses that
/// tile, and untouched if it does.
pub open spec fn prompt_goes_with_the_focus(m: AppModel, after: Step) -> bool {
    if after.app.focused == TileId::Docker {
        after.app.docker == m.docker
    } else {
        after.app.docker == (DockerModel { confirm: None, ..m.docker })
    }
}

/// Moving the focus away from the Docker tile cancels its prompt, be it moved
/// in a direction, to the next or previous tile, by a click, or by a resize
/// that leaves no room for the tile; a move that ends on the tile leaves the
/// prompt alone.
pub proof fn leaving_docker_cancels_the_prompt(
    m: AppModel,
    dir: FocusDir,
    forward: bool,
    x: u16,
    y: u16,
    rows: u16,
    cols: u16,
)
    requires
        m.focused == TileId::Docker,
    ensures
        prompt_goes_with_the_focus(m, m.focus_direction(dir)),
        prompt_goes_with_the_focus(m, m.focus_cycle(forward)),
        prompt_goes_with_the_focus(m, m.click(x, y)),
        prompt_goes_with_the_focus(m, m.resize(rows, cols)),
{
}

/// Events of a subscription that is not open change nothing.
pub proof fn stale_events_are_dropped(m: AppModel, sub: u64, event: Event)
    requires
        sub != m.pane_sub,
        sub != m.docker.sub_id,
        !m.docker.follows(sub),
        sub != m.ports.ports_sub_id,
        sub != m.ports.processes_sub_id,
        sub != m.fleet.sub_id,
    ensures
        m.event(sub, event) == stay(m),
{
    reveal(AppModel::event);
}

/// While the pty has the focus, keystrokes go to its process unread and no
/// scope notices.
pub proof fn pty_keystrokes_are_not_read(m: AppModel, bytes: Seq<u8>, now: u64)
    requires
        m.pty_focused(),
    ensures
        m.forward(bytes, now) == (Step {
            app: m,
            actions: seq![
                ActionView::Send(Request::SendInput { pane_id: m.pane, data: bytes }),
            ],
        }),
{
}

/// A placeholder or the too-small notice drops its input.
pub proof fn placeholders_drop_input(m: AppModel, bytes: Seq<u8>, now: u64)
    requires
        match find_tile(m.layout.tiles, m.focused) {
            Some(t) => t.kind is Placeholder || t.kind is TooSmall,
            None => true,
        },
    ensures
        m.forward(bytes, now) == stay(m),
{
}

/// Leaving a log stream undoes entering it: the list is as it was, and the
/// subscription that was opened is the one that is closed.
pub proof fn leaving_logs_undoes_entering(m: AppModel, now: u64)
    requires
        m.docker.view is List,
        m.docker.selected() is Some,
        m.has_room(now, 1),
    ensures
        ({
            let opened = m.enter_logs();
            let closed = opened.app.docker_key(ScopeKey::Escape, now);
            &&& opened.app.docker.follows(m.next_sub_id)
            &&& id_handed_out(opened.actions[0]) == Some(m.next_sub_id)
            &&& closed.app.docker == m.docker
            &&& closed.actions[0] == ActionView::Send(Request::Unsubscribe { id: m.next_sub_id })
            &&& !closed.app.docker.follows(m.next_sub_id)
        }),
{
}

/// The answer to a request settles it: the action is no longer pending, and a
/// toast names it as it was named when it was sent, with its outcome.
pub proof fn answers_settle_actions(
    m: AppModel,
    container_id: Seq<char>,
    name: Seq<char>,
    kind: DockerActionKind,
    now: u64,
    result: DockerActionResult,
    later: u64,
)
    requires
        m.has_room(now, 1),
        result.request_id == m.next_sub_id,
    ensures
        ({
            let sent = m.dispatch(container_id, name, kind, now);
            let env = Envelope { payload: Payload::DockerActionResult(result) };
            let settled = sent.app.envelope(env, later);
            let text = action_description(kind, name);
            &&& id_handed_out(sent.actions[0]) == Some(result.request_id)
            &&& sent.app.pending.contains_key(result.request_id)
            &&& settled.app.pending == m.pending.remove(result.request_id)
            &&& settled.actions[0] == match result.outcome {
                DockerActionOutcome::Success => ActionView::ShowToast {
                    kind: ToastKind::Success,
                    message: text + " — succeeded"@,
                },
                DockerActionOutcome::Failure { reason } => ActionView::ShowToast {
                    kind: ToastKind::Error,
                    message: text + " failed: "@ + reason@,
                },
            }
        }),
{
    let sent = m.dispatch(container_id, name, kind, now);
    assert(sent.app.pending.remove(result.request_id) =~= m.pending.remove(result.request_id));
}

proof fn lemma_expire_each(m: AppModel, now: u64, ids: Seq<u64>)
    requires
        now + PENDING_ACTION_TIMEOUT_MS <= u64::MAX,
        ids.no_duplicates(),
        m.toasts.len() <= MAX_TOASTS,
    ensures
        ({
            let after = m.expire_each(now, ids).app;
            &&& after.docker == m.docker
            &&& after.toasts.len() <= MAX_TOASTS
            &&& forall|id: u64| #[trigger]
                after.pending.contains_key(id) <==> m.pending.contains_key(id) && !ids.contains(id)
            &&& forall|id: u64| #[trigger]
                after.pending.contains_key(id) ==> after.pending[id] == m.pending[id]
            &&& ids.len() > 0 && m.pending.contains_key(ids.last()) ==> {
                &&& after.toasts.len() > 0
                &&& now < after.toasts.last().expires_at
                &&& after.toasts.last().message == m.pending[ids.last()].description
                    + " timed out — check engine"@
            }
        }),
    decreases ids.len(),
{
    if ids.len() > 0 {
        let rest = ids.drop_last();
        lemma_expire_each(m, now, rest);
        let before = m.expire_each(now, rest).app;
        let last = ids.last();
        assert(!rest.contains(last)) by {
            if rest.contains(last) {
                let j = choose|j: int| 0 <= j < rest.len() && rest[j] == last;
                assert(ids[j] == ids[ids.len() - 1]);
            }
        }
        assert forall|id: u64| ids.contains(id) <==> rest.contains(id) || id == last by {
            assert(ids =~= rest.push(last));
            vstd::seq_lib::lemma_seq_contains_after_push(rest, last, id);
        }
    }
}

/// After a sweep nothing is out of date: no prompt, no pending action and no
/// toast is past its time. A prompt or pending action that was in time is
/// still there.
pub proof fn sweep_leaves_nothing_overdue(m: AppModel, now: u64, ids: Seq<u64>)
    requires
        m.wf(),
        m.has_room(now, 0),
        m.lists_overdue(now, ids),
    ensures
        ({
            let after = m.sweep(now, ids).app;
            &&& after.docker.confirm is Some ==> now < after.docker.confirm->0.deadline
            &&& m.docker.confirm is Some && now < m.docker.confirm->0.deadline
                ==> after.docker.confirm == m.docker.confirm
            &&& forall|id: u64| #[trigger]
                after.pending.contains_key(id) ==> now < after.pending[id].deadline
            &&& forall|id: u64| #[trigger]
                after.pending.contains_key(id) <==> m.pending.contains_key(id) && now
                    < m.pending[id].deadline
            &&& forall|id: u64| #[trigger]
                after.pending.contains_key(id) ==> after.pending[id] == m.pending[id]
            &&& forall|i: int|
                0 <= i < after.toasts.len() ==> now < (#[trigger] after.toasts[i]).expires_at
        }),
{
    let start = m.drop_stale_confirm(now);
    lemma_expire_each(start, now, ids);
    let swept = start.expire_each(now, ids).app;
    let fresh = |t: ToastModel| now < t.expires_at;
    let kept = swept.toasts.filter(fresh);
    assert forall|i: int| 0 <= i < kept.len() implies now < (#[trigger] kept[i]).expires_at by {
        swept.toasts.lemma_filter_pred(fresh, i);
    }
    assert forall|id: u64| #[trigger] swept.pending.contains_key(id) implies now
        < swept.pending[id].deadline by {
        assert(!ids.contains(id));
        assert(!m.is_overdue(now, id));
    }
    assert forall|id: u64|
        m.pending.contains_key(id) && now < m.pending[id].deadline implies #[trigger]
    swept.pending.contains_key(id) by {
        assert(!m.is_overdue(now, id));
        assert(!ids.contains(id));
    }
}

/// A timeout that a sweep reports is not swept away with the stale toasts: if
/// anything was overdue, its toast is the newest on the screen.
pub proof fn timeouts_are_seen(m: AppModel, now: u64, ids: Seq<u64>)
    requires
        m.wf(),
        m.has_room(now, 0),
        m.lists_overdue(now, ids),
        ids.len() > 0,
    ensures
        ({
            let after = m.sweep(now, ids).app;
            &&& after.toasts.len() > 0
            &&& after.toasts.last().message == m.pending[ids.last()].description
                + " timed out — check engine"@
        }),
{
    let start = m.drop_stale_confirm(now);
    lemma_expire_each(start, now, ids);
    let swept = start.expire_each(now, ids).app;
    assert(ids.contains(ids.last()));
    assert(m.is_overdue(now, ids.last()));
    reveal(Seq::filter);
    let fresh = |t: ToastModel| now < t.expires_at;
    assert(swept.toasts.filter(fresh).last() == swept.toasts.last());
}

/// However many toasts are raised, no more than [`MAX_TOASTS`] are shown, and
/// the one raised last is always among them.
pub proof fn toasts_stay_few(m: AppModel, now: u64, kind: ToastKind, message: Seq<char>)
    requires
        m.toasts.len() <= MAX_TOASTS,
    ensures
        m.push_toast(now, kind, message).app.toasts.len() <= MAX_TOASTS,
        m.push_toast(now, kind, message).app.toasts.last().message == message,
        m.push_toast(now, kind, message).app.toasts.last().kind == kind,
{
}

/// The pane is sized to its tile, not to the terminal: whatever the new size
/// of the terminal, emulator and pane get the size of the pty tile.
pub proof fn pane_is_sized_to_its_tile(m: AppModel, rows: u16, cols: u16)
    ensures
        ({
            let after = m.resize(rows, cols);
            let dims = spec_pty_tile_dims(after.app.layout);
            &&& pty_size(after.app.pty) == dims
            &&& after.actions[0] == ActionView::Send(
                Request::ResizePane { pane_id: m.pane, rows: dims.0, cols: dims.1 },
            )
            &&& find_tile(after.app.layout.tiles, m.focused) is Some ==> after.app.focused
                == m.focused
        }),
{
}

/// The cursor of the container list is on a row.
pub open spec fn docker_in_range(m: DockerModel) -> bool {
    in_range(m.cursor.selection, m.shown().len())
}

/// No key takes the cursor of the container list off the list.
pub proof fn docker_keys_stay_in_range(m: AppModel, key: ScopeKey, now: u64)
    requires
        docker_in_range(m.docker),
    ensures
        docker_in_range(m.docker_key(key, now).app.docker),
{
}

/// No event takes the cursor of the container list off the list.
pub proof fn docker_events_stay_in_range(m: AppModel, event: Event)
    requires
        docker_in_range(m.docker),
    ensures
        docker_in_range(m.docker_event(event).app.docker),
{
}

/// Refreshed lists never leave a cursor off its list, and a row that is still
/// shown keeps the cursor.
pub proof fn refreshed_cursors_follow_their_rows(m: AppModel, event: Event)
    requires
        m.ports.ports.cursor.selection >= 0,
        m.ports.processes.cursor.selection >= 0,
        m.fleet.cursor.selection >= 0,
    ensures
        ({
            let before = m.ports.ports;
            let after = m.ports_event(event).app.ports.ports;
            event is PortList ==> follows_row(
                before.shown(),
                before.cursor.selection,
                after.shown(),
                after.cursor.selection,
            )
        }),
        ({
            let before = m.ports.processes;
            let after = m.processes_event(event).app.ports.processes;
            event is ProcessList ==> follows_row(
                before.shown(),
                before.cursor.selection,
                after.shown(),
                after.cursor.selection,
            )
        }),
        ({
            let before = m.fleet;
            let after = m.fleet_event(event).app.fleet;
            event is HostList ==> follows_row(
                before.shown(),
                before.cursor.selection,
                after.shown(),
                after.cursor.selection,
            )
        }),
{
    match event {
        Event::PortList { ports, source } => {
            let before = m.ports.ports;
            reanchor_follows_the_row(
                visible(ports@, before.cursor.filter),
                selected_key(before.shown(), before.cursor.selection),
                before.cursor.selection,
            );
        },
        Event::ProcessList { rows, source } => {
            let before = m.ports.processes;
            reanchor_follows_the_row(
                visible(rows@, before.cursor.filter),
                selected_key(before.shown(), before.cursor.selection),
                before.cursor.selection,
            );
        },
        Event::HostList { hosts, source } => {
            let before = m.fleet;
            reanchor_follows_the_row(
                visible(hosts@, before.cursor.filter),
                selected_key(before.shown(), before.cursor.selection),
                before.cursor.selection,
            );
        },
        _ => {},
    }
}

} // verus!
