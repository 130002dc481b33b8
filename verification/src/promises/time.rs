//! Time: what a tick does away with.

use vstd::prelude::*;

use crate::docker::DockerModel;
use crate::event::{ActionView, AppEvent};
use crate::laws::{sweep_leaves_nothing_overdue, timeouts_are_seen};
use crate::model::{AppModel, Step, ToastModel};

verus! {

/// A tick closes a prompt whose time is up, gives up the actions whose time is
/// up, takes down the toasts whose time is up, leaves all others alone, and
/// redraws.
pub proof fn a_tick_does_away_with_what_is_over(
    m: AppModel,
    id: u64,
    now: u64,
    after: Step,
)
    requires
        m.wf(),
        now + 30_000 <= u64::MAX,
        m.leads_to(AppEvent::Tick, now, after),
    ensures
        m.docker.confirm is Some && m.docker.confirm->0.deadline > now ==> after.app.docker.confirm
            == m.docker.confirm,
        m.docker.confirm is Some && m.docker.confirm->0.deadline <= now
            ==> after.app.docker.confirm is None,
        m.docker.confirm is None ==> after.app.docker.confirm is None,
        m.pending.contains_key(id) && m.pending[id].deadline > now
            ==> after.app.pending.contains_key(id) && after.app.pending[id] == m.pending[id],
        !m.pending.contains_key(id) || m.pending[id].deadline <= now
            ==> !after.app.pending.contains_key(id),
        m.pending.contains_key(id) && m.pending[id].deadline <= now ==> after.app.toasts.len() > 0,
        forall|i: int|
            0 <= i < after.app.toasts.len() ==> now < (#[trigger] after.app.toasts[i]).expires_at,
        after.actions.len() > 0 && after.actions.last() == ActionView::DrawFrame,
        after.app == (AppModel {
            docker: DockerModel { confirm: after.app.docker.confirm, ..m.docker },
            pending: after.app.pending,
            toasts: after.app.toasts,
            ..m
        }),
{
    let ids = choose|ids: Seq<u64>| #[trigger]
        m.lists_overdue(now, ids) && after == (Step {
            app: m.sweep(now, ids).app,
            actions: m.sweep(now, ids).actions.push(ActionView::DrawFrame),
        });
    sweep_leaves_nothing_overdue(m, now, ids);
    lemma_expiring_keeps_the_rest(m.drop_stale_confirm(now), now, ids);
    if m.pending.contains_key(id) && m.pending[id].deadline <= now {
        assert(m.is_overdue(now, id));
        assert(ids.contains(id));
        timeouts_are_seen(m, now, ids);
    }
}

proof fn lemma_expiring_keeps_the_rest(m: AppModel, now: u64, ids: Seq<u64>)
    ensures
        ({
            let after = m.expire_each(now, ids).app;
            after == (AppModel { pending: after.pending, toasts: after.toasts, ..m })
        }),
    decreases ids.len(),
{
    if ids.len() > 0 {
        lemma_expiring_keeps_the_rest(m, now, ids.drop_last());
    }
}

/// A tick on which no action is given up keeps every toast whose time is not
/// up, in its place among the others, and takes down the rest.
pub proof fn a_quiet_tick_keeps_the_toasts(m: AppModel, now: u64, after: Step)
    requires
        m.leads_to(AppEvent::Tick, now, after),
        forall|id: u64| #[trigger] m.pending.contains_key(id) ==> m.pending[id].deadline > now,
    ensures
        after.app.pending == m.pending,
        after.actions == seq![ActionView::DrawFrame],
        forall|t: ToastModel| #[trigger]
            after.app.toasts.contains(t) <==> m.toasts.contains(t) && now < t.expires_at,
        (forall|i: int| 0 <= i < m.toasts.len() ==> now < (#[trigger] m.toasts[i]).expires_at)
            ==> after.app.toasts == m.toasts,
        (forall|i: int| 0 <= i < m.toasts.len() ==> now >= (#[trigger] m.toasts[i]).expires_at)
            ==> after.app.toasts.len() == 0,
{
    let ids = choose|ids: Seq<u64>| #[trigger]
        m.lists_overdue(now, ids) && after == (Step {
            app: m.sweep(now, ids).app,
            actions: m.sweep(now, ids).actions.push(ActionView::DrawFrame),
        });
    assert(ids.len() == 0) by {
        if ids.len() > 0 {
            assert(ids.contains(ids[0]));
            assert(m.is_overdue(now, ids[0]));
        }
    }
    let fresh = |t: ToastModel| now < t.expires_at;
    lemma_filter_keeps(m.toasts, fresh);
    assert(after.app.toasts == m.toasts.filter(fresh));
    assert(after.actions =~= seq![ActionView::DrawFrame]);
}

proof fn lemma_filter_keeps<T>(s: Seq<T>, keep: spec_fn(T) -> bool)
    ensures
        forall|t: T| #[trigger] s.filter(keep).contains(t) <==> s.contains(t) && keep(t),
        (forall|i: int| 0 <= i < s.len() ==> keep(#[trigger] s[i])) ==> s.filter(keep) == s,
        (forall|i: int| 0 <= i < s.len() ==> !keep(#[trigger] s[i])) ==> s.filter(keep).len() == 0,
    decreases s.len(),
{
    reveal(Seq::filter);
    if s.len() > 0 {
        let front = s.drop_last();
        lemma_filter_keeps(front, keep);
        assert(s =~= front.push(s.last()));
        assert forall|t: T| #[trigger] s.filter(keep).contains(t) <==> s.contains(t) && keep(t) by {
            vstd::seq_lib::lemma_seq_contains_after_push(front, s.last(), t);
            vstd::seq_lib::lemma_seq_contains_after_push(front.filter(keep), s.last(), t);
        }
        if forall|i: int| 0 <= i < s.len() ==> keep(#[trigger] s[i]) {
            assert forall|i: int| 0 <= i < front.len() implies keep(#[trigger] front[i]) by {
                assert(front[i] == s[i]);
            }
            assert(keep(s[s.len() - 1]));
        }
        if forall|i: int| 0 <= i < s.len() ==> !keep(#[trigger] s[i]) {
            assert forall|i: int| 0 <= i < front.len() implies !keep(#[trigger] front[i]) by {
                assert(front[i] == s[i]);
            }
            assert(!keep(s[s.len() - 1]));
        }
    } else {
        assert(s.filter(keep) =~= s);
    }
}

} // verus!
