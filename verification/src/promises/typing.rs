//! From typed bytes to what the focused tile makes of them.

use vstd::prelude::*;

use crate::event::ActionView;
use crate::geometry::Rect;
use crate::input::{filter_chunk, forwarded, InputActionView};
use crate::keys::{plain_bytes_are_keys, read_keys, ScopeKey};
use crate::model::{stay, AppModel, Step};
use crate::promises::keyboard::{
    ctrl_b_d_detaches, ctrl_b_h_and_left_move_left, ctrl_b_j_and_down_move_down,
    ctrl_b_k_and_up_move_up, ctrl_b_l_and_right_move_right, escapes_and_arrows_go_on,
    single_bytes_are_keys, tab_and_shift_tab_cycle, text_goes_on,
};
use crate::tile::{default_layout, find_tile, too_small, ScopeKind, TileId};

verus! {

/// The god view is on the screen, and no key is half typed.
pub open spec fn at_rest(m: AppModel, area: Rect) -> bool {
    &&& !too_small(area)
    &&& m.layout == default_layout(area)
    &&& m.held_input == Seq::<u8>::empty()
    &&& m.held_keys == Seq::<u8>::empty()
}

/// The tiles that keys can be typed into.
pub proof fn lemma_focus_routes(m: AppModel, area: Rect)
    requires
        at_rest(m, area),
    ensures
        m.focused == TileId::Pty <==> m.pty_focused(),
        m.focused == TileId::Docker <==> m.focused_scope() == Some(ScopeKind::Docker),
        m.focused == TileId::Ports <==> m.focused_scope() == Some(ScopeKind::Ports),
        m.focused == TileId::Fleet <==> m.focused_scope() == Some(ScopeKind::Fleet),
{
    let tiles = m.layout.tiles;
    assert(tiles.len() == 5);
    reveal_with_fuel(find_tile, 6);
    assert(tiles.drop_first()[0] == tiles[1]);
    assert(tiles.drop_first().drop_first()[0] == tiles[2]);
    assert(tiles.drop_first().drop_first().drop_first()[0] == tiles[3]);
    assert(tiles.drop_first().drop_first().drop_first().drop_first()[0] == tiles[4]);
}

/// A chunk that is forwarded in one piece is read by the focused scope.
pub proof fn lemma_chunk_is_read(m: AppModel, scope: ScopeKind, bytes: Seq<u8>, key: ScopeKey, now: u64)
    requires
        m.held_input == Seq::<u8>::empty(),
        m.held_keys == Seq::<u8>::empty(),
        !m.pty_focused(),
        m.focused_scope() == Some(scope),
        bytes.len() > 0,
        filter_chunk(Seq::empty(), Seq::empty(), bytes).actions == forwarded(bytes),
        filter_chunk(Seq::empty(), Seq::empty(), bytes).held.len() == 0,
        read_keys(Seq::empty(), bytes).keys == seq![key],
        read_keys(Seq::empty(), bytes).held.len() == 0,
    ensures
        m.stdin(bytes, now) == m.scope_key(scope, key, now),
{
    reveal(AppModel::stdin);
    reveal(AppModel::input_action);
    reveal_with_fuel(AppModel::input_actions, 2);
    reveal_with_fuel(AppModel::scope_keys, 2);
    let filtered = filter_chunk(Seq::empty(), Seq::empty(), bytes);
    assert(filtered.held =~= Seq::empty());
    let start = AppModel { held_input: filtered.held, ..m };
    assert(start =~= m);
    assert(forwarded(bytes).drop_last() =~= Seq::empty());
    let read = read_keys(m.held_keys, bytes);
    assert(read.held =~= Seq::empty());
    assert(AppModel { held_keys: read.held, ..m } =~= m);
    assert(seq![key].drop_last() =~= Seq::empty());
    let last = m.scope_key(scope, key, now);
    assert(stay(m).actions + last.actions =~= last.actions);
    assert(m.forward(bytes, now) =~= last);
    assert(m.stdin(bytes, now) =~= last);
}

/// A character typed into a tile is that tile's key.
pub proof fn lemma_typed(m: AppModel, area: Rect, scope: ScopeKind, b: u8, now: u64)
    requires
        at_rest(m, area),
        m.focused_scope() == Some(scope),
        b != 0x09,
        b != 0x02,
        b != 0x1b,
    ensures
        m.stdin(seq![b], now) == m.scope_key(
            scope,
            if b == 0x0d || b == 0x0a {
                ScopeKey::Enter
            } else if b == 0x7f || b == 0x08 {
                ScopeKey::Backspace
            } else {
                ScopeKey::Char(b)
            },
            now,
        ),
{
    lemma_focus_routes(m, area);
    text_goes_on(seq![b]);
    single_bytes_are_keys(b);
    lemma_chunk_is_read(m, scope, seq![b], read_keys(Seq::empty(), seq![b]).keys[0], now);
}

/// `ESC` typed into a tile is Escape.
pub proof fn lemma_typed_escape(m: AppModel, area: Rect, scope: ScopeKind, now: u64)
    requires
        at_rest(m, area),
        m.focused_scope() == Some(scope),
    ensures
        m.stdin(seq![0x1bu8], now) == m.scope_key(scope, ScopeKey::Escape, now),
{
    lemma_focus_routes(m, area);
    escapes_and_arrows_go_on(0x41);
    single_bytes_are_keys(0x1b);
    lemma_chunk_is_read(m, scope, seq![0x1bu8], ScopeKey::Escape, now);
}

proof fn lemma_keys_keep_the_frame(m: AppModel, scope: ScopeKind, keys: Seq<ScopeKey>, now: u64)
    ensures
        ({
            let after = m.scope_keys(scope, keys, now).app;
            &&& after.layout == m.layout
            &&& after.focused == m.focused
            &&& after.held_input == m.held_input
            &&& after.held_keys == m.held_keys
        }),
    decreases keys.len(),
{
    if keys.len() > 0 {
        lemma_keys_keep_the_frame(m, scope, keys.drop_last(), now);
        reveal(AppModel::scope_key);
    }
}

proof fn lemma_keys_in_turn(
    m: AppModel,
    scope: ScopeKind,
    a: Seq<ScopeKey>,
    b: Seq<ScopeKey>,
    now: u64,
)
    ensures
        ({
            let first = m.scope_keys(scope, a, now);
            let second = first.app.scope_keys(scope, b, now);
            m.scope_keys(scope, a + b, now) == (Step {
                app: second.app,
                actions: first.actions + second.actions,
            })
        }),
    decreases b.len(),
{
    let first = m.scope_keys(scope, a, now);
    if b.len() == 0 {
        assert(a + b =~= a);
        assert(first.actions + Seq::<ActionView>::empty() =~= first.actions);
    } else {
        lemma_keys_in_turn(m, scope, a, b.drop_last(), now);
        assert((a + b).drop_last() =~= a + b.drop_last());
        assert((a + b).last() == b.last());
        let middle = first.app.scope_keys(scope, b.drop_last(), now);
        let last = middle.app.scope_key(scope, b.last(), now);
        assert(first.actions + middle.actions + last.actions =~= first.actions + (middle.actions
            + last.actions));
    }
}

proof fn lemma_text_is_read(m: AppModel, scope: ScopeKind, bytes: Seq<u8>, now: u64)
    requires
        m.held_input == Seq::<u8>::empty(),
        m.held_keys == Seq::<u8>::empty(),
        !m.pty_focused(),
        m.focused_scope() == Some(scope),
        bytes.len() > 0,
        forall|i: int|
            0 <= i < bytes.len() ==> (#[trigger] bytes[i]) != 0x09 && bytes[i] != 0x02 && bytes[i]
                != 0x1b,
    ensures
        m.stdin(bytes, now) == m.scope_keys(scope, read_keys(Seq::empty(), bytes).keys, now),
{
    text_goes_on(bytes);
    plain_bytes_are_keys(bytes);
    reveal(AppModel::stdin);
    reveal(AppModel::input_action);
    reveal_with_fuel(AppModel::input_actions, 2);
    let filtered = filter_chunk(Seq::empty(), Seq::empty(), bytes);
    assert(filtered.held =~= Seq::empty());
    assert(AppModel { held_input: filtered.held, ..m } =~= m);
    assert(filtered.actions.drop_last() =~= Seq::empty());
    let read = read_keys(m.held_keys, bytes);
    assert(read.held =~= Seq::empty());
    assert(AppModel { held_keys: read.held, ..m } =~= m);
    let last = m.scope_keys(scope, read.keys, now);
    assert(stay(m).actions + last.actions =~= last.actions);
    assert(m.stdin(bytes, now) =~= last);
}

/// What is typed into a tile at once acts as if it had been typed bit by bit:
/// each key in its turn, on what the one before it left.
pub proof fn keys_typed_together_act_one_by_one(
    m: AppModel,
    area: Rect,
    scope: ScopeKind,
    a: Seq<u8>,
    b: Seq<u8>,
    now: u64,
)
    requires
        at_rest(m, area),
        m.focused_scope() == Some(scope),
        a.len() > 0,
        b.len() > 0,
        forall|i: int|
            0 <= i < a.len() ==> (#[trigger] a[i]) != 0x09 && a[i] != 0x02 && a[i] != 0x1b,
        forall|i: int|
            0 <= i < b.len() ==> (#[trigger] b[i]) != 0x09 && b[i] != 0x02 && b[i] != 0x1b,
    ensures
        ({
            let first = m.stdin(a, now);
            let second = first.app.stdin(b, now);
            &&& m.stdin(a + b, now).app == second.app
            &&& m.stdin(a + b, now).actions == first.actions + second.actions
        }),
{
    lemma_focus_routes(m, area);
    let keys_a = read_keys(Seq::empty(), a).keys;
    let keys_b = read_keys(Seq::empty(), b).keys;
    lemma_text_is_read(m, scope, a, now);
    lemma_keys_keep_the_frame(m, scope, keys_a, now);
    let after = m.scope_keys(scope, keys_a, now).app;
    lemma_text_is_read(after, scope, b, now);
    assert forall|i: int| 0 <= i < (a + b).len() implies (#[trigger] (a + b)[i]) != 0x09 && (a
        + b)[i] != 0x02 && (a + b)[i] != 0x1b by {
        if i < a.len() {
            assert((a + b)[i] == a[i]);
        } else {
            assert((a + b)[i] == b[i - a.len()]);
        }
    }
    lemma_text_is_read(m, scope, a + b, now);
    plain_bytes_are_keys(a);
    plain_bytes_are_keys(b);
    plain_bytes_are_keys(a + b);
    assert(read_keys(Seq::empty(), a + b).keys =~= keys_a + keys_b);
    lemma_keys_in_turn(m, scope, keys_a, keys_b, now);
}

/// What is typed in front of a binding, in the same chunk, acts first and the
/// binding after it, as if they had come one after the other; what is behind
/// the binding is dropped.
pub proof fn a_binding_acts_after_what_was_typed_before_it(
    m: AppModel,
    area: Rect,
    pre: Seq<u8>,
    keys: Seq<u8>,
    post: Seq<u8>,
    now: u64,
)
    requires
        at_rest(m, area),
        pre.len() > 0,
        forall|i: int|
            0 <= i < pre.len() ==> (#[trigger] pre[i]) != 0x09 && pre[i] != 0x02 && pre[i] != 0x1b,
        keys == seq![0x09u8] || keys == seq![0x02u8, 0x64u8] || keys == seq![0x02u8, 0x68u8] || keys
            == seq![0x02u8, 0x6au8] || keys == seq![0x02u8, 0x6bu8] || keys == seq![
            0x02u8,
            0x6cu8,
        ],
    ensures
        ({
            let first = m.stdin(pre, now);
            let second = first.app.stdin(keys, now);
            &&& m.stdin(pre + keys + post, now).app == second.app
            &&& m.stdin(pre + keys + post, now).actions == first.actions + second.actions
        }),
{
    let none = Seq::<u8>::empty();
    lemma_focus_routes(m, area);
    text_goes_on(pre);
    tab_and_shift_tab_cycle(pre, post);
    tab_and_shift_tab_cycle(none, none);
    ctrl_b_d_detaches(pre, post);
    ctrl_b_d_detaches(none, none);
    ctrl_b_h_and_left_move_left(pre, post);
    ctrl_b_h_and_left_move_left(none, none);
    ctrl_b_j_and_down_move_down(pre, post);
    ctrl_b_j_and_down_move_down(none, none);
    ctrl_b_k_and_up_move_up(pre, post);
    ctrl_b_k_and_up_move_up(none, none);
    ctrl_b_l_and_right_move_right(pre, post);
    ctrl_b_l_and_right_move_right(none, none);
    assert(none + keys + none =~= keys);
    let whole = filter_chunk(none, none, pre + keys + post);
    let alone = filter_chunk(none, none, keys);
    let action = alone.actions[0];
    assert(alone.actions =~= seq![action]);
    assert(whole.actions =~= seq![InputActionView::Forward(pre), action]);
    assert(filter_chunk(none, none, pre).actions =~= seq![InputActionView::Forward(pre)]);
    assert(whole.held =~= none && alone.held =~= none && filter_chunk(none, none, pre).held
        =~= none);
    reveal(AppModel::stdin);
    reveal_with_fuel(AppModel::input_actions, 3);
    let go = InputActionView::Forward(pre);
    let first = m.input_action(go, now);
    assert(AppModel { held_input: none, ..m } =~= m);
    assert(seq![go].drop_last() =~= Seq::empty());
    assert(stay(m).actions + first.actions =~= first.actions);
    assert(m.input_actions(seq![go], now) =~= first);
    assert(first.app.held_input == none) by {
        reveal(AppModel::input_action);
        if m.focused_scope() is Some && !m.pty_focused() {
            let read = read_keys(m.held_keys, pre);
            let start = AppModel { held_keys: read.held, ..m };
            lemma_keys_keep_the_frame(start, m.focused_scope()->0, read.keys, now);
        }
    }
    assert(AppModel { held_input: none, ..first.app } =~= first.app);
    assert(seq![action].drop_last() =~= Seq::empty());
    let second = first.app.input_action(action, now);
    assert(stay(first.app).actions + second.actions =~= second.actions);
    assert(first.app.input_actions(seq![action], now) =~= second);
    assert(seq![go, action].drop_last() =~= seq![go]);
}

} // verus!
