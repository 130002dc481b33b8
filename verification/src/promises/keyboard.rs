//! Typing: what the bytes of a terminal's keys mean.

use vstd::prelude::*;

use crate::geometry::FocusDir;
use crate::input::{
    binding, filter_chunk, forwarded, incomplete, lemma_binding_by_shape, plain_bytes_pass_through,
    Filtered, InputActionView,
};
use crate::keys::{end_of_chunk, key_scan, key_step, read_keys, KeyScan, ScopeKey};
use crate::list::{list_step, visible, Cursor, KeyedRow};

verus! {

proof fn lemma_short_scans()
    ensures
        forall|a: u8|
            read_keys(Seq::empty(), #[trigger] seq![a]) == end_of_chunk(
                key_step(KeyScan { keys: Seq::empty(), held: Seq::empty() }, a),
            ),
        forall|a: u8, b: u8, c: u8|
            read_keys(Seq::empty(), #[trigger] seq![a, b, c]) == end_of_chunk(
                key_step(
                    key_step(key_step(KeyScan { keys: Seq::empty(), held: Seq::empty() }, a), b),
                    c,
                ),
            ),
        forall|a: u8, b: u8, c: u8, d: u8|
            read_keys(Seq::empty(), #[trigger] seq![a, b, c, d]) == end_of_chunk(
                key_step(
                    key_step(
                        key_step(
                            key_step(KeyScan { keys: Seq::empty(), held: Seq::empty() }, a),
                            b,
                        ),
                        c,
                    ),
                    d,
                ),
            ),
{
    reveal_with_fuel(key_scan, 5);
    assert forall|a: u8|
        read_keys(Seq::empty(), #[trigger] seq![a]) == end_of_chunk(
            key_step(KeyScan { keys: Seq::empty(), held: Seq::empty() }, a),
        ) by {
        assert(seq![a].drop_last() =~= Seq::empty());
    }
    assert forall|a: u8, b: u8, c: u8|
        read_keys(Seq::empty(), #[trigger] seq![a, b, c]) == end_of_chunk(
            key_step(
                key_step(key_step(KeyScan { keys: Seq::empty(), held: Seq::empty() }, a), b),
                c,
            ),
        ) by {
        assert(seq![a, b, c].drop_last() =~= seq![a, b]);
        assert(seq![a, b].drop_last() =~= seq![a]);
        assert(seq![a].drop_last() =~= Seq::empty());
    }
    assert forall|a: u8, b: u8, c: u8, d: u8|
        read_keys(Seq::empty(), #[trigger] seq![a, b, c, d]) == end_of_chunk(
            key_step(
                key_step(
                    key_step(key_step(KeyScan { keys: Seq::empty(), held: Seq::empty() }, a), b),
                    c,
                ),
                d,
            ),
        ) by {
        assert(seq![a, b, c, d].drop_last() =~= seq![a, b, c]);
        assert(seq![a, b, c].drop_last() =~= seq![a, b]);
        assert(seq![a, b].drop_last() =~= seq![a]);
        assert(seq![a].drop_last() =~= Seq::empty());
    }
}

/// Inside a tile the arrow keys are Up and Down, and the keys left and right
/// are nothing.
pub proof fn arrows_are_read()
    ensures
        read_keys(Seq::empty(), seq![0x1bu8, 0x5bu8, 0x41u8]).keys == seq![ScopeKey::Up],
        read_keys(Seq::empty(), seq![0x1bu8, 0x5bu8, 0x41u8]).held.len() == 0,
        read_keys(Seq::empty(), seq![0x1bu8, 0x5bu8, 0x42u8]).keys == seq![ScopeKey::Down],
        read_keys(Seq::empty(), seq![0x1bu8, 0x5bu8, 0x42u8]).held.len() == 0,
        read_keys(Seq::empty(), seq![0x1bu8, 0x5bu8, 0x43u8]).keys.len() == 0,
        read_keys(Seq::empty(), seq![0x1bu8, 0x5bu8, 0x43u8]).held.len() == 0,
        read_keys(Seq::empty(), seq![0x1bu8, 0x5bu8, 0x44u8]).keys.len() == 0,
        read_keys(Seq::empty(), seq![0x1bu8, 0x5bu8, 0x44u8]).held.len() == 0,
{
    lemma_short_scans();
    assert(read_keys(Seq::empty(), seq![0x1bu8, 0x5bu8, 0x41u8]).keys =~= seq![ScopeKey::Up]);
    assert(read_keys(Seq::empty(), seq![0x1bu8, 0x5bu8, 0x42u8]).keys =~= seq![ScopeKey::Down]);
}

/// Home and End are read in every form that terminals send them in.
pub proof fn home_and_end_are_read()
    ensures
        read_keys(Seq::empty(), seq![0x1bu8, 0x5bu8, 0x48u8]).keys == seq![ScopeKey::Home],
        read_keys(Seq::empty(), seq![0x1bu8, 0x5bu8, 0x48u8]).held.len() == 0,
        read_keys(Seq::empty(), seq![0x1bu8, 0x5bu8, 0x31u8, 0x7eu8]).keys == seq![ScopeKey::Home],
        read_keys(Seq::empty(), seq![0x1bu8, 0x5bu8, 0x31u8, 0x7eu8]).held.len() == 0,
        read_keys(Seq::empty(), seq![0x1bu8, 0x5bu8, 0x37u8, 0x7eu8]).keys == seq![ScopeKey::Home],
        read_keys(Seq::empty(), seq![0x1bu8, 0x5bu8, 0x37u8, 0x7eu8]).held.len() == 0,
        read_keys(Seq::empty(), seq![0x1bu8, 0x5bu8, 0x46u8]).keys == seq![ScopeKey::End],
        read_keys(Seq::empty(), seq![0x1bu8, 0x5bu8, 0x46u8]).held.len() == 0,
        read_keys(Seq::empty(), seq![0x1bu8, 0x5bu8, 0x34u8, 0x7eu8]).keys == seq![ScopeKey::End],
        read_keys(Seq::empty(), seq![0x1bu8, 0x5bu8, 0x34u8, 0x7eu8]).held.len() == 0,
        read_keys(Seq::empty(), seq![0x1bu8, 0x5bu8, 0x38u8, 0x7eu8]).keys == seq![ScopeKey::End],
        read_keys(Seq::empty(), seq![0x1bu8, 0x5bu8, 0x38u8, 0x7eu8]).held.len() == 0,
{
    lemma_short_scans();
    let home = seq![ScopeKey::Home];
    let end = seq![ScopeKey::End];
    assert(read_keys(Seq::empty(), seq![0x1bu8, 0x5bu8, 0x48u8]).keys =~= home);
    assert(read_keys(Seq::empty(), seq![0x1bu8, 0x5bu8, 0x31u8, 0x7eu8]).keys =~= home);
    assert(read_keys(Seq::empty(), seq![0x1bu8, 0x5bu8, 0x37u8, 0x7eu8]).keys =~= home);
    assert(read_keys(Seq::empty(), seq![0x1bu8, 0x5bu8, 0x46u8]).keys =~= end);
    assert(read_keys(Seq::empty(), seq![0x1bu8, 0x5bu8, 0x34u8, 0x7eu8]).keys =~= end);
    assert(read_keys(Seq::empty(), seq![0x1bu8, 0x5bu8, 0x38u8, 0x7eu8]).keys =~= end);
}

/// Page-up and page-down are read, and no other `ESC [ n ~` is a key.
pub proof fn page_keys_are_read(n: u8)
    requires
        0x30 <= n <= 0x39,
    ensures
        read_keys(Seq::empty(), seq![0x1bu8, 0x5bu8, 0x35u8, 0x7eu8]).keys == seq![ScopeKey::PgUp],
        read_keys(Seq::empty(), seq![0x1bu8, 0x5bu8, 0x35u8, 0x7eu8]).held.len() == 0,
        read_keys(Seq::empty(), seq![0x1bu8, 0x5bu8, 0x36u8, 0x7eu8]).keys == seq![ScopeKey::PgDn],
        read_keys(Seq::empty(), seq![0x1bu8, 0x5bu8, 0x36u8, 0x7eu8]).held.len() == 0,
        n == 0x30 || n == 0x32 || n == 0x33 || n == 0x39 ==> read_keys(
            Seq::empty(),
            seq![0x1bu8, 0x5bu8, n, 0x7eu8],
        ).keys.len() == 0,
        read_keys(Seq::empty(), seq![0x1bu8, 0x5bu8, n, 0x7eu8]).held.len() == 0,
{
    lemma_short_scans();
    let up = seq![ScopeKey::PgUp];
    let down = seq![ScopeKey::PgDn];
    assert(read_keys(Seq::empty(), seq![0x1bu8, 0x5bu8, 0x35u8, 0x7eu8]).keys =~= up);
    assert(read_keys(Seq::empty(), seq![0x1bu8, 0x5bu8, 0x36u8, 0x7eu8]).keys =~= down);
    let s = read_keys(Seq::empty(), seq![0x1bu8, 0x5bu8, n, 0x7eu8]);
    assert(s.keys =~= s.keys);
}

/// Every byte but `ESC` is one key: Enter for a carriage return or a line
/// feed, Backspace for either erase byte, and else the character itself.
/// `ESC` alone is Escape.
pub proof fn single_bytes_are_keys(b: u8)
    ensures
        read_keys(Seq::empty(), seq![b]).held.len() == 0,
        read_keys(Seq::empty(), seq![b]).keys == seq![
            if b == 0x1b {
                ScopeKey::Escape
            } else if b == 0x0d || b == 0x0a {
                ScopeKey::Enter
            } else if b == 0x7f || b == 0x08 {
                ScopeKey::Backspace
            } else {
                ScopeKey::Char(b)
            },
        ],
{
    lemma_short_scans();
    assert(read_keys(Seq::empty(), seq![b]).keys =~= seq![
        if b == 0x1b {
            ScopeKey::Escape
        } else if b == 0x0d || b == 0x0a {
            ScopeKey::Enter
        } else if b == 0x7f || b == 0x08 {
            ScopeKey::Backspace
        } else {
            ScopeKey::Char(b)
        },
    ]);
}

/// The keys of a list, on the rows that it shows: Home and `g` go to the
/// first row, End and `G` to the last, the arrows and `j`, `k` one row on or
/// back as far as there are rows, `/` opens the filter, and no other key but
/// these does anything.
pub proof fn list_keys_move_the_cursor<T: KeyedRow>(rows: Seq<T>, cur: Cursor, key: ScopeKey)
    requires
        !cur.filter_active,
        0 <= cur.selection,
        cur.selection < visible(rows, cur.filter).len(),
    ensures
        ({
            let n = visible(rows, cur.filter).len();
            let to = list_step(rows, cur, key).cursor;
            &&& to.filter == cur.filter
            &&& key == ScopeKey::Home || key == ScopeKey::Top || key == ScopeKey::Char(0x67)
                ==> to.selection == 0 && !to.filter_active
            &&& key == ScopeKey::End || key == ScopeKey::Bottom || key == ScopeKey::Char(0x47)
                ==> to.selection == n - 1 && !to.filter_active
            &&& key == ScopeKey::Down || key == ScopeKey::Char(0x6a) ==> !to.filter_active && (
            cur.selection + 1 < n ==> to.selection == cur.selection + 1) && (cur.selection + 1 == n
                ==> to.selection == cur.selection)
            &&& key == ScopeKey::Up || key == ScopeKey::Char(0x6b) ==> !to.filter_active && (
            cur.selection > 0 ==> to.selection == cur.selection - 1) && (cur.selection == 0
                ==> to.selection == 0)
            &&& key == ScopeKey::FilterStart || key == ScopeKey::Char(0x2f) ==> to.filter_active
                && to.selection == cur.selection
            &&& key == ScopeKey::Enter || key == ScopeKey::Escape || key == ScopeKey::Backspace
                || key == ScopeKey::PgUp || key == ScopeKey::PgDn ==> to == cur
            &&& key is Char && key->Char_0 != 0x67 && key->Char_0 != 0x47 && key->Char_0 != 0x6a
                && key->Char_0 != 0x6b && key->Char_0 != 0x2f ==> to == cur
        }),
{
}

/// A filter takes what is typed: a printable character at its end, Backspace
/// the last one away, Enter keeps it and closes it, Escape empties and closes
/// it. Whatever the key, the filter stays open or closed as said.
pub proof fn filters_take_what_is_typed<T: KeyedRow>(rows: Seq<T>, cur: Cursor, key: ScopeKey)
    requires
        cur.filter_active,
    ensures
        ({
            let to = list_step(rows, cur, key).cursor;
            &&& key is Char && 0x20 <= key->Char_0 <= 0x7e ==> to.filter == cur.filter.push(
                key->Char_0 as char,
            ) && to.filter_active
            &&& key is Char && !(0x20 <= key->Char_0 <= 0x7e) ==> to == cur
            &&& key == ScopeKey::Backspace && cur.filter.len() > 0 ==> to.filter
                == cur.filter.subrange(0, cur.filter.len() - 1) && to.filter_active
            &&& key == ScopeKey::Backspace && cur.filter.len() == 0 ==> to == cur
            &&& key == ScopeKey::Enter ==> to == (Cursor { filter_active: false, ..cur })
            &&& key == ScopeKey::Escape ==> to.filter.len() == 0 && !to.filter_active
            &&& key == ScopeKey::Up || key == ScopeKey::Down || key == ScopeKey::Home || key
                == ScopeKey::End || key == ScopeKey::PgUp || key == ScopeKey::PgDn ==> to == cur
        }),
{
    if cur.filter.len() > 0 {
        assert(cur.filter.drop_last() =~= cur.filter.subrange(0, cur.filter.len() - 1));
    }
}

/// Home goes to the first row and End to the last, from the bytes that the
/// terminal sends.
pub proof fn home_and_end_reach_the_ends<T: KeyedRow>(rows: Seq<T>, cur: Cursor)
    requires
        !cur.filter_active,
        visible(rows, cur.filter).len() > 0,
    ensures
        ({
            let home = read_keys(Seq::empty(), seq![0x1bu8, 0x5bu8, 0x48u8]).keys[0];
            let end = read_keys(Seq::empty(), seq![0x1bu8, 0x5bu8, 0x46u8]).keys[0];
            &&& list_step(rows, cur, home).cursor.selection == 0
            &&& list_step(rows, cur, end).cursor.selection == visible(rows, cur.filter).len() - 1
        }),
{
    home_and_end_are_read();
}

/// The bytes of `pre` hold no binding and no start of one.
pub open spec fn ordinary(pre: Seq<u8>) -> bool {
    forall|i: int|
        0 <= i < pre.len() ==> (#[trigger] pre[i]) != 0x09 && pre[i] != 0x02 && pre[i] != 0x1b
}

proof fn lemma_filter_after_plain(out: Seq<u8>, pre: Seq<u8>, rest: Seq<u8>)
    requires
        ordinary(pre),
    ensures
        filter_chunk(Seq::empty(), out, pre + rest) == filter_chunk(Seq::empty(), out + pre, rest),
    decreases pre.len(),
{
    if pre.len() == 0 {
        assert(pre + rest =~= rest);
        assert(out + pre =~= out);
    } else {
        let s = Seq::<u8>::empty().push(pre[0]);
        let tail = pre.drop_first();
        assert(s =~= seq![pre[0]]);
        lemma_binding_by_shape(s);
        assert((pre + rest).drop_first() =~= tail + rest);
        lemma_filter_after_plain(out + s, tail, rest);
        assert(out + s + tail =~= out + pre);
    }
}

/// A binding is found wherever it stands: what was typed before it goes to
/// the focused tile, then the binding acts, and the rest of the chunk is
/// dropped.
spec fn acts(pre: Seq<u8>, keys: Seq<u8>, post: Seq<u8>, action: InputActionView) -> bool {
    let r = filter_chunk(Seq::empty(), Seq::empty(), pre + keys + post);
    &&& r.held.len() == 0
    &&& r.actions == if pre.len() == 0 {
        seq![action]
    } else {
        seq![InputActionView::Forward(pre), action]
    }
}

proof fn lemma_binding_acts(pre: Seq<u8>, keys: Seq<u8>, post: Seq<u8>)
    requires
        ordinary(pre),
        1 <= keys.len() <= 4,
        binding(keys) is Some,
        forall|i: int|
            1 <= i < keys.len() ==> binding(#[trigger] keys.take(i)) is None
                && incomplete(keys.take(i), keys.skip(i) + post),
    ensures
        acts(pre, keys, post, binding(keys)->0),
{
    assert(pre + keys + post =~= pre + (keys + post));
    lemma_filter_after_plain(Seq::empty(), pre, keys + post);
    assert(Seq::<u8>::empty() + pre =~= pre);
    lemma_held_grows(pre, keys, 0, post);
    assert(keys.take(0) =~= Seq::empty());
    assert(keys.skip(0) =~= keys);
    let action = binding(keys)->0;
    assert(forwarded(pre).push(action) =~= if pre.len() == 0 {
        seq![action]
    } else {
        seq![InputActionView::Forward(pre), action]
    });
}

proof fn lemma_held_grows(out: Seq<u8>, keys: Seq<u8>, k: int, post: Seq<u8>)
    requires
        0 <= k < keys.len(),
        binding(keys) is Some,
        forall|i: int|
            1 <= i < keys.len() ==> binding(#[trigger] keys.take(i)) is None
                && incomplete(keys.take(i), keys.skip(i) + post),
    ensures
        filter_chunk(keys.take(k), out, keys.skip(k) + post) == (Filtered {
            actions: forwarded(out).push(binding(keys)->0),
            held: Seq::empty(),
        }),
    decreases keys.len() - k,
{
    let input = keys.skip(k) + post;
    assert(input[0] == keys[k]);
    assert(keys.take(k).push(keys[k]) =~= keys.take(k + 1));
    assert(input.drop_first() =~= keys.skip(k + 1) + post);
    if k + 1 == keys.len() {
        assert(keys.take(k + 1) =~= keys);
    } else {
        lemma_held_grows(out, keys, k + 1, post);
    }
}

/// `Ctrl-b d` detaches, wherever it stands: what was typed before it goes on
/// first, and the rest of the chunk is dropped.
pub proof fn ctrl_b_d_detaches(pre: Seq<u8>, post: Seq<u8>)
    requires
        forall|i: int|
            0 <= i < pre.len() ==> (#[trigger] pre[i]) != 0x09 && pre[i] != 0x02 && pre[i] != 0x1b,
    ensures
        ({
            let r = filter_chunk(Seq::empty(), Seq::empty(), pre + seq![0x02u8, 0x64u8] + post);
            &&& r.held.len() == 0
            &&& r.actions.last() == InputActionView::Detach
            &&& pre.len() == 0 ==> r.actions.len() == 1
            &&& pre.len() > 0 ==> r.actions.len() == 2 && r.actions[0] == InputActionView::Forward(
                pre,
            )
        }),
{
    let keys = seq![0x02u8, 0x64u8];
    lemma_binding_by_shape(keys);
    assert(keys.take(1) =~= seq![0x02u8]);
    lemma_binding_by_shape(keys.take(1));
    lemma_binding_acts(pre, keys, post);
}

/// `Ctrl-b h` and `Ctrl-b` with the left arrow move the focus to the left.
pub proof fn ctrl_b_h_and_left_move_left(pre: Seq<u8>, post: Seq<u8>)
    requires
        forall|i: int|
            0 <= i < pre.len() ==> (#[trigger] pre[i]) != 0x09 && pre[i] != 0x02 && pre[i] != 0x1b,
    ensures
        ({
            let r = filter_chunk(Seq::empty(), Seq::empty(), pre + seq![0x02u8, 0x68u8] + post);
            &&& r.held.len() == 0
            &&& r.actions.last() == InputActionView::FocusDirection(FocusDir::Left)
            &&& pre.len() == 0 ==> r.actions.len() == 1
            &&& pre.len() > 0 ==> r.actions.len() == 2 && r.actions[0] == InputActionView::Forward(
                pre,
            )
        }),
        ({
            let r = filter_chunk(Seq::empty(), Seq::empty(), pre + seq![0x02u8, 0x1bu8, 0x5bu8, 0x44u8] + post);
            &&& r.held.len() == 0
            &&& r.actions.last() == InputActionView::FocusDirection(FocusDir::Left)
            &&& pre.len() == 0 ==> r.actions.len() == 1
            &&& pre.len() > 0 ==> r.actions.len() == 2 && r.actions[0] == InputActionView::Forward(
                pre,
            )
        }),
{
    let keys = seq![0x02u8, 0x68u8];
    lemma_binding_by_shape(keys);
    assert(keys.take(1) =~= seq![0x02u8]);
    lemma_binding_by_shape(keys.take(1));
    lemma_binding_acts(pre, keys, post);
    let keys = seq![0x02u8, 0x1bu8, 0x5bu8, 0x44u8];
    lemma_binding_by_shape(keys);
    assert(keys.take(1) =~= seq![0x02u8]);
    lemma_binding_by_shape(keys.take(1));
    assert(keys.take(2) =~= seq![0x02u8, 0x1bu8]);
    lemma_binding_by_shape(keys.take(2));
    assert(keys.take(3) =~= seq![0x02u8, 0x1bu8, 0x5bu8]);
    lemma_binding_by_shape(keys.take(3));
    lemma_binding_acts(pre, keys, post);
}

/// `Ctrl-b j` and `Ctrl-b` with the down arrow move the focus down.
pub proof fn ctrl_b_j_and_down_move_down(pre: Seq<u8>, post: Seq<u8>)
    requires
        forall|i: int|
            0 <= i < pre.len() ==> (#[trigger] pre[i]) != 0x09 && pre[i] != 0x02 && pre[i] != 0x1b,
    ensures
        ({
            let r = filter_chunk(Seq::empty(), Seq::empty(), pre + seq![0x02u8, 0x6au8] + post);
            &&& r.held.len() == 0
            &&& r.actions.last() == InputActionView::FocusDirection(FocusDir::Down)
            &&& pre.len() == 0 ==> r.actions.len() == 1
            &&& pre.len() > 0 ==> r.actions.len() == 2 && r.actions[0] == InputActionView::Forward(
                pre,
            )
        }),
        ({
            let r = filter_chunk(Seq::empty(), Seq::empty(), pre + seq![0x02u8, 0x1bu8, 0x5bu8, 0x42u8] + post);
            &&& r.held.len() == 0
            &&& r.actions.last() == InputActionView::FocusDirection(FocusDir::Down)
            &&& pre.len() == 0 ==> r.actions.len() == 1
            &&& pre.len() > 0 ==> r.actions.len() == 2 && r.actions[0] == InputActionView::Forward(
                pre,
            )
        }),
{
    let keys = seq![0x02u8, 0x6au8];
    lemma_binding_by_shape(keys);
    assert(keys.take(1) =~= seq![0x02u8]);
    lemma_binding_by_shape(keys.take(1));
    lemma_binding_acts(pre, keys, post);
    let keys = seq![0x02u8, 0x1bu8, 0x5bu8, 0x42u8];
    lemma_binding_by_shape(keys);
    assert(keys.take(1) =~= seq![0x02u8]);
    lemma_binding_by_shape(keys.take(1));
    assert(keys.take(2) =~= seq![0x02u8, 0x1bu8]);
    lemma_binding_by_shape(keys.take(2));
    assert(keys.take(3) =~= seq![0x02u8, 0x1bu8, 0x5bu8]);
    lemma_binding_by_shape(keys.take(3));
    lemma_binding_acts(pre, keys, post);
}

/// `Ctrl-b k` and `Ctrl-b` with the up arrow move the focus up.
pub proof fn ctrl_b_k_and_up_move_up(pre: Seq<u8>, post: Seq<u8>)
    requires
        forall|i: int|
            0 <= i < pre.len() ==> (#[trigger] pre[i]) != 0x09 && pre[i] != 0x02 && pre[i] != 0x1b,
    ensures
        ({
            let r = filter_chunk(Seq::empty(), Seq::empty(), pre + seq![0x02u8, 0x6bu8] + post);
            &&& r.held.len() == 0
            &&& r.actions.last() == InputActionView::FocusDirection(FocusDir::Up)
            &&& pre.len() == 0 ==> r.actions.len() == 1
            &&& pre.len() > 0 ==> r.actions.len() == 2 && r.actions[0] == InputActionView::Forward(
                pre,
            )
        }),
        ({
            let r = filter_chunk(Seq::empty(), Seq::empty(), pre + seq![0x02u8, 0x1bu8, 0x5bu8, 0x41u8] + post);
            &&& r.held.len() == 0
            &&& r.actions.last() == InputActionView::FocusDirection(FocusDir::Up)
            &&& pre.len() == 0 ==> r.actions.len() == 1
            &&& pre.len() > 0 ==> r.actions.len() == 2 && r.actions[0] == InputActionView::Forward(
                pre,
            )
        }),
{
    let keys = seq![0x02u8, 0x6bu8];
    lemma_binding_by_shape(keys);
    assert(keys.take(1) =~= seq![0x02u8]);
    lemma_binding_by_shape(keys.take(1));
    lemma_binding_acts(pre, keys, post);
    let keys = seq![0x02u8, 0x1bu8, 0x5bu8, 0x41u8];
    lemma_binding_by_shape(keys);
    assert(keys.take(1) =~= seq![0x02u8]);
    lemma_binding_by_shape(keys.take(1));
    assert(keys.take(2) =~= seq![0x02u8, 0x1bu8]);
    lemma_binding_by_shape(keys.take(2));
    assert(keys.take(3) =~= seq![0x02u8, 0x1bu8, 0x5bu8]);
    lemma_binding_by_shape(keys.take(3));
    lemma_binding_acts(pre, keys, post);
}

/// `Ctrl-b l` and `Ctrl-b` with the right arrow move the focus to the right.
pub proof fn ctrl_b_l_and_right_move_right(pre: Seq<u8>, post: Seq<u8>)
    requires
        forall|i: int|
            0 <= i < pre.len() ==> (#[trigger] pre[i]) != 0x09 && pre[i] != 0x02 && pre[i] != 0x1b,
    ensures
        ({
            let r = filter_chunk(Seq::empty(), Seq::empty(), pre + seq![0x02u8, 0x6cu8] + post);
            &&& r.held.len() == 0
            &&& r.actions.last() == InputActionView::FocusDirection(FocusDir::Right)
            &&& pre.len() == 0 ==> r.actions.len() == 1
            &&& pre.len() > 0 ==> r.actions.len() == 2 && r.actions[0] == InputActionView::Forward(
                pre,
            )
        }),
        ({
            let r = filter_chunk(Seq::empty(), Seq::empty(), pre + seq![0x02u8, 0x1bu8, 0x5bu8, 0x43u8] + post);
            &&& r.held.len() == 0
            &&& r.actions.last() == InputActionView::FocusDirection(FocusDir::Right)
            &&& pre.len() == 0 ==> r.actions.len() == 1
            &&& pre.len() > 0 ==> r.actions.len() == 2 && r.actions[0] == InputActionView::Forward(
                pre,
            )
        }),
{
    let keys = seq![0x02u8, 0x6cu8];
    lemma_binding_by_shape(keys);
    assert(keys.take(1) =~= seq![0x02u8]);
    lemma_binding_by_shape(keys.take(1));
    lemma_binding_acts(pre, keys, post);
    let keys = seq![0x02u8, 0x1bu8, 0x5bu8, 0x43u8];
    lemma_binding_by_shape(keys);
    assert(keys.take(1) =~= seq![0x02u8]);
    lemma_binding_by_shape(keys.take(1));
    assert(keys.take(2) =~= seq![0x02u8, 0x1bu8]);
    lemma_binding_by_shape(keys.take(2));
    assert(keys.take(3) =~= seq![0x02u8, 0x1bu8, 0x5bu8]);
    lemma_binding_by_shape(keys.take(3));
    lemma_binding_acts(pre, keys, post);
}

/// `Tab` asks for the next tile and `Shift-Tab` for the previous one.
pub proof fn tab_and_shift_tab_cycle(pre: Seq<u8>, post: Seq<u8>)
    requires
        forall|i: int|
            0 <= i < pre.len() ==> (#[trigger] pre[i]) != 0x09 && pre[i] != 0x02 && pre[i] != 0x1b,
    ensures
        ({
            let r = filter_chunk(Seq::empty(), Seq::empty(), pre + seq![0x09u8] + post);
            &&& r.held.len() == 0
            &&& r.actions.last() == InputActionView::FocusNext
            &&& pre.len() == 0 ==> r.actions.len() == 1
            &&& pre.len() > 0 ==> r.actions.len() == 2 && r.actions[0] == InputActionView::Forward(
                pre,
            )
        }),
        ({
            let r = filter_chunk(Seq::empty(), Seq::empty(), pre + seq![0x1bu8, 0x5bu8, 0x5au8] + post);
            &&& r.held.len() == 0
            &&& r.actions.last() == InputActionView::FocusPrev
            &&& pre.len() == 0 ==> r.actions.len() == 1
            &&& pre.len() > 0 ==> r.actions.len() == 2 && r.actions[0] == InputActionView::Forward(
                pre,
            )
        }),
{
    let keys = seq![0x09u8];
    lemma_binding_by_shape(keys);
    lemma_binding_acts(pre, keys, post);
    let keys = seq![0x1bu8, 0x5bu8, 0x5au8];
    lemma_binding_by_shape(keys);
    assert(keys.take(1) =~= seq![0x1bu8]);
    lemma_binding_by_shape(keys.take(1));
    assert(keys.take(2) =~= seq![0x1bu8, 0x5bu8]);
    lemma_binding_by_shape(keys.take(2));
    assert((keys.skip(1) + post)[0] == 0x5b);
    lemma_binding_acts(pre, keys, post);
}

/// `Ctrl-b ?` asks for help and `Ctrl-b &` to close the pane.
pub proof fn ctrl_b_question_mark_and_ampersand(pre: Seq<u8>, post: Seq<u8>)
    requires
        forall|i: int|
            0 <= i < pre.len() ==> (#[trigger] pre[i]) != 0x09 && pre[i] != 0x02 && pre[i] != 0x1b,
    ensures
        ({
            let r = filter_chunk(Seq::empty(), Seq::empty(), pre + seq![0x02u8, 0x3fu8] + post);
            &&& r.held.len() == 0
            &&& r.actions.last() == InputActionView::Help
            &&& pre.len() == 0 ==> r.actions.len() == 1
            &&& pre.len() > 0 ==> r.actions.len() == 2 && r.actions[0] == InputActionView::Forward(
                pre,
            )
        }),
        ({
            let r = filter_chunk(Seq::empty(), Seq::empty(), pre + seq![0x02u8, 0x26u8] + post);
            &&& r.held.len() == 0
            &&& r.actions.last() == InputActionView::PaneClose
            &&& pre.len() == 0 ==> r.actions.len() == 1
            &&& pre.len() > 0 ==> r.actions.len() == 2 && r.actions[0] == InputActionView::Forward(
                pre,
            )
        }),
{
    let keys = seq![0x02u8, 0x3fu8];
    lemma_binding_by_shape(keys);
    assert(keys.take(1) =~= seq![0x02u8]);
    lemma_binding_by_shape(keys.take(1));
    lemma_binding_acts(pre, keys, post);
    let keys = seq![0x02u8, 0x26u8];
    lemma_binding_by_shape(keys);
    assert(keys.take(1) =~= seq![0x02u8]);
    lemma_binding_by_shape(keys.take(1));
    lemma_binding_acts(pre, keys, post);
}

/// `Ctrl-b` in front of a byte that is bound to nothing goes on with it, and
/// so does a second `Ctrl-b`.
pub proof fn unbound_prefixes_go_on(b: u8)
    requires
        b != 0x64 && b != 0x68 && b != 0x6a && b != 0x6b && b != 0x6c && b != 0x3f && b != 0x26,
        b != 0x1b,
    ensures
        filter_chunk(Seq::empty(), Seq::empty(), seq![0x02u8, b]).actions == seq![
            InputActionView::Forward(seq![0x02u8, b]),
        ],
        filter_chunk(Seq::empty(), Seq::empty(), seq![0x02u8, b]).held.len() == 0,
{
    let none = Seq::<u8>::empty();
    let one = seq![0x02u8];
    let two = seq![0x02u8, b];
    lemma_binding_by_shape(one);
    lemma_binding_by_shape(two);
    assert(none.push(0x02u8) =~= one);
    assert(one.push(b) =~= two);
    assert(two.drop_first() =~= seq![b]);
    assert(seq![b].drop_first() =~= none);
    assert(none + two =~= two);
    reveal_with_fuel(filter_chunk, 3);
    assert(filter_chunk(none, none, two).actions =~= seq![InputActionView::Forward(two)]);
}

/// An `ESC` that stands alone in its chunk goes on at once, and so does a key
/// that arrives as `ESC [ x`, in one piece; only `Shift-Tab` is kept.
pub proof fn escapes_and_arrows_go_on(x: u8)
    requires
        0x40 <= x <= 0x7e,
        x != 0x5a,
    ensures
        filter_chunk(Seq::empty(), Seq::empty(), seq![0x1bu8]).actions == seq![
            InputActionView::Forward(seq![0x1bu8]),
        ],
        filter_chunk(Seq::empty(), Seq::empty(), seq![0x1bu8]).held.len() == 0,
        filter_chunk(Seq::empty(), Seq::empty(), seq![0x1bu8, 0x5bu8, x]).actions == seq![
            InputActionView::Forward(seq![0x1bu8, 0x5bu8, x]),
        ],
        filter_chunk(Seq::empty(), Seq::empty(), seq![0x1bu8, 0x5bu8, x]).held.len() == 0,
{
    let none = Seq::<u8>::empty();
    let one = seq![0x1bu8];
    let two = seq![0x1bu8, 0x5bu8];
    let three = seq![0x1bu8, 0x5bu8, x];
    lemma_binding_by_shape(one);
    lemma_binding_by_shape(two);
    lemma_binding_by_shape(three);
    assert(none.push(0x1bu8) =~= one);
    assert(one.push(0x5bu8) =~= two);
    assert(two.push(x) =~= three);
    assert(one.drop_first() =~= none);
    assert(three.drop_first() =~= seq![0x5bu8, x]);
    assert(seq![0x5bu8, x].drop_first() =~= seq![x]);
    assert(seq![x].drop_first() =~= none);
    assert(none + one =~= one);
    assert(none + three =~= three);
    assert(three[2] == x);
    reveal_with_fuel(filter_chunk, 4);
    assert(filter_chunk(none, none, one).actions =~= seq![InputActionView::Forward(one)]);
    assert(filter_chunk(none, none, three).actions =~= seq![InputActionView::Forward(three)]);
}

/// A key that arrives as `ESC [ n ~` goes on in one piece.
pub proof fn numbered_keys_go_on(n: u8)
    requires
        0x30 <= n <= 0x39,
    ensures
        filter_chunk(Seq::empty(), Seq::empty(), seq![0x1bu8, 0x5bu8, n, 0x7eu8]).actions == seq![
            InputActionView::Forward(seq![0x1bu8, 0x5bu8, n, 0x7eu8]),
        ],
        filter_chunk(Seq::empty(), Seq::empty(), seq![0x1bu8, 0x5bu8, n, 0x7eu8]).held.len() == 0,
{
    let none = Seq::<u8>::empty();
    let one = seq![0x1bu8];
    let two = seq![0x1bu8, 0x5bu8];
    let three = seq![0x1bu8, 0x5bu8, n];
    let four = seq![0x1bu8, 0x5bu8, n, 0x7eu8];
    lemma_binding_by_shape(one);
    lemma_binding_by_shape(two);
    lemma_binding_by_shape(three);
    lemma_binding_by_shape(four);
    assert(none.push(0x1bu8) =~= one);
    assert(one.push(0x5bu8) =~= two);
    assert(two.push(n) =~= three);
    assert(three.push(0x7eu8) =~= four);
    assert(four.drop_first() =~= seq![0x5bu8, n, 0x7eu8]);
    assert(seq![0x5bu8, n, 0x7eu8].drop_first() =~= seq![n, 0x7eu8]);
    assert(seq![n, 0x7eu8].drop_first() =~= seq![0x7eu8]);
    assert(seq![0x7eu8].drop_first() =~= none);
    assert(none + four =~= four);
    assert(four[3] == 0x7e);
    reveal_with_fuel(filter_chunk, 5);
    assert(filter_chunk(none, none, four).actions =~= seq![InputActionView::Forward(four)]);
}

/// What holds no `Tab`, no `Ctrl-b` and no `ESC` goes on as it was typed.
pub proof fn text_goes_on(text: Seq<u8>)
    requires
        forall|i: int|
            0 <= i < text.len() ==> (#[trigger] text[i]) != 0x09 && text[i] != 0x02 && text[i]
                != 0x1b,
        text.len() > 0,
    ensures
        filter_chunk(Seq::empty(), Seq::empty(), text).actions == seq![
            InputActionView::Forward(text),
        ],
        filter_chunk(Seq::empty(), Seq::empty(), text).held.len() == 0,
{
    plain_bytes_pass_through(Seq::empty(), text);
    assert(Seq::<u8>::empty() + text =~= text);
}

/// Parameters do not change what an arrow, Home or End is: `ESC [`, any digits
/// and semicolons, and then `A`, `B`, `H` or `F`. With another letter there is
/// no key, and nothing is held back.
pub proof fn parameters_do_not_change_the_key(params: Seq<u8>, last: u8)
    requires
        forall|i: int|
            0 <= i < params.len() ==> 0x30 <= (#[trigger] params[i]) <= 0x39 || params[i] == 0x3b,
        0x40 <= last <= 0x7e,
    ensures
        ({
            let r = read_keys(Seq::empty(), seq![0x1bu8, 0x5bu8] + params + seq![last]);
            &&& r.held.len() == 0
            &&& last == 0x41 ==> r.keys == seq![ScopeKey::Up]
            &&& last == 0x42 ==> r.keys == seq![ScopeKey::Down]
            &&& last == 0x48 ==> r.keys == seq![ScopeKey::Home]
            &&& last == 0x46 ==> r.keys == seq![ScopeKey::End]
            &&& last != 0x41 && last != 0x42 && last != 0x48 && last != 0x46 && last != 0x7e
                ==> r.keys.len() == 0
            &&& last == 0x7e && params.len() != 1 ==> r.keys.len() == 0
        }),
{
    let start = KeyScan { keys: Seq::<ScopeKey>::empty(), held: Seq::<u8>::empty() };
    let open = seq![0x1bu8, 0x5bu8];
    lemma_parameters_are_held(params);
    let all = open + params + seq![last];
    assert(all.drop_last() =~= open + params);
    assert((open + params).skip(2) =~= params);
    let r = key_scan(start, all);
    assert(r == key_step(key_scan(start, open + params), last));
    let up = seq![ScopeKey::Up];
    let down = seq![ScopeKey::Down];
    let home = seq![ScopeKey::Home];
    let end = seq![ScopeKey::End];
    assert(Seq::<ScopeKey>::empty().push(ScopeKey::Up) =~= up);
    assert(Seq::<ScopeKey>::empty().push(ScopeKey::Down) =~= down);
    assert(Seq::<ScopeKey>::empty().push(ScopeKey::Home) =~= home);
    assert(Seq::<ScopeKey>::empty().push(ScopeKey::End) =~= end);
}

proof fn lemma_parameters_are_held(params: Seq<u8>)
    requires
        forall|i: int|
            0 <= i < params.len() ==> 0x30 <= (#[trigger] params[i]) <= 0x39 || params[i] == 0x3b,
    ensures
        key_scan(
            KeyScan { keys: Seq::<ScopeKey>::empty(), held: Seq::<u8>::empty() },
            seq![0x1bu8, 0x5bu8] + params,
        ) == (KeyScan {
            keys: Seq::<ScopeKey>::empty(),
            held: seq![0x1bu8, 0x5bu8] + params,
        }),
    decreases params.len(),
{
    let start = KeyScan { keys: Seq::<ScopeKey>::empty(), held: Seq::<u8>::empty() };
    let open = seq![0x1bu8, 0x5bu8];
    let all = open + params;
    if params.len() == 0 {
        assert(all =~= open);
        assert(open.drop_last() =~= seq![0x1bu8]);
        assert(seq![0x1bu8].drop_last() =~= Seq::empty());
        reveal_with_fuel(key_scan, 3);
        assert(key_scan(start, open) =~= KeyScan { keys: start.keys, held: open });
    } else {
        lemma_parameters_are_held(params.drop_last());
        assert(all.drop_last() =~= open + params.drop_last());
        assert((open + params.drop_last()).push(params.last()) =~= all);
        assert(params[params.len() - 1] == params.last());
    }
}

/// `ESC` in front of a character that opens no sequence is Escape and then
/// that character; `ESC ESC` is Escape twice.
pub proof fn escape_and_a_character_are_two_keys(b: u8)
    requires
        b != 0x5b,
    ensures
        read_keys(Seq::empty(), seq![0x1bu8, b]).held.len() == 0,
        read_keys(Seq::empty(), seq![0x1bu8, b]).keys == seq![
            ScopeKey::Escape,
            if b == 0x1b {
                ScopeKey::Escape
            } else if b == 0x0d || b == 0x0a {
                ScopeKey::Enter
            } else if b == 0x7f || b == 0x08 {
                ScopeKey::Backspace
            } else {
                ScopeKey::Char(b)
            },
        ],
{
    let two = seq![0x1bu8, b];
    assert(two.drop_last() =~= seq![0x1bu8]);
    assert(seq![0x1bu8].drop_last() =~= Seq::empty());
    reveal_with_fuel(key_scan, 3);
    assert(read_keys(Seq::empty(), two).keys =~= seq![
        ScopeKey::Escape,
        read_keys(Seq::empty(), two).keys[1],
    ]);
}

} // verus!
