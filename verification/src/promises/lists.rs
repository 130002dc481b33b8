//! Lists: which rows a filter shows, and where the cursor is afterwards.

use vstd::prelude::*;

use crate::keys::ScopeKey;
use crate::list::{
    empty_filter_shows_all, first_with_key_is_first, list_step, reanchor, row_matches, selected_key,
    visible, Cursor, FilterRow, KeyedRow,
};
use crate::proto::{DockerContainer, HostEntry, ProbePort, ProbeProcess};
use crate::text::{decimal, lowercase, occurs_at, occurs_in, occurs_in_any, texts};

verus! {

/// A text occurs in another exactly if that one is something, then the text,
/// then something.
pub proof fn occurrence_is_a_middle_part(hay: Seq<char>, needle: Seq<char>)
    ensures
        occurs_in(hay, needle) <==> exists|before: Seq<char>, after: Seq<char>|
            hay == #[trigger] (before + needle + after),
{
    if occurs_in(hay, needle) {
        let i = choose|i: int| #[trigger] occurs_at(hay, needle, i);
        let before = hay.take(i);
        let after = hay.skip(i + needle.len());
        assert(hay =~= before + needle + after) by {
            assert forall|k: int| 0 <= k < hay.len() implies hay[k] == (before + needle
                + after)[k] by {
                if i <= k < i + needle.len() {
                    assert(hay.subrange(i, i + needle.len())[k - i] == needle[k - i]);
                }
            }
        }
    }
    if exists|before: Seq<char>, after: Seq<char>| hay == #[trigger] (before + needle + after) {
        let (before, after) = choose|before: Seq<char>, after: Seq<char>|
            hay == #[trigger] (before + needle + after);
        assert(hay.subrange(before.len() as int, (before.len() + needle.len()) as int) =~= needle);
        assert(occurs_at(hay, needle, before.len() as int));
    }
}

/// A number is written digit by digit: one digit below ten, and else the
/// digits of its tenth part followed by its last digit.
pub proof fn numbers_are_written_in_digits(n: nat, d: nat)
    requires
        d < 10,
    ensures
        decimal(d) == seq![(0x30 + d) as char],
        n > 0 ==> decimal(10 * n + d) == decimal(n).push((0x30 + d) as char),
{
    assert((10 * n + d) / 10 == n && (10 * n + d) % 10 == d);
}

/// What a list shows grows with it: a row added at the end is shown at the end
/// exactly if the filter lets it through, and an empty list shows nothing.
pub proof fn lists_show_what_matches<T: FilterRow>(rows: Seq<T>, row: T, filter: Seq<char>)
    ensures
        visible(Seq::<T>::empty(), filter).len() == 0,
        row_matches(filter, row) ==> visible(rows.push(row), filter) == visible(rows, filter).push(
            row,
        ),
        !row_matches(filter, row) ==> visible(rows.push(row), filter) == visible(rows, filter),
{
    reveal(Seq::filter);
    assert(rows.push(row).drop_last() =~= rows);
}

/// With no filter everything is shown.
pub proof fn no_filter_shows_everything<T: FilterRow>(rows: Seq<T>, row: T)
    ensures
        row_matches(Seq::empty(), row),
        visible(rows, Seq::empty()) == rows,
{
    empty_filter_shows_all(rows);
}

/// A port is found by its process, its address, its number and the container
/// that it belongs to, in whatever case these are typed, and by nothing else.
pub proof fn ports_are_found_by(p: ProbePort, filter: Seq<char>)
    requires
        filter.len() > 0,
    ensures
        row_matches(filter, p) <==> {
            ||| occurs_in(lowercase(p.process_name@), lowercase(filter))
            ||| occurs_in(lowercase(p.local_ip@), lowercase(filter))
            ||| occurs_in(decimal(p.local_port as nat), lowercase(filter))
            ||| p.container_id is Some && occurs_in(
                lowercase(p.container_id->0@),
                lowercase(filter),
            )
        },
{
    let hays = p.haystacks();
    let q = lowercase(filter);
    assert(hays[0] == lowercase(p.process_name@));
    assert(hays[1] == lowercase(p.local_ip@));
    assert(hays[2] == decimal(p.local_port as nat));
    if p.container_id is Some {
        assert(hays.len() == 4 && hays[3] == lowercase(p.container_id->0@));
    } else {
        assert(hays.len() == 3);
    }
    if occurs_in_any(hays, q) {
        let i = choose|i: int| 0 <= i < hays.len() && occurs_in(#[trigger] hays[i], q);
        assert(i == 0 || i == 1 || i == 2 || i == 3);
    }
}

/// A process is found by its command and by its number, and by nothing else.
pub proof fn processes_are_found_by(p: ProbeProcess, filter: Seq<char>)
    requires
        filter.len() > 0,
    ensures
        row_matches(filter, p) <==> {
            ||| occurs_in(lowercase(p.command@), lowercase(filter))
            ||| occurs_in(decimal(p.pid as nat), lowercase(filter))
        },
{
    let hays = p.haystacks();
    let q = lowercase(filter);
    assert(hays[0] == lowercase(p.command@));
    assert(hays[1] == decimal(p.pid as nat));
    assert(hays.len() == 2);
    if occurs_in_any(hays, q) {
        let i = choose|i: int| 0 <= i < hays.len() && occurs_in(#[trigger] hays[i], q);
        assert(i == 0 || i == 1);
    }
}

/// A host is found by its alias, its address and its user, and by nothing
/// else.
pub proof fn hosts_are_found_by(h: HostEntry, filter: Seq<char>)
    requires
        filter.len() > 0,
    ensures
        row_matches(filter, h) <==> {
            ||| occurs_in(lowercase(h.alias@), lowercase(filter))
            ||| occurs_in(lowercase(h.hostname@), lowercase(filter))
            ||| occurs_in(lowercase(h.user@), lowercase(filter))
        },
{
    let hays = h.haystacks();
    let q = lowercase(filter);
    assert(hays[0] == lowercase(h.alias@));
    assert(hays[1] == lowercase(h.hostname@));
    assert(hays[2] == lowercase(h.user@));
    assert(hays.len() == 3);
    if occurs_in_any(hays, q) {
        let i = choose|i: int| 0 <= i < hays.len() && occurs_in(#[trigger] hays[i], q);
        assert(i == 0 || i == 1 || i == 2);
    }
}

/// A container is found by each of its names and by its image, and by nothing
/// else.
pub proof fn containers_are_found_by(c: DockerContainer, filter: Seq<char>)
    requires
        filter.len() > 0,
    ensures
        row_matches(filter, c) <==> {
            ||| occurs_in(lowercase(c.image@), lowercase(filter))
            ||| exists|i: int|
                0 <= i < c.names@.len() && occurs_in(
                    lowercase((#[trigger] c.names@[i])@),
                    lowercase(filter),
                )
        },
{
    let hays = c.haystacks();
    let q = lowercase(filter);
    let n = c.names@.len();
    assert(texts(c.names@).len() == n);
    assert(hays.len() == n + 1);
    assert(hays[n as int] == lowercase(c.image@));
    assert forall|i: int| 0 <= i < n implies hays[i] == lowercase((#[trigger] c.names@[i])@) by {
        assert(texts(c.names@)[i] == c.names@[i]@);
    }
    if occurs_in_any(hays, q) {
        let i = choose|i: int| 0 <= i < hays.len() && occurs_in(#[trigger] hays[i], q);
        if i < n {
            assert(hays[i] == lowercase(c.names@[i]@));
        }
    }
    if exists|i: int|
        0 <= i < n && occurs_in(lowercase((#[trigger] c.names@[i])@), q) {
        let i = choose|i: int| 0 <= i < n && occurs_in(lowercase((#[trigger] c.names@[i])@), q);
        assert(occurs_in(hays[i], q));
    }
}

/// Two ports are the same row over a refresh exactly if protocol, number and
/// process are; two processes if number and start are; two hosts if the alias
/// is.
pub proof fn rows_are_known_again_by(
    a: ProbePort,
    b: ProbePort,
    p: ProbeProcess,
    q: ProbeProcess,
    g: HostEntry,
    h: HostEntry,
)
    ensures
        a.row_key() == b.row_key() <==> a.protocol@ == b.protocol@ && a.local_port == b.local_port
            && a.pid == b.pid,
        p.row_key() == q.row_key() <==> p.pid == q.pid && p.start_time_unix_secs
            == q.start_time_unix_secs,
        g.row_key() == h.row_key() <==> g.alias@ == h.alias@,
{
}

/// Where the cursor goes when the rows change: to the first row that is the
/// one it was on; if that is gone it stays where it is, or goes to the last
/// row where there are too few.
pub proof fn the_cursor_stays_with_its_row<T: KeyedRow>(
    before: Seq<T>,
    after: Seq<T>,
    selection: int,
    j: int,
)
    requires
        0 <= selection,
    ensures
        ({
            let to = reanchor(after, selected_key(before, selection), selection);
            &&& selection < before.len() && 0 <= j < after.len() && after[j].row_key()
                == before[selection].row_key() ==> 0 <= to <= j && after[to].row_key()
                == before[selection].row_key()
            &&& selection >= before.len() || (forall|k: int|
                0 <= k < after.len() ==> (#[trigger] after[k]).row_key()
                    != before[selection].row_key()) ==> {
                &&& selection < after.len() ==> to == selection
                &&& selection >= after.len() && after.len() > 0 ==> to == after.len() - 1
                &&& after.len() == 0 ==> to == 0
            }
        }),
{
    if selection < before.len() {
        first_with_key_is_first(after, before[selection].row_key());
    }
}

/// Editing a filter leaves the cursor where it is as long as enough rows are
/// shown, or on an equal row before it, and else puts it on the last row.
pub proof fn the_cursor_stays_on_the_filtered_list<T: KeyedRow>(
    rows: Seq<T>,
    cur: Cursor,
    key: ScopeKey,
)
    requires
        cur.filter_active,
        0 <= cur.selection,
        key is Char || key == ScopeKey::Backspace || key == ScopeKey::Escape,
    ensures
        ({
            let to = list_step(rows, cur, key).cursor;
            let shown = visible(rows, to.filter);
            &&& to.filter != cur.filter && cur.selection < shown.len() ==> to.selection
                <= cur.selection && shown[to.selection].row_key() == shown[cur.selection].row_key()
            &&& to.filter != cur.filter && cur.selection >= shown.len() && shown.len() > 0
                ==> to.selection == shown.len() - 1
            &&& to.filter != cur.filter && shown.len() == 0 ==> to.selection == 0
            &&& to.selection >= 0
        }),
{
    let to = list_step(rows, cur, key).cursor;
    let shown = visible(rows, to.filter);
    if to.filter != cur.filter && cur.selection < shown.len() {
        first_with_key_is_first(shown, shown[cur.selection].row_key());
    }
    if cur.selection < shown.len() {
        first_with_key_is_first(shown, shown[cur.selection].row_key());
    }
}

} // verus!
