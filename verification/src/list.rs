//! Filterable lists with a cursor, shared by the scope tiles.
//!
//! A list shows the rows that its filter lets through; the cursor is an
//! index into those. The filter is matched without regard to case against a
//! few texts of each row.

use vstd::prelude::*;

use crate::keys::ScopeKey;
use crate::text::{any_contains, lowercase, occurs_in_any, texts, to_lowercase};

verus! {

/// Identity of a row across refreshes.
pub ghost enum RowKey {
    Port { protocol: Seq<char>, local_port: u16, pid: u32 },
    Process { pid: u32, start_time_unix_secs: i64 },
    Host { alias: Seq<char> },
}

/// A row that a filter can be matched against.
pub trait FilterRow: Sized {
    /// The texts that the filter is looked for in.
    spec fn haystacks(&self) -> Seq<Seq<char>>;

    /// The texts that the filter is looked for in.
    fn filter_texts(&self) -> (r: Vec<String>)
        ensures
            texts(r@) == self.haystacks(),
    ;
}

/// A row that can be found again after a refresh.
pub trait KeyedRow: FilterRow {
    type Key;

    /// The row's identity.
    spec fn row_key(&self) -> RowKey;

    /// What identity a key stands for.
    spec fn key_view(key: Self::Key) -> RowKey;

    /// The row's identity.
    fn key_of(&self) -> (key: Self::Key)
        ensures
            Self::key_view(key) == self.row_key(),
    ;

    /// Whether the row has the given identity.
    fn has_key(&self, key: &Self::Key) -> (r: bool)
        ensures
            r == (self.row_key() == Self::key_view(*key)),
    ;
}

/// The filter lets the row through: it is empty, or it occurs in one of the
/// row's texts.
pub open spec fn row_matches<T: FilterRow>(filter: Seq<char>, row: T) -> bool {
    filter.len() == 0 || occurs_in_any(row.haystacks(), lowercase(filter))
}

/// The rows that the filter lets through, in order.
pub open spec fn visible<T: FilterRow>(rows: Seq<T>, filter: Seq<char>) -> Seq<T> {
    rows.filter(|row: T| row_matches(filter, row))
}

/// A cursor and the filter it moves under.
#[verifier::ext_equal]
pub ghost struct Cursor {
    pub selection: int,
    pub filter: Seq<char>,
    pub filter_active: bool,
}

/// A fresh cursor: first row, no filter.
pub open spec fn fresh_cursor() -> Cursor {
    Cursor { selection: 0, filter: Seq::empty(), filter_active: false }
}

/// `selection` moved into a list of `n` rows.
pub open spec fn clamp(selection: int, n: nat) -> int {
    if n == 0 {
        0
    } else if selection >= n {
        n - 1
    } else {
        selection
    }
}

/// The cursor is on a row, or at the top of an empty list.
pub open spec fn in_range(selection: int, n: nat) -> bool {
    0 <= selection && (selection < n || selection == 0)
}

/// Where the first row with the given key is.
pub open spec fn first_with_key<T: KeyedRow>(shown: Seq<T>, key: RowKey) -> Option<int>
    decreases shown.len(),
{
    if shown.len() == 0 {
        None
    } else {
        match first_with_key(shown.drop_last(), key) {
            Some(i) => Some(i),
            None => if shown.last().row_key() == key {
                Some(shown.len() - 1)
            } else {
                None
            },
        }
    }
}

/// The key of the selected row.
pub open spec fn selected_key<T: KeyedRow>(shown: Seq<T>, selection: int) -> Option<RowKey> {
    if 0 <= selection < shown.len() {
        Some(shown[selection].row_key())
    } else {
        None
    }
}

/// Where the cursor goes when the shown rows have changed: to the row with
/// the key it was on, or else to the nearest row that still exists.
pub open spec fn reanchor<T: KeyedRow>(
    shown: Seq<T>,
    old_key: Option<RowKey>,
    selection: int,
) -> int {
    match old_key {
        Some(key) => match first_with_key(shown, key) {
            Some(i) => i,
            None => clamp(selection, shown.len()),
        },
        None => clamp(selection, shown.len()),
    }
}

/// The cursor of a list that showed `before` and now shows `after` is on a
/// row, and on the row it was on if that one is still shown.
pub open spec fn follows_row<T: KeyedRow>(
    before: Seq<T>,
    selection: int,
    after: Seq<T>,
    moved: int,
) -> bool {
    &&& in_range(moved, after.len())
    &&& match selected_key(before, selection) {
        Some(key) => (exists|j: int| 0 <= j < after.len() && (#[trigger] after[j]).row_key() == key)
            ==> selected_key(after, moved) == Some(key),
        None => true,
    }
}

/// The key a plain letter stands for outside the filter.
pub open spec fn navigation(key: ScopeKey) -> ScopeKey {
    match key {
        ScopeKey::Char(0x6a) => ScopeKey::Down,
        ScopeKey::Char(0x6b) => ScopeKey::Up,
        ScopeKey::Char(0x67) => ScopeKey::Top,
        ScopeKey::Char(0x47) => ScopeKey::Bottom,
        ScopeKey::Char(0x2f) => ScopeKey::FilterStart,
        other => other,
    }
}

/// What a navigation key does in a list that shows `n` rows; `None` if the
/// key does not navigate.
pub open spec fn navigate(cur: Cursor, n: nat, key: ScopeKey) -> Option<Cursor> {
    match navigation(key) {
        ScopeKey::Up => Some(
            Cursor { selection: if cur.selection == 0 { 0 } else { cur.selection - 1 }, ..cur },
        ),
        ScopeKey::Down => Some(
            Cursor {
                selection: if cur.selection + 1 < n { cur.selection + 1 } else { cur.selection },
                ..cur
            },
        ),
        ScopeKey::Top | ScopeKey::Home => Some(Cursor { selection: 0, ..cur }),
        ScopeKey::Bottom | ScopeKey::End => Some(
            Cursor { selection: if n == 0 { 0 } else { n - 1 }, ..cur },
        ),
        ScopeKey::FilterStart => Some(Cursor { filter_active: true, ..cur }),
        _ => None,
    }
}

/// What a key does to an open filter.
pub ghost enum FilterEdit {
    /// Nothing.
    Ignored,
    /// Typing ends; the filter stays applied.
    Accepted,
    /// The filter changed to this, and typing goes on or not.
    Changed { filter: Seq<char>, filter_active: bool },
}

/// `b` can be typed into a filter.
pub open spec fn is_printable(b: u8) -> bool {
    0x20 <= b <= 0x7e
}

/// What a key does to an open filter: Escape clears and closes it, Enter
/// closes it, Backspace and printable characters edit it.
pub open spec fn edit_filter(filter: Seq<char>, key: ScopeKey) -> FilterEdit {
    match key {
        ScopeKey::Escape => FilterEdit::Changed { filter: Seq::empty(), filter_active: false },
        ScopeKey::Enter => FilterEdit::Accepted,
        ScopeKey::Backspace => if filter.len() > 0 {
            FilterEdit::Changed { filter: filter.drop_last(), filter_active: true }
        } else {
            FilterEdit::Ignored
        },
        ScopeKey::Char(b) => if is_printable(b) {
            FilterEdit::Changed { filter: filter.push(b as char), filter_active: true }
        } else {
            FilterEdit::Ignored
        },
        _ => FilterEdit::Ignored,
    }
}

/// The cursor after a key, and whether the list must be redrawn.
#[verifier::ext_equal]
pub ghost struct ListStep {
    pub cursor: Cursor,
    pub redraw: bool,
}

/// What a key does to a list of keyed rows. After an edit of the filter the
/// cursor stays on the row that is now at its index, by that row's key.
pub open spec fn list_step<T: KeyedRow>(rows: Seq<T>, cur: Cursor, key: ScopeKey) -> ListStep {
    if cur.filter_active {
        match edit_filter(cur.filter, key) {
            FilterEdit::Ignored => ListStep { cursor: cur, redraw: false },
            FilterEdit::Accepted => ListStep {
                cursor: Cursor { filter_active: false, ..cur },
                redraw: true,
            },
            FilterEdit::Changed { filter, filter_active } => {
                let shown = visible(rows, filter);
                ListStep {
                    cursor: Cursor {
                        selection: reanchor(
                            shown,
                            selected_key(shown, cur.selection),
                            cur.selection,
                        ),
                        filter,
                        filter_active,
                    },
                    redraw: true,
                }
            },
        }
    } else {
        match navigate(cur, visible(rows, cur.filter).len(), key) {
            Some(cursor) => ListStep { cursor, redraw: true },
            None => ListStep { cursor: cur, redraw: false },
        }
    }
}

/// Filtering one row more.
pub proof fn lemma_visible_step<T: FilterRow>(rows: Seq<T>, filter: Seq<char>, i: int)
    requires
        0 <= i < rows.len(),
    ensures
        visible(rows.take(i + 1), filter) == if row_matches(filter, rows[i]) {
            visible(rows.take(i), filter).push(rows[i])
        } else {
            visible(rows.take(i), filter)
        },
{
    reveal(Seq::filter);
    assert(rows.take(i + 1).drop_last() =~= rows.take(i));
    assert(rows.take(i + 1).last() == rows[i]);
}

/// The rows shown from a prefix of the list are a prefix of the rows shown.
pub proof fn lemma_visible_prefix<T: FilterRow>(rows: Seq<T>, filter: Seq<char>, i: int)
    requires
        0 <= i <= rows.len(),
    ensures
        visible(rows.take(i), filter).len() <= visible(rows, filter).len(),
        visible(rows.take(i), filter) == visible(rows, filter).take(
            visible(rows.take(i), filter).len() as int,
        ),
        visible(rows, filter).len() <= rows.len(),
    decreases rows.len() - i,
{
    if i == rows.len() {
        assert(rows.take(i) =~= rows);
        lemma_visible_len(rows, filter);
        assert(visible(rows, filter).take(visible(rows, filter).len() as int) =~= visible(
            rows,
            filter,
        ));
    } else {
        lemma_visible_prefix(rows, filter, i + 1);
        lemma_visible_step(rows, filter, i);
        let longer = visible(rows.take(i + 1), filter);
        let shorter = visible(rows.take(i), filter);
        assert(shorter =~= visible(rows, filter).take(shorter.len() as int)) by {
            assert(shorter =~= longer.take(shorter.len() as int));
        }
    }
}

proof fn lemma_visible_len<T: FilterRow>(rows: Seq<T>, filter: Seq<char>)
    ensures
        visible(rows, filter).len() <= rows.len(),
    decreases rows.len(),
{
    reveal(Seq::filter);
    if rows.len() > 0 {
        lemma_visible_len(rows.drop_last(), filter);
    }
}

proof fn lemma_visible_none<T: FilterRow>(rows: Seq<T>, filter: Seq<char>)
    requires
        rows.len() == 0,
    ensures
        visible(rows, filter) == Seq::<T>::empty(),
{
    reveal(Seq::filter);
}

/// Whether the filter lets the row through.
pub fn matches_filter<T: FilterRow>(filter: &String, row: &T) -> (r: bool)
    ensures
        r == row_matches(filter@, *row),
{
    if filter.as_str().is_empty() {
        return true;
    }
    let query = to_lowercase(filter.as_str());
    any_contains(&row.filter_texts(), query.as_str())
}

/// How many rows the filter lets through.
pub fn visible_count<T: FilterRow>(rows: &Vec<T>, filter: &String) -> (n: usize)
    ensures
        n == visible(rows@, filter@).len(),
{
    let mut count: usize = 0;
    let mut i: usize = 0;
    let len: usize = rows.len();
    proof {
        lemma_visible_none(rows@.take(0), filter@);
    }
    while i < len
        invariant
            len == rows@.len(),
            0 <= i <= len,
            count <= i,
            count == visible(rows@.take(i as int), filter@).len(),
        decreases len - i,
    {
        proof {
            lemma_visible_step(rows@, filter@, i as int);
        }
        if matches_filter(filter, &rows[i]) {
            count += 1;
        }
        i += 1;
    }
    assert(rows@.take(len as int) =~= rows@);
    count
}

/// Row number `n` of those that the filter lets through.
pub fn nth_visible<'a, T: FilterRow>(rows: &'a Vec<T>, filter: &String, n: usize) -> (r: Option<
    &'a T,
>)
    ensures
        match r {
            Some(row) => n < visible(rows@, filter@).len() && *row == visible(rows@, filter@)[n as int],
            None => n >= visible(rows@, filter@).len(),
        },
{
    let mut count: usize = 0;
    let mut i: usize = 0;
    let len: usize = rows.len();
    proof {
        lemma_visible_none(rows@.take(0), filter@);
    }
    while i < len
        invariant
            len == rows@.len(),
            0 <= i <= len,
            count <= i,
            count <= n,
            count == visible(rows@.take(i as int), filter@).len(),
        decreases len - i,
    {
        proof {
            lemma_visible_step(rows@, filter@, i as int);
            lemma_visible_prefix(rows@, filter@, i as int + 1);
        }
        if matches_filter(filter, &rows[i]) {
            if count == n {
                assert(visible(rows@.take(i as int + 1), filter@)[n as int] == rows@[i as int]);
                return Some(&rows[i]);
            }
            count += 1;
        }
        i += 1;
    }
    assert(rows@.take(len as int) =~= rows@);
    None
}

/// Where the first shown row with the given key is.
pub fn position_of_key<T: KeyedRow>(rows: &Vec<T>, filter: &String, key: &T::Key) -> (r: Option<
    usize,
>)
    ensures
        match r {
            Some(i) => first_with_key(visible(rows@, filter@), T::key_view(*key)) == Some(i as int)
                && i < visible(rows@, filter@).len(),
            None => first_with_key(visible(rows@, filter@), T::key_view(*key)) is None,
        },
{
    let mut count: usize = 0;
    let mut i: usize = 0;
    let len: usize = rows.len();
    let ghost k = T::key_view(*key);
    proof {
        lemma_visible_none(rows@.take(0), filter@);
    }
    while i < len
        invariant
            len == rows@.len(),
            0 <= i <= len,
            count <= i,
            k == T::key_view(*key),
            count == visible(rows@.take(i as int), filter@).len(),
            first_with_key(visible(rows@.take(i as int), filter@), k) is None,
        decreases len - i,
    {
        proof {
            lemma_visible_step(rows@, filter@, i as int);
            lemma_visible_prefix(rows@, filter@, i as int + 1);
        }
        if matches_filter(filter, &rows[i]) {
            let ghost shorter = visible(rows@.take(i as int), filter@);
            let ghost longer = visible(rows@.take(i as int + 1), filter@);
            assert(longer.drop_last() =~= shorter);
            if rows[i].has_key(key) {
                proof {
                    assert(first_with_key(longer, k) == Some(count as int));
                    lemma_first_with_key_prefix(visible(rows@, filter@), k, longer.len() as int);
                }
                return Some(count);
            }
            count += 1;
        }
        i += 1;
    }
    assert(rows@.take(len as int) =~= rows@);
    None
}

proof fn lemma_first_with_key_prefix<T: KeyedRow>(shown: Seq<T>, key: RowKey, i: int)
    requires
        0 <= i <= shown.len(),
        first_with_key(shown.take(i), key) is Some,
    ensures
        first_with_key(shown, key) == first_with_key(shown.take(i), key),
    decreases shown.len() - i,
{
    if i == shown.len() {
        assert(shown.take(i) =~= shown);
    } else {
        assert(shown.take(i + 1).drop_last() =~= shown.take(i));
        lemma_first_with_key_prefix(shown, key, i + 1);
    }
}

/// `selection` moved into a list of `n` rows.
pub fn clamp_selection(selection: usize, n: usize) -> (r: usize)
    ensures
        r == clamp(selection as int, n as nat),
{
    if n == 0 {
        0
    } else if selection >= n {
        n - 1
    } else {
        selection
    }
}

/// Where the cursor goes when the shown rows have changed.
pub fn reanchor_selection<T: KeyedRow>(
    rows: &Vec<T>,
    filter: &String,
    old_key: Option<T::Key>,
    selection: usize,
) -> (r: usize)
    ensures
        r == reanchor(
            visible(rows@, filter@),
            match old_key {
                Some(key) => Some(T::key_view(key)),
                None => None,
            },
            selection as int,
        ),
{
    match old_key {
        Some(key) => {
            match position_of_key(rows, filter, &key) {
                Some(i) => {
                    return i;
                },
                None => {},
            }
        },
        None => {},
    }
    clamp_selection(selection, visible_count(rows, filter))
}

/// What a navigation key does in a list that shows `n` rows. Returns whether
/// the key navigates.
pub fn navigate_key(selection: &mut usize, filter_active: &mut bool, n: usize, key: ScopeKey) -> (r:
    bool)
    ensures
        forall|filter: Seq<char>|
            #![trigger navigate(Cursor { selection: *old(selection) as int, filter, filter_active: *old(filter_active) }, n as nat, key)]
            match navigate(
                Cursor { selection: *old(selection) as int, filter, filter_active: *old(filter_active) },
                n as nat,
                key,
            ) {
                Some(cursor) => r && cursor == (Cursor {
                    selection: *final(selection) as int,
                    filter,
                    filter_active: *final(filter_active),
                }),
                None => !r && *final(selection) == *old(selection) && *final(filter_active)
                    == *old(filter_active),
            },
{
    match key {
        ScopeKey::Up | ScopeKey::Char(0x6b) => {
            if *selection > 0 {
                *selection = *selection - 1;
            }
            true
        },
        ScopeKey::Down | ScopeKey::Char(0x6a) => {
            if n > 0 && *selection < n - 1 {
                *selection = *selection + 1;
            }
            true
        },
        ScopeKey::Top | ScopeKey::Home | ScopeKey::Char(0x67) => {
            *selection = 0;
            true
        },
        ScopeKey::Bottom | ScopeKey::End | ScopeKey::Char(0x47) => {
            *selection = if n == 0 {
                0
            } else {
                n - 1
            };
            true
        },
        ScopeKey::FilterStart | ScopeKey::Char(0x2f) => {
            *filter_active = true;
            true
        },
        _ => false,
    }
}

/// How a key changed an open filter.
#[derive(Debug, Clone, Copy, PartialEq, Eq, Structural)]
pub enum FilterChange {
    Ignored,
    Accepted,
    Changed,
}

/// Applies a key to an open filter.
pub fn edit_filter_key(filter: &mut String, filter_active: &mut bool, key: ScopeKey) -> (r:
    FilterChange)
    requires
        *old(filter_active),
    ensures
        match edit_filter(old(filter)@, key) {
            FilterEdit::Ignored => r == FilterChange::Ignored && final(filter)@ == old(filter)@
                && *final(filter_active),
            FilterEdit::Accepted => r == FilterChange::Accepted && final(filter)@ == old(filter)@
                && !*final(filter_active),
            FilterEdit::Changed { filter: f, filter_active: a } => r == FilterChange::Changed
                && final(filter)@ == f && *final(filter_active) == a,
        },
{
    match key {
        ScopeKey::Escape => {
            filter.clear();
            *filter_active = false;
            FilterChange::Changed
        },
        ScopeKey::Enter => {
            *filter_active = false;
            FilterChange::Accepted
        },
        ScopeKey::Backspace => {
            match filter.pop() {
                Some(_) => FilterChange::Changed,
                None => FilterChange::Ignored,
            }
        },
        ScopeKey::Char(b) => {
            if 0x20 <= b && b <= 0x7e {
                filter.push(b as char);
                FilterChange::Changed
            } else {
                FilterChange::Ignored
            }
        },
        _ => FilterChange::Ignored,
    }
}

/// Applies a key to a list of keyed rows. Returns whether it must be redrawn.
pub fn list_key<T: KeyedRow>(
    rows: &Vec<T>,
    selection: &mut usize,
    filter: &mut String,
    filter_active: &mut bool,
    key: ScopeKey,
) -> (redraw: bool)
    ensures
        ({
            let step = list_step(
                rows@,
                Cursor {
                    selection: *old(selection) as int,
                    filter: old(filter)@,
                    filter_active: *old(filter_active),
                },
                key,
            );
            &&& step.redraw == redraw
            &&& step.cursor == (Cursor {
                selection: *final(selection) as int,
                filter: final(filter)@,
                filter_active: *final(filter_active),
            })
        }),
{
    if *filter_active {
        match edit_filter_key(filter, filter_active, key) {
            FilterChange::Ignored => false,
            FilterChange::Accepted => true,
            FilterChange::Changed => {
                let old_key: Option<T::Key> = match nth_visible(rows, filter, *selection) {
                    Some(row) => Some(row.key_of()),
                    None => None,
                };
                *selection = reanchor_selection(rows, filter, old_key, *selection);
                true
            },
        }
    } else {
        let n: usize = visible_count(rows, filter);
        let ghost was = Cursor {
            selection: *selection as int,
            filter: filter@,
            filter_active: *filter_active,
        };
        let ghost outcome = navigate(was, n as nat, key);
        navigate_key(selection, filter_active, n, key)
    }
}

/// An empty filter shows every row.
pub proof fn empty_filter_shows_all<T: FilterRow>(rows: Seq<T>)
    ensures
        visible(rows, Seq::empty()) == rows,
    decreases rows.len(),
{
    reveal(Seq::filter);
    if rows.len() > 0 {
        empty_filter_shows_all(rows.drop_last());
        assert(visible(rows, Seq::empty()) =~= rows);
    } else {
        assert(visible(rows, Seq::empty()) =~= rows);
    }
}

/// The shown rows are rows of the list, each of which the filter lets
/// through.
pub proof fn shown_rows_match<T: FilterRow>(rows: Seq<T>, filter: Seq<char>)
    ensures
        forall|i: int|
            0 <= i < visible(rows, filter).len() ==> {
                &&& row_matches(filter, #[trigger] visible(rows, filter)[i])
                &&& rows.contains(visible(rows, filter)[i])
            },
{
    let pred = |row: T| row_matches(filter, row);
    let shown = visible(rows, filter);
    assert forall|i: int| 0 <= i < shown.len() implies {
        &&& row_matches(filter, #[trigger] shown[i])
        &&& rows.contains(shown[i])
    } by {
        rows.lemma_filter_pred(pred, i);
        rows.lemma_filter_contains_rev(pred, shown[i]);
    }
}

/// The first row with a key has that key, and none before it has.
pub proof fn first_with_key_is_first<T: KeyedRow>(shown: Seq<T>, key: RowKey)
    ensures
        match first_with_key(shown, key) {
            Some(i) => {
                &&& 0 <= i < shown.len()
                &&& shown[i].row_key() == key
                &&& forall|j: int| 0 <= j < i ==> (#[trigger] shown[j]).row_key() != key
            },
            None => forall|j: int| 0 <= j < shown.len() ==> (#[trigger] shown[j]).row_key() != key,
        },
    decreases shown.len(),
{
    if shown.len() > 0 {
        first_with_key_is_first(shown.drop_last(), key);
        assert forall|j: int| 0 <= j < shown.len() - 1 implies (#[trigger] shown[j])
            == shown.drop_last()[j] by {}
    }
}

/// Reanchoring puts the cursor on a shown row, or at the top of an empty
/// list; and if the key it was on is still shown, on a row with that key.
pub proof fn reanchor_follows_the_row<T: KeyedRow>(
    shown: Seq<T>,
    old_key: Option<RowKey>,
    selection: int,
)
    requires
        selection >= 0,
    ensures
        in_range(reanchor(shown, old_key, selection), shown.len()),
        old_key is Some && (exists|j: int|
            0 <= j < shown.len() && (#[trigger] shown[j]).row_key() == old_key->0)
            ==> shown[reanchor(shown, old_key, selection)].row_key() == old_key->0,
{
    if let Some(key) = old_key {
        first_with_key_is_first(shown, key);
    }
}

/// No key takes the cursor off the list.
pub proof fn list_keys_keep_the_cursor_in_range<T: KeyedRow>(
    rows: Seq<T>,
    cur: Cursor,
    key: ScopeKey,
)
    requires
        in_range(cur.selection, visible(rows, cur.filter).len()),
    ensures
        in_range(
            list_step(rows, cur, key).cursor.selection,
            visible(rows, list_step(rows, cur, key).cursor.filter).len(),
        ),
{
    if cur.filter_active {
        if let FilterEdit::Changed { filter, filter_active } = edit_filter(cur.filter, key) {
            let shown = visible(rows, filter);
            reanchor_follows_the_row(shown, selected_key(shown, cur.selection), cur.selection);
        }
    }
}

/// A key that does not ask for a redraw changes nothing.
pub proof fn no_redraw_means_no_change<T: KeyedRow>(rows: Seq<T>, cur: Cursor, key: ScopeKey)
    ensures
        !list_step(rows, cur, key).redraw ==> list_step(rows, cur, key).cursor == cur,
{
}

} // verus!
