//! Texts: how they are cut up and put together.

use vstd::prelude::*;

use crate::logs::{lemma_one_piece, lemma_split_concat};
use crate::promises::pointer::{lemma_spelled, spells};
use crate::text::{
    after_last, all_digits, begins_with, digits_value, finishes_with, first_word, is_white, joined,
    lemma_split_has_pieces, split_on, text_lines, trimmed, trimmed_back, trimmed_front,
    unsigned_value, up_to_white, without_cr, without_leading,
};

verus! {

/// Cutting at a separator: what stands before the first one is the first
/// piece, and the rest is cut in the same way; without one there is one piece.
pub proof fn pieces_stand_between_separators<T>(a: Seq<T>, b: Seq<T>, sep: T)
    requires
        !a.contains(sep),
    ensures
        split_on(a, sep) == seq![a],
        split_on(a + seq![sep] + b, sep) == seq![a] + split_on(b, sep),
{
    lemma_one_piece(a, sep);
    let front = a + seq![sep];
    assert(front.drop_last() =~= a);
    assert(split_on(front, sep) =~= seq![a, Seq::empty()]);
    lemma_split_concat(front, b, sep);
    assert(Seq::<T>::empty() + b =~= b);
    assert(split_on(front, sep).drop_last() =~= seq![a]);
}

/// The lines of a text: what stands before the first line feed, without a
/// carriage return at its end, is the first; what follows the last is a line
/// unless it is empty.
pub proof fn lines_end_with_line_feeds(a: Seq<char>, b: Seq<char>)
    requires
        !a.contains('\n'),
    ensures
        a.len() == 0 ==> text_lines(a).len() == 0,
        a.len() > 0 ==> text_lines(a) == seq![a],
        a.len() == 0 || a.last() != '\r' ==> text_lines(a + seq!['\n'] + b) == seq![a]
            + text_lines(b),
        a.len() == 0 || a.last() != '\r' ==> text_lines(a + seq!['\r', '\n'] + b) == seq![a]
            + text_lines(b),
{
    pieces_stand_between_separators(a, b, '\n');
    lemma_split_has_pieces(b, '\n');
    let strip = |p: Seq<char>| without_cr(p);
    let none = Seq::<Seq<char>>::empty();
    assert(seq![a].drop_last() =~= none);
    assert(none.map_values(strip) =~= none);
    assert(none.push(a) =~= seq![a]);
    if a.len() == 0 || a.last() != '\r' {
        lemma_first_line(a, a, b);
        let long = a.push('\r');
        assert(a + seq!['\r', '\n'] + b =~= long + seq!['\n'] + b);
        assert forall|i: int| 0 <= i < long.len() implies long[i] != '\n' by {
            if i < a.len() {
                assert(a.contains(a[i]));
            }
        }
        assert(long.drop_last() =~= a);
        lemma_first_line(long, a, b);
    }
}

proof fn lemma_first_line(raw: Seq<char>, a: Seq<char>, b: Seq<char>)
    requires
        !raw.contains('\n'),
        without_cr(raw) == a,
    ensures
        text_lines(raw + seq!['\n'] + b) == seq![a] + text_lines(b),
{
    pieces_stand_between_separators(raw, b, '\n');
    lemma_split_has_pieces(b, '\n');
    let strip = |p: Seq<char>| without_cr(p);
    let pieces = split_on(b, '\n');
    let whole = seq![raw] + pieces;
    assert(whole.drop_last() =~= seq![raw] + pieces.drop_last());
    assert(whole.drop_last().map_values(strip) =~= seq![a] + pieces.drop_last().map_values(strip));
    assert(whole.last() == pieces.last());
    assert(text_lines(raw + seq!['\n'] + b) =~= seq![a] + text_lines(b));
}

/// Trimming takes the white space in front of a text and behind it, and
/// nothing else.
pub proof fn trimming_takes_the_white_space_around(
    front: Seq<char>,
    core: Seq<char>,
    back: Seq<char>,
)
    requires
        forall|i: int| 0 <= i < front.len() ==> is_white(#[trigger] front[i]),
        forall|i: int| 0 <= i < back.len() ==> is_white(#[trigger] back[i]),
        core.len() > 0,
        !is_white(core[0]),
        !is_white(core.last()),
    ensures
        trimmed(front + core + back) == core,
        trimmed(front).len() == 0,
{
    lemma_front_goes(front, core + back);
    assert(front + core + back =~= front + (core + back));
    assert((core + back)[0] == core[0]);
    lemma_back_goes(core, back);
    lemma_front_goes(front, Seq::empty());
    assert(front + Seq::<char>::empty() =~= front);
}

proof fn lemma_front_goes(front: Seq<char>, rest: Seq<char>)
    requires
        forall|i: int| 0 <= i < front.len() ==> is_white(#[trigger] front[i]),
        rest.len() == 0 || !is_white(rest[0]),
    ensures
        trimmed_front(front + rest) == rest,
    decreases front.len(),
{
    let s = front + rest;
    if front.len() == 0 {
        assert(s =~= rest);
    } else {
        assert(s[0] == front[0]);
        assert(s.drop_first() =~= front.drop_first() + rest);
        lemma_front_goes(front.drop_first(), rest);
    }
}

proof fn lemma_back_goes(rest: Seq<char>, back: Seq<char>)
    requires
        forall|i: int| 0 <= i < back.len() ==> is_white(#[trigger] back[i]),
        rest.len() == 0 || !is_white(rest.last()),
    ensures
        trimmed_back(rest + back) == rest,
    decreases back.len(),
{
    let s = rest + back;
    if back.len() == 0 {
        assert(s =~= rest);
    } else {
        assert(s.last() == back[back.len() - 1]);
        assert(s.drop_last() =~= rest + back.drop_last());
        lemma_back_goes(rest, back.drop_last());
    }
}

/// White space: tab, line feed, vertical tab, form feed, carriage return,
/// space and the blanks of Unicode; no printing character of ASCII.
pub proof fn blanks_are_white(c: char)
    ensures
        is_white(' ') && is_white('\t') && is_white('\n') && is_white('\r'),
        is_white('\u{b}') && is_white('\u{c}'),
        is_white('\u{85}') && is_white('\u{a0}') && is_white('\u{1680}') && is_white('\u{2028}'),
        is_white('\u{2029}') && is_white('\u{202f}') && is_white('\u{205f}') && is_white('\u{3000}'),
        '\u{2000}' <= c <= '\u{200a}' ==> is_white(c),
        '!' <= c <= '~' ==> !is_white(c),
        '\u{0}' <= c <= '\u{8}' ==> !is_white(c),
{
}

/// Joining puts the separator between the texts, and nowhere else.
pub proof fn joining_puts_separators_between(
    parts: Seq<Seq<char>>,
    p: Seq<char>,
    sep: Seq<char>,
)
    ensures
        joined(Seq::empty(), sep).len() == 0,
        joined(seq![p], sep) == p,
        parts.len() > 0 ==> joined(parts.push(p), sep) == joined(parts, sep) + sep + p,
{
    assert(parts.push(p).drop_last() =~= parts);
}

/// The first word of a text is what stands between the white space in front of
/// it and the next.
pub proof fn the_first_word_ends_at_white_space(
    front: Seq<char>,
    word: Seq<char>,
    rest: Seq<char>,
)
    requires
        forall|i: int| 0 <= i < front.len() ==> is_white(#[trigger] front[i]),
        forall|i: int| 0 <= i < word.len() ==> !is_white(#[trigger] word[i]),
        word.len() > 0,
        rest.len() == 0 || is_white(rest[0]),
    ensures
        first_word(front + word + rest) == word,
{
    assert(front + word + rest =~= front + (word + rest));
    assert((word + rest)[0] == word[0]);
    lemma_front_goes(front, word + rest);
    lemma_word_stops(word, rest);
}

proof fn lemma_word_stops(word: Seq<char>, rest: Seq<char>)
    requires
        forall|i: int| 0 <= i < word.len() ==> !is_white(#[trigger] word[i]),
        rest.len() == 0 || is_white(rest[0]),
    ensures
        up_to_white(word + rest) == word,
    decreases word.len(),
{
    let s = word + rest;
    if word.len() == 0 {
        assert(s =~= rest);
        assert(word =~= Seq::empty());
    } else {
        assert(s[0] == word[0]);
        assert(s.drop_first() =~= word.drop_first() + rest);
        lemma_word_stops(word.drop_first(), rest);
        assert(seq![word[0]] + word.drop_first() =~= word);
    }
}

/// What stands behind the last of a character.
pub proof fn the_end_stands_behind_the_last(a: Seq<char>, b: Seq<char>, c: char)
    requires
        !b.contains(c),
    ensures
        after_last(a + seq![c] + b, c) == b,
        after_last(b, c) == b,
    decreases b.len(),
{
    let s = a + seq![c] + b;
    if b.len() > 0 {
        let front = b.drop_last();
        assert(s.drop_last() =~= a + seq![c] + front);
        assert(s.last() == b[b.len() - 1]);
        assert(b.contains(b[b.len() - 1]));
        assert forall|i: int| 0 <= i < front.len() implies front[i] != c by {
            assert(b.contains(b[i]));
        }
        the_end_stands_behind_the_last(a, front, c);
        assert(front.push(b.last()) =~= b);
    } else {
        assert(s.last() == c);
        assert(b =~= Seq::empty());
    }
}

/// Beginnings and ends.
pub proof fn beginnings_and_ends(a: Seq<char>, b: Seq<char>, s: Seq<char>)
    ensures
        begins_with(a + b, a),
        finishes_with(a + b, b),
        begins_with(s, a) ==> s.len() >= a.len() && s == a + s.skip(a.len() as int),
        finishes_with(s, b) ==> s.len() >= b.len() && s == s.take(s.len() - b.len()) + b,
{
    assert((a + b).take(a.len() as int) =~= a);
    assert((a + b).skip((a + b).len() - b.len()) =~= b);
    if begins_with(s, a) {
        assert(s =~= a + s.skip(a.len() as int));
    }
    if finishes_with(s, b) {
        assert(s =~= s.take(s.len() - b.len()) + b);
    }
}

/// Leading characters of one kind go, all of them, and no other.
pub proof fn leading_characters_go(lead: Seq<char>, rest: Seq<char>, c: char)
    requires
        forall|i: int| 0 <= i < lead.len() ==> (#[trigger] lead[i]) == c,
        rest.len() == 0 || rest[0] != c,
    ensures
        without_leading(lead + rest, c) == rest,
    decreases lead.len(),
{
    let s = lead + rest;
    if lead.len() == 0 {
        assert(s =~= rest);
    } else {
        assert(s[0] == lead[0]);
        assert(s.drop_first() =~= lead.drop_first() + rest);
        leading_characters_go(lead.drop_first(), rest, c);
    }
}

/// A number in digits, perhaps behind a plus sign, is read as that number if
/// it is not too large; anything else is no number.
pub proof fn numbers_are_read_back(bytes: Seq<u8>, n: nat, max: nat)
    ensures
        spells(bytes, n) && n <= max ==> unsigned_value(bytes, max) == Some(n) && unsigned_value(
            seq![0x2bu8] + bytes,
            max,
        ) == Some(n) && digits_value(bytes, max) == Some(n),
        spells(bytes, n) && n > max ==> unsigned_value(bytes, max) is None && digits_value(
            bytes,
            max,
        ) is None,
        bytes.len() == 0 ==> unsigned_value(bytes, max) is None,
        (exists|i: int| 1 <= i < bytes.len() && !(0x30 <= #[trigger] bytes[i] <= 0x39))
            ==> unsigned_value(bytes, max) is None,
        bytes.len() > 0 && bytes[0] != 0x2b && !(0x30 <= bytes[0] <= 0x39) ==> unsigned_value(
            bytes,
            max,
        ) is None,
{
    if spells(bytes, n) {
        lemma_spelled(bytes, n);
        assert((seq![0x2bu8] + bytes).drop_first() =~= bytes);
        assert((seq![0x2bu8] + bytes)[0] == 0x2b);
        assert(0x30 <= bytes[0] <= 0x39);
    }
    if exists|i: int| 1 <= i < bytes.len() && !(0x30 <= #[trigger] bytes[i] <= 0x39) {
        let i = choose|i: int| 1 <= i < bytes.len() && !(0x30 <= #[trigger] bytes[i] <= 0x39);
        assert(!all_digits(bytes));
        assert(bytes.drop_first()[i - 1] == bytes[i]);
        assert(!all_digits(bytes.drop_first()));
    }
    if bytes.len() > 0 && bytes[0] != 0x2b && !(0x30 <= bytes[0] <= 0x39) {
        assert(!all_digits(bytes));
    }
}

} // verus!
