//! Text and number helpers shared by the other modules.

use vstd::prelude::*;
use vstd::utf8::{decode_utf8, encode_utf8, is_char_boundary};

verus! {

/// `String::push` appends the character.
pub assume_specification[ String::push ](s: &mut String, c: char)
    ensures
        final(s)@ == old(s)@.push(c),
;

/// `String::pop` removes the last character and returns it, or `None` if the
/// string is empty.
pub assume_specification[ String::pop ](s: &mut String) -> (r: Option<char>)
    ensures
        old(s)@.len() == 0 ==> r is None && final(s)@ == old(s)@,
        old(s)@.len() > 0 ==> r == Some(old(s)@.last()) && final(s)@ == old(s)@.drop_last(),
;

/// `String::clear` removes all contents.
pub assume_specification[ String::clear ](s: &mut String)
    ensures
        final(s)@ == Seq::<char>::empty(),
;

/// The lowercase form of a text: what `str::to_lowercase` makes of it.
pub uninterp spec fn lowercase(s: Seq<char>) -> Seq<char>;

/// `str::to_lowercase`. Only that its result depends on the text alone is
/// claimed; the Unicode tables it applies are not spelled out.
#[verifier::external_body]
pub(crate) fn to_lowercase(s: &str) -> (r: String)
    ensures
        r@ == lowercase(s@),
{
    s.to_lowercase()
}

/// The text that `String::from_utf8_lossy` reads from bytes.
pub uninterp spec fn utf8_lossy(bytes: Seq<u8>) -> Seq<char>;

/// `String::from_utf8_lossy`. Its result depends on the bytes alone, and the
/// UTF-8 encoding of a text is read back as that text. How malformed bytes
/// are replaced is not spelled out.
#[verifier::external_body]
pub(crate) fn from_utf8_lossy(bytes: &[u8]) -> (r: String)
    ensures
        r@ == utf8_lossy(bytes@),
        forall|t: Seq<char>| bytes@ == #[trigger] encode_utf8(t) ==> r@ == t,
{
    String::from_utf8_lossy(bytes).into_owned()
}

/// `needle` occurs in `hay` at position `i`.
pub open spec fn occurs_at<T>(hay: Seq<T>, needle: Seq<T>, i: int) -> bool {
    0 <= i <= hay.len() - needle.len() && hay.subrange(i, i + needle.len()) == needle
}

/// `needle` occurs in `hay`.
pub open spec fn occurs_in<T>(hay: Seq<T>, needle: Seq<T>) -> bool {
    exists|i: int| #[trigger] occurs_at(hay, needle, i)
}

/// Whether a text occurs in another.
pub fn contains(hay: &str, needle: &str) -> (r: bool)
    ensures
        r == occurs_in(hay@, needle@),
{
    let n: usize = hay.unicode_len();
    let k: usize = needle.unicode_len();
    if k > n {
        assert forall|j: int| !(#[trigger] occurs_at(hay@, needle@, j)) by {}
        return false;
    }
    let mut i: usize = 0;
    while i < n - k
        invariant
            n == hay@.len(),
            k == needle@.len(),
            0 <= i <= n - k,
            forall|j: int| 0 <= j < i ==> !(#[trigger] occurs_at(hay@, needle@, j)),
        decreases n - k - i,
    {
        if stands_at(hay, needle, i) {
            assert(occurs_at(hay@, needle@, i as int));
            return true;
        }
        i += 1;
    }
    let r: bool = stands_at(hay, needle, n - k);
    assert(r == occurs_at(hay@, needle@, n - k));
    r
}

/// The texts of a list of strings.
pub open spec fn texts(v: Seq<String>) -> Seq<Seq<char>> {
    v.map_values(|s: String| s@)
}

/// `query` occurs in one of the texts.
pub open spec fn occurs_in_any(haystacks: Seq<Seq<char>>, query: Seq<char>) -> bool {
    exists|i: int| 0 <= i < haystacks.len() && occurs_in(#[trigger] haystacks[i], query)
}

/// Whether `query` occurs in one of `haystacks`.
pub fn any_contains(haystacks: &Vec<String>, query: &str) -> (r: bool)
    ensures
        r == occurs_in_any(texts(haystacks@), query@),
{
    let n: usize = haystacks.len();
    let mut i: usize = 0;
    while i < n
        invariant
            n == haystacks@.len(),
            0 <= i <= n,
            forall|j: int| 0 <= j < i ==> !occurs_in(#[trigger] texts(haystacks@)[j], query@),
        decreases n - i,
    {
        if contains(haystacks[i].as_str(), query) {
            assert(occurs_in(texts(haystacks@)[i as int], query@));
            return true;
        }
        i += 1;
    }
    false
}

/// The decimal digits of `n`, without leading zeros.
pub open spec fn decimal(n: nat) -> Seq<char>
    decreases n,
{
    if n < 10 {
        seq![digit(n)]
    } else {
        decimal(n / 10).push(digit(n % 10))
    }
}

/// The character for a digit below ten.
pub open spec fn digit(d: nat) -> char {
    (48 + d) as char
}

/// The character for a digit below ten.
pub fn digit_char(d: u8) -> (c: char)
    requires
        d < 10,
    ensures
        c == digit(d as nat),
{
    (48 + d) as char
}

/// `n` in decimal.
pub fn decimal_string(n: u64) -> (r: String)
    ensures
        r@ == decimal(n as nat),
    decreases n,
{
    if n < 10 {
        let mut s = String::new();
        s.push(digit_char(n as u8));
        assert(s@ =~= decimal(n as nat));
        s
    } else {
        let mut s = decimal_string(n / 10);
        s.push(digit_char((n % 10) as u8));
        s
    }
}

/// `s` without its leading `c`s.
pub open spec fn without_leading(s: Seq<char>, c: char) -> Seq<char>
    decreases s.len(),
{
    if s.len() > 0 && s[0] == c {
        without_leading(s.drop_first(), c)
    } else {
        s
    }
}

/// Strips every leading `c`.
pub fn trim_leading(s: &str, c: char) -> (r: String)
    ensures
        r@ == without_leading(s@, c),
{
    let n: usize = s.unicode_len();
    let mut i: usize = 0;
    assert(s@.skip(0) =~= s@);
    while i < n && s.get_char(i) == c
        invariant
            n == s@.len(),
            0 <= i <= n,
            without_leading(s@, c) == without_leading(s@.skip(i as int), c),
        decreases n - i,
    {
        assert(s@.skip(i as int).drop_first() =~= s@.skip(i as int + 1));
        i += 1;
    }
    assert(s@.skip(i as int) =~= s@.subrange(i as int, n as int));
    s.substring_char(i, n).to_owned()
}

/// The text of the first `n` bytes of `s`, if a character ends there.
pub open spec fn byte_prefix(s: Seq<char>, n: int) -> Option<Seq<char>> {
    let bytes = encode_utf8(s);
    if is_char_boundary(bytes, n) {
        Some(decode_utf8(bytes.take(n)))
    } else {
        None
    }
}

/// The first `n` bytes of `s`, if a character ends there.
pub fn prefix_bytes(s: &str, n: usize) -> (r: Option<&str>)
    ensures
        match r {
            Some(p) => byte_prefix(s@, n as int) == Some(p@),
            None => byte_prefix(s@, n as int) is None,
        },
{
    if s.is_char_boundary(n) {
        let (head, _) = s.split_at(n);
        proof {
            vstd::utf8::encode_utf8_decode_utf8(head@);
            assert(encode_utf8(s@).take(n as int) =~= encode_utf8(head@));
        }
        Some(head)
    } else {
        None
    }
}

/// The pieces of `s` between occurrences of `sep`. There is one more piece
/// than there are separators.
pub open spec fn split_on<T>(s: Seq<T>, sep: T) -> Seq<Seq<T>>
    decreases s.len(),
{
    if s.len() == 0 {
        seq![Seq::empty()]
    } else {
        let pieces = split_on(s.drop_last(), sep);
        if s.last() == sep {
            pieces.push(Seq::empty())
        } else {
            pieces.drop_last().push(pieces.last().push(s.last()))
        }
    }
}

/// The views of a list of byte strings.
pub open spec fn byte_seqs(v: Seq<Vec<u8>>) -> Seq<Seq<u8>> {
    v.map_values(|b: Vec<u8>| b@)
}

/// Splits bytes at every `sep`.
pub fn split_bytes(s: &[u8], sep: u8) -> (pieces: Vec<Vec<u8>>)
    ensures
        byte_seqs(pieces@) == split_on(s@, sep),
{
    let mut done: Vec<Vec<u8>> = Vec::new();
    let mut current: Vec<u8> = Vec::new();
    let n: usize = s.len();
    let mut i: usize = 0;
    assert(s@.take(0) =~= Seq::empty());
    assert(byte_seqs(done@).push(current@) =~= split_on(s@.take(0), sep));
    while i < n
        invariant
            n == s@.len(),
            0 <= i <= n,
            split_on(s@.take(i as int), sep) == byte_seqs(done@).push(current@),
        decreases n - i,
    {
        proof {
            assert(s@.take(i as int + 1).drop_last() =~= s@.take(i as int));
            assert(byte_seqs(done@).push(current@).drop_last() =~= byte_seqs(done@));
        }
        let ghost before = byte_seqs(done@);
        let ghost piece = current@;
        if s[i] == sep {
            done.push(current);
            current = Vec::new();
            assert(byte_seqs(done@) =~= before.push(piece));
            assert(current@ =~= Seq::empty());
        } else {
            current.push(s[i]);
        }
        i += 1;
    }
    assert(s@.take(n as int) =~= s@);
    let ghost before = byte_seqs(done@);
    let ghost piece = current@;
    done.push(current);
    assert(byte_seqs(done@) =~= before.push(piece));
    done
}

/// Every byte is an ASCII digit.
pub open spec fn all_digits(s: Seq<u8>) -> bool {
    forall|i: int| 0 <= i < s.len() ==> 0x30 <= #[trigger] s[i] <= 0x39
}

/// The number that decimal digits spell.
pub open spec fn decimal_value(s: Seq<u8>) -> nat
    decreases s.len(),
{
    if s.len() == 0 {
        0
    } else {
        (decimal_value(s.drop_last()) * 10 + (s.last() - 0x30)) as nat
    }
}

/// The number that `s` spells: digits, with a value of at most `max`.
pub open spec fn digits_value(s: Seq<u8>, max: nat) -> Option<nat> {
    if s.len() > 0 && all_digits(s) && decimal_value(s) <= max {
        Some(decimal_value(s))
    } else {
        None
    }
}

/// The unsigned number that `s` spells: digits, perhaps behind one `+`, with
/// a value of at most `max`.
pub open spec fn unsigned_value(s: Seq<u8>, max: nat) -> Option<nat> {
    if s.len() > 0 && s[0] == 0x2b {
        digits_value(s.drop_first(), max)
    } else {
        digits_value(s, max)
    }
}

proof fn lemma_decimal_value_grows(s: Seq<u8>, k: int)
    requires
        0 <= k <= s.len(),
        all_digits(s),
    ensures
        decimal_value(s.take(k)) <= decimal_value(s),
    decreases s.len() - k,
{
    if k < s.len() {
        lemma_decimal_value_grows(s, k + 1);
        assert(s.take(k + 1).drop_last() =~= s.take(k));
    } else {
        assert(s.take(k) =~= s);
    }
}

/// Reads a number of at most `max` that is written in digits alone.
pub fn parse_digits(s: &[u8], max: u32) -> (r: Option<u32>)
    ensures
        match r {
            Some(v) => digits_value(s@, max as nat) == Some(v as nat),
            None => digits_value(s@, max as nat) is None,
        },
{
    let n: usize = s.len();
    if n == 0 {
        return None;
    }
    assert(s@.take(0) =~= Seq::empty());
    let mut v: u64 = 0;
    let mut i: usize = 0;
    while i < n
        invariant
            n == s@.len(),
            0 <= i <= n,
            v <= max,
            all_digits(s@.take(i as int)),
            v == decimal_value(s@.take(i as int)),
        decreases n - i,
    {
        let b: u8 = s[i];
        if b < 0x30 || b > 0x39 {
            assert(!all_digits(s@));
            return None;
        }
        let ghost longer = s@.take(i + 1);
        proof {
            assert(longer.drop_last() =~= s@.take(i as int));
            assert forall|j: int| 0 <= j < longer.len() implies 0x30 <= #[trigger] longer[j]
                <= 0x39 by {
                if j < i {
                    assert(s@.take(i as int)[j] == s@[j]);
                }
            }
        }
        v = v * 10 + (b - 0x30) as u64;
        if v > max as u64 {
            proof {
                if all_digits(s@) {
                    lemma_decimal_value_grows(s@, i + 1);
                }
            }
            return None;
        }
        i += 1;
    }
    assert(s@.take(n as int) =~= s@);
    Some(v as u32)
}

/// Reads an unsigned decimal number of at most `max`.
pub fn parse_unsigned(s: &[u8], max: u32) -> (r: Option<u32>)
    ensures
        match r {
            Some(v) => unsigned_value(s@, max as nat) == Some(v as nat),
            None => unsigned_value(s@, max as nat) is None,
        },
{
    let n: usize = s.len();
    if n > 0 && s[0] == 0x2b {
        assert(s@.subrange(1, n as int) =~= s@.drop_first());
        parse_digits(vstd::slice::slice_subrange(s, 1, n), max)
    } else {
        parse_digits(s, max)
    }
}

/// Splits a text at every `sep`.
pub fn split_text(s: &str, sep: char) -> (pieces: Vec<String>)
    ensures
        texts(pieces@) == split_on(s@, sep),
{
    let mut done: Vec<String> = Vec::new();
    let mut current = String::new();
    let n: usize = s.unicode_len();
    let mut i: usize = 0;
    assert(s@.take(0) =~= Seq::empty());
    assert(texts(done@).push(current@) =~= split_on(s@.take(0), sep));
    while i < n
        invariant
            n == s@.len(),
            0 <= i <= n,
            split_on(s@.take(i as int), sep) == texts(done@).push(current@),
        decreases n - i,
    {
        proof {
            assert(s@.take(i as int + 1).drop_last() =~= s@.take(i as int));
            assert(texts(done@).push(current@).drop_last() =~= texts(done@));
        }
        let ghost before = texts(done@);
        let ghost piece = current@;
        let c: char = s.get_char(i);
        if c == sep {
            done.push(current);
            current = String::new();
            assert(texts(done@) =~= before.push(piece));
        } else {
            current.push(c);
        }
        i += 1;
    }
    assert(s@.take(n as int) =~= s@);
    let ghost before = texts(done@);
    let ghost piece = current@;
    done.push(current);
    assert(texts(done@) =~= before.push(piece));
    done
}

/// A text without one `\r` at its end.
pub open spec fn without_cr(s: Seq<char>) -> Seq<char> {
    if s.len() > 0 && s.last() == '\r' {
        s.drop_last()
    } else {
        s
    }
}

/// The lines of a text. A line ends with `\n` or `\r\n`; what follows the
/// last line end is a line of its own unless it is empty.
pub open spec fn text_lines(s: Seq<char>) -> Seq<Seq<char>> {
    let pieces = split_on(s, '\n');
    let ended = pieces.drop_last().map_values(|p: Seq<char>| without_cr(p));
    if pieces.last().len() == 0 {
        ended
    } else {
        ended.push(pieces.last())
    }
}

/// The lines of a text.
pub fn lines_of(s: &str) -> (lines: Vec<String>)
    ensures
        texts(lines@) == text_lines(s@),
{
    let mut pieces: Vec<String> = split_text(s, '\n');
    let ghost all = pieces@;
    let ghost spec_pieces = split_on(s@, '\n');
    proof {
        lemma_split_has_pieces(s@, '\n');
        assert(texts(all).len() == all.len());
        assert(texts(all).last() == all.last()@);
    }
    let mut lines: Vec<String> = Vec::new();
    let n: usize = pieces.len();
    let last: String = match pieces.pop() {
        Some(last) => last,
        None => String::new(),
    };
    let mut i: usize = 0;
    while i < n - 1
        invariant
            n == all.len(),
            n >= 1,
            pieces@ == all.drop_last(),
            0 <= i <= n - 1,
            lines@.len() == i,
            forall|j: int| 0 <= j < i ==> (#[trigger] lines@[j])@ == without_cr(all[j]@),
        decreases n - 1 - i,
    {
        let piece = pieces[i].as_str();
        let len: usize = piece.unicode_len();
        if len > 0 && piece.get_char(len - 1) == '\r' {
            let short = piece.substring_char(0, len - 1).to_owned();
            assert(short@ =~= without_cr(all[i as int]@));
            lines.push(short);
        } else {
            lines.push(piece.to_owned());
        }
        i += 1;
    }
    proof {
        let ended = spec_pieces.drop_last().map_values(|p: Seq<char>| without_cr(p));
        assert(texts(lines@) =~= ended) by {
            assert forall|j: int| 0 <= j < ended.len() implies texts(lines@)[j] == ended[j] by {
                assert(lines@[j]@ == without_cr(all[j]@));
                assert(texts(all)[j] == all[j]@);
            }
        }
    }
    if !last.as_str().is_empty() {
        let ghost before = texts(lines@);
        lines.push(last);
        assert(texts(lines@) =~= before.push(last@));
    }
    lines
}

/// Splitting always gives at least one piece.
pub proof fn lemma_split_has_pieces<T>(s: Seq<T>, sep: T)
    ensures
        split_on(s, sep).len() >= 1,
    decreases s.len(),
{
    if s.len() > 0 {
        lemma_split_has_pieces(s.drop_last(), sep);
    }
}

/// The texts with `sep` between them.
pub open spec fn joined(parts: Seq<Seq<char>>, sep: Seq<char>) -> Seq<char>
    decreases parts.len(),
{
    if parts.len() == 0 {
        Seq::empty()
    } else if parts.len() == 1 {
        parts[0]
    } else {
        joined(parts.drop_last(), sep) + sep + parts.last()
    }
}

/// Joins texts with `sep` between them.
pub fn join(parts: &Vec<String>, sep: &str) -> (r: String)
    ensures
        r@ == joined(texts(parts@), sep@),
{
    let mut out = String::new();
    let n: usize = parts.len();
    let mut i: usize = 0;
    let ghost all = texts(parts@);
    assert(all.take(0) =~= Seq::empty());
    while i < n
        invariant
            n == parts@.len(),
            all == texts(parts@),
            0 <= i <= n,
            out@ == joined(all.take(i as int), sep@),
        decreases n - i,
    {
        proof {
            assert(all.take(i as int + 1).drop_last() =~= all.take(i as int));
            assert(all[i as int] == parts@[i as int]@);
        }
        if i > 0 {
            out.append(sep);
        }
        out.append(parts[i].as_str());
        proof {
            if i == 0 {
                assert(out@ =~= all[0]);
            }
        }
        i += 1;
    }
    assert(all.take(n as int) =~= all);
    out
}

/// Unicode white space.
pub open spec fn is_white(c: char) -> bool {
    ||| '\u{9}' <= c <= '\u{d}'
    ||| c == ' '
    ||| c == '\u{85}'
    ||| c == '\u{a0}'
    ||| c == '\u{1680}'
    ||| '\u{2000}' <= c <= '\u{200a}'
    ||| c == '\u{2028}'
    ||| c == '\u{2029}'
    ||| c == '\u{202f}'
    ||| c == '\u{205f}'
    ||| c == '\u{3000}'
}

/// Whether a character is Unicode white space.
pub fn white(c: char) -> (r: bool)
    ensures
        r == is_white(c),
{
    ('\u{9}' <= c && c <= '\u{d}') || c == ' ' || c == '\u{85}' || c == '\u{a0}' || c == '\u{1680}'
        || ('\u{2000}' <= c && c <= '\u{200a}') || c == '\u{2028}' || c == '\u{2029}' || c
        == '\u{202f}' || c == '\u{205f}' || c == '\u{3000}'
}

/// A text without the white space in front of it.
pub open spec fn trimmed_front(s: Seq<char>) -> Seq<char>
    decreases s.len(),
{
    if s.len() > 0 && is_white(s[0]) {
        trimmed_front(s.drop_first())
    } else {
        s
    }
}

/// A text without the white space behind it.
pub open spec fn trimmed_back(s: Seq<char>) -> Seq<char>
    decreases s.len(),
{
    if s.len() > 0 && is_white(s.last()) {
        trimmed_back(s.drop_last())
    } else {
        s
    }
}

/// A text without the white space around it.
pub open spec fn trimmed(s: Seq<char>) -> Seq<char> {
    trimmed_back(trimmed_front(s))
}

/// A text without the white space around it.
pub fn trim(s: &str) -> (r: String)
    ensures
        r@ == trimmed(s@),
{
    let n: usize = s.unicode_len();
    let mut a: usize = 0;
    assert(s@.skip(0) =~= s@);
    while a < n && white(s.get_char(a))
        invariant
            n == s@.len(),
            0 <= a <= n,
            trimmed_front(s@.skip(a as int)) == trimmed_front(s@),
        decreases n - a,
    {
        assert(s@.skip(a as int).drop_first() =~= s@.skip(a + 1));
        a += 1;
    }
    let ghost front = s@.skip(a as int);
    assert(trimmed_front(s@) == front);
    let mut b: usize = n;
    assert(front.take(n - a) =~= front);
    while b > a && white(s.get_char(b - 1))
        invariant
            n == s@.len(),
            0 <= a <= b <= n,
            front == s@.skip(a as int),
            trimmed_back(front.take(b - a)) == trimmed_back(front),
        decreases b,
    {
        assert(front.take(b - a).drop_last() =~= front.take(b - a - 1));
        b -= 1;
    }
    assert(front.take(b - a) =~= s@.subrange(a as int, b as int));
    assert(trimmed_back(front.take(b - a)) == front.take(b - a));
    s.substring_char(a, b).to_owned()
}

/// `s` begins with `prefix`.
pub open spec fn begins_with(s: Seq<char>, prefix: Seq<char>) -> bool {
    s.len() >= prefix.len() && s.take(prefix.len() as int) == prefix
}

/// `s` ends with `suffix`.
pub open spec fn finishes_with(s: Seq<char>, suffix: Seq<char>) -> bool {
    s.len() >= suffix.len() && s.skip(s.len() - suffix.len()) == suffix
}

/// `part` stands in `s` at place `at`.
fn stands_at(s: &str, part: &str, at: usize) -> (r: bool)
    requires
        at + part@.len() <= s@.len(),
    ensures
        r == (s@.subrange(at as int, at + part@.len()) == part@),
{
    let n: usize = part.unicode_len();
    let total: usize = s.unicode_len();
    let ghost window = s@.subrange(at as int, at + part@.len());
    let mut i: usize = 0;
    while i < n
        invariant
            n == part@.len(),
            0 <= i <= n,
            total == s@.len(),
            at + n <= total,
            window == s@.subrange(at as int, at + n),
            forall|j: int| 0 <= j < i ==> window[j] == part@[j],
        decreases n - i,
    {
        if s.get_char(at + i) != part.get_char(i) {
            assert(window[i as int] != part@[i as int]);
            return false;
        }
        i += 1;
    }
    assert(window =~= part@);
    true
}

/// Whether `s` begins with `prefix`.
pub fn starts_with(s: &str, prefix: &str) -> (r: bool)
    ensures
        r == begins_with(s@, prefix@),
{
    let n: usize = s.unicode_len();
    let k: usize = prefix.unicode_len();
    if n < k {
        return false;
    }
    assert(s@.subrange(0, k as int) =~= s@.take(k as int));
    stands_at(s, prefix, 0)
}

/// Whether `s` ends with `suffix`.
pub fn ends_with(s: &str, suffix: &str) -> (r: bool)
    ensures
        r == finishes_with(s@, suffix@),
{
    let n: usize = s.unicode_len();
    let k: usize = suffix.unicode_len();
    if n < k {
        return false;
    }
    assert(s@.subrange(n - k, n as int) =~= s@.skip(n - k));
    stands_at(s, suffix, n - k)
}

/// A text between quotation marks, with escapes: what `{:?}` makes of it.
pub uninterp spec fn quoted(s: Seq<char>) -> Seq<char>;

/// Formatting a `str` with `{:?}`. Its result depends on the text alone;
/// which characters are escaped is not spelled out.
#[verifier::external_body]
pub(crate) fn quote(s: &str) -> (r: String)
    ensures
        r@ == quoted(s@),
{
    format!("{s:?}")
}

/// What stands behind the last `c`; all of it if there is none.
pub open spec fn after_last(s: Seq<char>, c: char) -> Seq<char>
    decreases s.len(),
{
    if s.len() == 0 || s.last() == c {
        Seq::empty()
    } else {
        after_last(s.drop_last(), c).push(s.last())
    }
}

/// What stands behind the last `c`.
pub fn tail_after(s: &str, c: char) -> (r: String)
    ensures
        r@ == after_last(s@, c),
{
    let n: usize = s.unicode_len();
    let mut a: usize = n;
    assert(s@.take(n as int) =~= s@);
    assert(s@.skip(n as int) =~= Seq::empty());
    assert(after_last(s@, c) =~= after_last(s@.take(n as int), c) + s@.skip(n as int));
    while a > 0 && s.get_char(a - 1) != c
        invariant
            n == s@.len(),
            0 <= a <= n,
            after_last(s@, c) == after_last(s@.take(a as int), c) + s@.skip(a as int),
        decreases a,
    {
        proof {
            assert(s@.take(a as int).drop_last() =~= s@.take(a - 1));
            assert(after_last(s@.take(a - 1), c).push(s@[a - 1]) + s@.skip(a as int)
                =~= after_last(s@.take(a - 1), c) + s@.skip(a - 1));
        }
        a -= 1;
    }
    assert(s@.subrange(a as int, n as int) =~= s@.skip(a as int));
    assert(after_last(s@.take(a as int), c) =~= Seq::empty());
    assert(after_last(s@, c) =~= s@.skip(a as int));
    s.substring_char(a, n).to_owned()
}

/// What stands before the first white space.
pub open spec fn up_to_white(s: Seq<char>) -> Seq<char>
    decreases s.len(),
{
    if s.len() == 0 || is_white(s[0]) {
        Seq::empty()
    } else {
        seq![s[0]] + up_to_white(s.drop_first())
    }
}

/// The first run of characters without white space; nothing if there is none.
pub open spec fn first_word(s: Seq<char>) -> Seq<char> {
    up_to_white(trimmed_front(s))
}

/// The first run of characters without white space.
pub fn leading_word(s: &str) -> (r: String)
    ensures
        r@ == first_word(s@),
{
    let n: usize = s.unicode_len();
    let mut a: usize = 0;
    assert(s@.skip(0) =~= s@);
    while a < n && white(s.get_char(a))
        invariant
            n == s@.len(),
            0 <= a <= n,
            trimmed_front(s@.skip(a as int)) == trimmed_front(s@),
        decreases n - a,
    {
        assert(s@.skip(a as int).drop_first() =~= s@.skip(a + 1));
        a += 1;
    }
    let ghost front = s@.skip(a as int);
    assert(trimmed_front(s@) == front);
    let mut b: usize = a;
    assert(s@.subrange(a as int, a as int) =~= Seq::empty());
    assert(up_to_white(front) =~= s@.subrange(a as int, b as int) + up_to_white(
        s@.skip(b as int),
    ));
    while b < n && !white(s.get_char(b))
        invariant
            n == s@.len(),
            0 <= a <= b <= n,
            up_to_white(front) == s@.subrange(a as int, b as int) + up_to_white(s@.skip(b as int)),
        decreases n - b,
    {
        proof {
            assert(s@.skip(b as int).drop_first() =~= s@.skip(b + 1));
            assert(s@.subrange(a as int, b + 1) =~= s@.subrange(a as int, b as int).push(
                s@[b as int],
            ));
            assert(s@.subrange(a as int, b as int) + (seq![s@[b as int]] + up_to_white(
                s@.skip(b + 1),
            )) =~= s@.subrange(a as int, b + 1) + up_to_white(s@.skip(b + 1)));
        }
        b += 1;
    }
    assert(up_to_white(s@.skip(b as int)) =~= Seq::empty());
    assert(up_to_white(front) =~= s@.subrange(a as int, b as int));
    s.substring_char(a, b).to_owned()
}

} // verus!
