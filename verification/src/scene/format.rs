//! Text formats of the tiles.

use vstd::prelude::*;
use vstd::utf8::{
    encode_utf8, encode_utf8_first_scalar, encode_utf8_valid_utf8, is_char_boundary,
    length_of_first_scalar, pop_first_scalar,
};

use crate::text::{decimal, decimal_string, digit, digit_char};

verus! {

/// `n` spaces.
pub open spec fn spaces(n: nat) -> Seq<char> {
    Seq::new(n, |i: int| ' ')
}

/// `s` behind as many spaces as it takes to fill `width`.
pub open spec fn pad_left(s: Seq<char>, width: nat) -> Seq<char> {
    if s.len() >= width {
        s
    } else {
        spaces((width - s.len()) as nat) + s
    }
}

/// `s` followed by as many spaces as it takes to fill `width`.
pub open spec fn pad_right(s: Seq<char>, width: nat) -> Seq<char> {
    if s.len() >= width {
        s
    } else {
        s + spaces((width - s.len()) as nat)
    }
}

fn push_spaces(s: &mut String, n: usize)
    ensures
        final(s)@ == old(s)@ + spaces(n as nat),
{
    let mut i: usize = 0;
    assert(s@ =~= old(s)@ + spaces(0));
    while i < n
        invariant
            i <= n,
            s@ == old(s)@ + spaces(i as nat),
        decreases n - i,
    {
        s.push(' ');
        i += 1;
        assert(s@ =~= old(s)@ + spaces(i as nat));
    }
}

/// Right-aligns a text.
pub fn align_right(s: &str, width: usize) -> (r: String)
    ensures
        r@ == pad_left(s@, width as nat),
{
    let n: usize = s.unicode_len();
    let mut r = String::new();
    if n < width {
        push_spaces(&mut r, width - n);
    }
    r.append(s);
    assert(r@ =~= pad_left(s@, width as nat));
    r
}

/// Left-aligns a text.
pub fn align_left(s: &str, width: usize) -> (r: String)
    ensures
        r@ == pad_right(s@, width as nat),
{
    let n: usize = s.unicode_len();
    let mut r = s.to_owned();
    if n < width {
        push_spaces(&mut r, width - n);
    }
    r
}

/// `s` cut to at most `max` characters, the last of which is then `…`.
pub open spec fn spec_truncate(s: Seq<char>, max: nat) -> Seq<char> {
    if s.len() <= max {
        s
    } else if max == 0 {
        Seq::empty()
    } else {
        s.take(max - 1).push('…')
    }
}

/// Cuts a text to at most `max` characters, replacing what is cut by `…`.
pub fn truncate(s: &str, max: usize) -> (r: String)
    ensures
        r@ == spec_truncate(s@, max as nat),
        r@.len() <= max,
{
    let n: usize = s.unicode_len();
    if n <= max {
        return s.to_owned();
    }
    if max == 0 {
        return String::new();
    }
    let mut r = s.substring_char(0, max - 1).to_owned();
    assert(r@ =~= s@.take(max - 1));
    r.push('…');
    r
}

/// The first `n` characters of `s`.
pub open spec fn spec_first_chars(s: Seq<char>, n: nat) -> Seq<char> {
    if s.len() <= n {
        s
    } else {
        s.take(n as int)
    }
}

/// The first `n` characters of a text.
pub fn first_chars(s: &str, n: usize) -> (r: String)
    ensures
        r@ == spec_first_chars(s@, n as nat),
{
    let len: usize = s.unicode_len();
    if len <= n {
        s.to_owned()
    } else {
        let r = s.substring_char(0, n).to_owned();
        assert(r@ =~= s@.take(n as int));
        r
    }
}

/// `n / d` rounded to the nearest integer, ties to the even one.
pub open spec fn div_nearest(n: nat, d: nat) -> nat {
    let q = n / d;
    let r = n % d;
    if 2 * r > d || (2 * r == d && q % 2 == 1) {
        q + 1
    } else {
        q
    }
}

/// Distance between neighbouring double-precision numbers at `n`.
pub open spec fn double_step(n: nat) -> nat
    decreases n,
{
    if n < 0x20_0000_0000_0000 {
        1
    } else {
        2 * double_step(n / 2)
    }
}

/// The double-precision number nearest to `n`.
pub open spec fn nearest_double(n: nat) -> nat {
    div_nearest(n, double_step(n)) * double_step(n)
}

/// `bytes` in units of `unit` with one decimal, at least six wide.
pub open spec fn in_units(bytes: nat, unit: nat) -> Seq<char> {
    let tenths = div_nearest(10 * nearest_double(bytes), unit);
    pad_left(decimal(tenths / 10) + "."@ + seq![digit(tenths % 10)], 6)
}

pub const KIB: u64 = 1024;

pub const MIB: u64 = 1_048_576;

pub const GIB: u64 = 1_073_741_824;

/// A byte count for a table: in the largest unit that it reaches.
pub open spec fn spec_format_bytes(bytes: u64) -> Seq<char> {
    if bytes >= GIB {
        in_units(bytes as nat, GIB as nat) + "G"@
    } else if bytes >= MIB {
        in_units(bytes as nat, MIB as nat) + "M"@
    } else if bytes >= KIB {
        in_units(bytes as nat, KIB as nat) + "K"@
    } else {
        pad_left(decimal(bytes as nat), 6) + "B"@
    }
}

fn divide_nearest(n: u128, d: u128) -> (r: u128)
    requires
        0 < d < 0x1_0000_0000_0000_0000,
    ensures
        r == div_nearest(n as nat, d as nat),
        r <= n / d + 1,
{
    let q: u128 = n / d;
    let r: u128 = n % d;
    assert(q <= n) by (nonlinear_arith)
        requires
            q == n / d,
            d > 0,
    ;
    if 2 * r > d || (2 * r == d && q % 2 == 1) {
        assert(q < u128::MAX) by (nonlinear_arith)
            requires
                q == n / d,
                r == n % d,
                2 * r >= d,
                d > 0,
                n <= u128::MAX,
        ;
        q + 1
    } else {
        q
    }
}

/// The step between doubles at a 64-bit number.
fn step_of(n: u64) -> (r: u64)
    ensures
        r == double_step(n as nat),
        1 <= r <= 2048,
{
    let mut m: u64 = n;
    let mut step: u64 = 1;
    let mut rounds: u8 = 0;
    proof {
        assert(1 * double_step(m as nat) == double_step(n as nat));
    }
    while m >= 0x20_0000_0000_0000
        invariant
            step * double_step(m as nat) == double_step(n as nat),
            rounds <= 11,
            rounds == 0 ==> step == 1 && m <= 0xffff_ffff_ffff_ffff,
            rounds == 1 ==> step == 2 && m <= 0x7fff_ffff_ffff_ffff,
            rounds == 2 ==> step == 4 && m <= 0x3fff_ffff_ffff_ffff,
            rounds == 3 ==> step == 8 && m <= 0x1fff_ffff_ffff_ffff,
            rounds == 4 ==> step == 16 && m <= 0xfff_ffff_ffff_ffff,
            rounds == 5 ==> step == 32 && m <= 0x7ff_ffff_ffff_ffff,
            rounds == 6 ==> step == 64 && m <= 0x3ff_ffff_ffff_ffff,
            rounds == 7 ==> step == 128 && m <= 0x1ff_ffff_ffff_ffff,
            rounds == 8 ==> step == 256 && m <= 0xff_ffff_ffff_ffff,
            rounds == 9 ==> step == 512 && m <= 0x7f_ffff_ffff_ffff,
            rounds == 10 ==> step == 1024 && m <= 0x3f_ffff_ffff_ffff,
            rounds == 11 ==> step == 2048 && m <= 0x1f_ffff_ffff_ffff,
        decreases m,
    {
        let ghost half = double_step((m / 2) as nat);
        assert(step * (2 * half) == (step * 2) * half) by (nonlinear_arith);
        m = m / 2;
        step = step * 2;
        rounds += 1;
    }
    assert(step * 1 == step);
    step
}

fn units_text(bytes: u64, unit: u64) -> (r: String)
    requires
        unit == KIB || unit == MIB || unit == GIB,
    ensures
        r@ == in_units(bytes as nat, unit as nat),
{
    let step: u64 = step_of(bytes);
    let scaled: u128 = divide_nearest(bytes as u128, step as u128);
    let ghost n = bytes as nat;
    proof {
        assert(bytes as u128 / step as u128 <= bytes as u128) by (nonlinear_arith)
            requires
                step >= 1,
        ;
        assert(scaled <= 0x1_0000_0000_0000_0000);
        assert(scaled * step <= 0x1_0000_0000_0000_0000 * 2048) by (nonlinear_arith)
            requires
                scaled <= 0x1_0000_0000_0000_0000,
                step <= 2048,
        ;
    }
    let double: u128 = scaled * step as u128;
    proof {
        lemma_scaled_is_small(bytes, step);
    }
    let ten: u128 = 10 * double;
    let tenths: u128 = divide_nearest(ten, unit as u128);
    let whole: u128 = tenths / 10;
    let tenth: u8 = (tenths % 10) as u8;
    proof {
        let u = unit as int;
        let t = ten as int;
        assert(t / u <= t / 1024) by (nonlinear_arith)
            requires
                u >= 1024,
                t >= 0,
        ;
        assert(whole <= u64::MAX);
    }
    let mut text = decimal_string(whole as u64);
    text.append(".");
    text.push(digit_char(tenth));
    assert(text@ =~= decimal(whole as nat) + "."@ + seq![digit(tenth as nat)]);
    align_right(text.as_str(), 6)
}

proof fn lemma_scaled_is_small(bytes: u64, step: u64)
    requires
        1 <= step <= 2048,
    ensures
        div_nearest(bytes as nat, step as nat) * step <= bytes + 2048,
{
    let n = bytes as nat;
    let d = step as nat;
    let q = n / d;
    let r = n % d;
    assert(n == q * d + r) by (nonlinear_arith)
        requires
            d > 0,
            q == n / d,
            r == n % d,
    ;
    assert((q + 1) * d == q * d + d) by (nonlinear_arith);
    assert(q * d <= n);
}

/// Formats a byte count for a table.
pub fn format_bytes(bytes: u64) -> (r: String)
    ensures
        r@ == spec_format_bytes(bytes),
{
    if bytes >= GIB {
        units_text(bytes, GIB).concat("G")
    } else if bytes >= MIB {
        units_text(bytes, MIB).concat("M")
    } else if bytes >= KIB {
        units_text(bytes, KIB).concat("K")
    } else {
        align_right(decimal_string(bytes).as_str(), 6).concat("B")
    }
}

/// A number below one hundred in two digits.
pub open spec fn two_digits(n: nat) -> Seq<char> {
    seq![digit(n / 10), digit(n % 10)]
}

/// At least two digits.
pub open spec fn at_least_two_digits(n: nat) -> Seq<char> {
    if n < 10 {
        seq!['0', digit(n)]
    } else {
        decimal(n)
    }
}

/// Hours, minutes and seconds; without hours while there are none.
pub open spec fn spec_format_uptime(seconds: u64) -> Seq<char> {
    let h = (seconds / 3600) as nat;
    let m = ((seconds % 3600) / 60) as nat;
    let s = (seconds % 60) as nat;
    if h > 0 {
        at_least_two_digits(h) + ":"@ + two_digits(m) + ":"@ + two_digits(s)
    } else {
        two_digits(m) + ":"@ + two_digits(s)
    }
}

fn pair_text(n: u64) -> (r: String)
    requires
        n < 100,
    ensures
        r@ == two_digits(n as nat),
{
    let mut s = String::new();
    s.push(digit_char((n / 10) as u8));
    s.push(digit_char((n % 10) as u8));
    assert(s@ =~= two_digits(n as nat));
    s
}

fn hours_text(n: u64) -> (r: String)
    ensures
        r@ == at_least_two_digits(n as nat),
{
    if n < 10 {
        let mut s = String::new();
        s.push('0');
        s.push(digit_char(n as u8));
        assert(s@ =~= at_least_two_digits(n as nat));
        s
    } else {
        decimal_string(n)
    }
}

/// Formats an uptime.
pub fn format_uptime(seconds: u64) -> (r: String)
    ensures
        r@ == spec_format_uptime(seconds),
{
    let h: u64 = seconds / 3600;
    let m: u64 = (seconds % 3600) / 60;
    let s: u64 = seconds % 60;
    if h > 0 {
        hours_text(h).concat(":").concat(pair_text(m).as_str()).concat(":").concat(
            pair_text(s).as_str(),
        )
    } else {
        pair_text(m).concat(":").concat(pair_text(s).as_str())
    }
}

/// Subtraction that stops at zero.
pub open spec fn minus(a: nat, b: nat) -> nat {
    if a < b {
        0
    } else {
        (a - b) as nat
    }
}

/// The longest end of `s` that takes at most `max` bytes.
pub open spec fn tail_within(s: Seq<char>, max: nat) -> Seq<char>
    decreases s.len(),
{
    if s.len() == 0 || encode_utf8(s).len() <= max {
        s
    } else {
        tail_within(s.drop_first(), max)
    }
}

/// Where a character begins `max` bytes before the end of a longer text, its
/// end is exactly the last `max` bytes.
pub proof fn a_clean_cut_keeps_the_last_bytes(s: Seq<char>, max: nat)
    requires
        max <= encode_utf8(s).len(),
        is_char_boundary(encode_utf8(s), encode_utf8(s).len() - max),
    ensures
        encode_utf8(tail_within(s, max)) == encode_utf8(s).skip(encode_utf8(s).len() - max),
    decreases s.len(),
{
    let bytes = encode_utf8(s);
    let at = bytes.len() - max;
    encode_utf8_valid_utf8(s);
    if at == 0 {
        assert(bytes.skip(0) =~= bytes);
    } else {
        let rest = s.drop_first();
        let width = length_of_first_scalar(bytes);
        encode_utf8_first_scalar(s);
        encode_utf8_valid_utf8(rest);
        assert(pop_first_scalar(bytes) =~= encode_utf8(rest));
        reveal_with_fuel(is_char_boundary, 2);
        assert(at >= width);
        a_clean_cut_keeps_the_last_bytes(rest, max);
        assert(encode_utf8(rest).skip(at - width) =~= bytes.skip(at));
    }
}

/// A source label for a status bar of `max` cells: whole if it fits beside
/// the rest, else as much of its end as fits behind `…`, or its first eight
/// characters where there is hardly room.
pub open spec fn spec_short_source(s: Seq<char>, max: nat) -> Seq<char> {
    let budget = minus(max, 30);
    if encode_utf8(s).len() <= minus(max, 24) {
        s
    } else if budget < 8 {
        spec_first_chars(s, 8)
    } else {
        "…"@ + tail_within(s, budget)
    }
}

/// The longest end of a text that takes at most `max` bytes.
fn end_within(s: &str, max: usize) -> (r: String)
    ensures
        r@ == tail_within(s@, max as nat),
{
    let n: usize = s.unicode_len();
    let mut from: usize = 0;
    assert(s@.skip(0) =~= s@);
    while from < n
        invariant
            n == s@.len(),
            0 <= from <= n,
            tail_within(s@, max as nat) == tail_within(s@.skip(from as int), max as nat),
        decreases n - from,
    {
        let tail = s.substring_char(from, n);
        assert(tail@ =~= s@.skip(from as int));
        if tail.as_bytes().len() <= max {
            return tail.to_owned();
        }
        assert(s@.skip(from as int).drop_first() =~= s@.skip(from + 1));
        from += 1;
    }
    assert(s@.skip(n as int) =~= Seq::empty());
    String::new()
}

/// Shortens a source label for a status bar of `max` cells.
pub fn short_source(s: &str, max: usize) -> (r: String)
    ensures
        r@ == spec_short_source(s@, max as nat),
{
    let n: usize = s.as_bytes().len();
    let fits: usize = if max < 24 {
        0
    } else {
        max - 24
    };
    if n <= fits {
        return s.to_owned();
    }
    let budget: usize = if max < 30 {
        0
    } else {
        max - 30
    };
    if budget < 8 {
        return first_chars(s, 8);
    }
    String::from_str("…").concat(end_within(s, budget).as_str())
}

} // verus!
