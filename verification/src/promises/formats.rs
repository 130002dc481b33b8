//! How numbers, times and texts are written.

use vstd::prelude::*;
use vstd::utf8::encode_utf8;

use crate::scene::format::{
    div_nearest, double_step, nearest_double, pad_left, pad_right, spaces, spec_first_chars,
    spec_format_bytes, spec_format_uptime, spec_short_source, spec_truncate, tail_within,
};
use crate::text::{decimal, digit};

verus! {

/// Padding fills a text up to a width with spaces, in front or behind, and
/// never cuts it.
pub proof fn padding_fills_with_spaces(s: Seq<char>, width: nat, i: int)
    ensures
        s.len() >= width ==> pad_left(s, width) == s && pad_right(s, width) == s,
        s.len() < width ==> {
            &&& pad_left(s, width).len() == width
            &&& pad_right(s, width).len() == width
            &&& 0 <= i < width - s.len() ==> pad_left(s, width)[i] == ' '
            &&& pad_left(s, width).subrange(width - s.len(), width as int) == s
            &&& pad_right(s, width).subrange(0, s.len() as int) == s
            &&& s.len() <= i < width ==> pad_right(s, width)[i] == ' '
        },
{
    if s.len() < width {
        assert(pad_left(s, width).subrange(width - s.len(), width as int) =~= s);
        assert(pad_right(s, width).subrange(0, s.len() as int) =~= s);
    }
}

/// A text that is too long is cut: as many characters stay as there is room
/// for, the last of them `…`. One that is not stays as it is.
pub proof fn long_texts_are_cut(s: Seq<char>, max: nat, i: int)
    ensures
        s.len() <= max ==> spec_truncate(s, max) == s,
        s.len() > max && max > 0 ==> {
            &&& spec_truncate(s, max).len() == max
            &&& spec_truncate(s, max)[max - 1] == '…'
            &&& 0 <= i < max - 1 ==> spec_truncate(s, max)[i] == s[i]
        },
        max == 0 ==> spec_truncate(s, max).len() == 0,
        s.len() <= max ==> spec_first_chars(s, max) == s,
        s.len() > max ==> spec_first_chars(s, max).len() == max && (0 <= i < max
            ==> spec_first_chars(s, max)[i] == s[i]),
{
}

/// An uptime of less than an hour is written `mm:ss`.
pub proof fn uptimes_without_hours(minutes: nat, seconds: nat)
    requires
        minutes < 60,
        seconds < 60,
    ensures
        ({
            let t = spec_format_uptime((60 * minutes + seconds) as u64);
            &&& t.len() == 5
            &&& t[0] as int == 48 + minutes / 10
            &&& t[1] as int == 48 + minutes % 10
            &&& t[2] == ':'
            &&& t[3] as int == 48 + seconds / 10
            &&& t[4] as int == 48 + seconds % 10
        }),
{
    reveal_strlit(":");
    lemma_clock(0, minutes, seconds);
}

/// One of an hour or more is written `hh:mm:ss`, with as many digits as the
/// hours take.
pub proof fn uptimes_with_hours(hours: nat, minutes: nat, seconds: nat)
    requires
        0 < hours,
        minutes < 60,
        seconds < 60,
        3600 * hours + 60 * minutes + seconds <= u64::MAX,
    ensures
        ({
            let t = spec_format_uptime((3600 * hours + 60 * minutes + seconds) as u64);
            let n = if hours < 10 {
                2int
            } else {
                decimal(hours).len() as int
            };
            &&& t.len() == n + 6
            &&& hours < 10 ==> t[0] == '0' && t[1] as int == 48 + hours
            &&& hours >= 10 ==> t.subrange(0, n) == decimal(hours)
            &&& t[n] == ':'
            &&& t[n + 1] as int == 48 + minutes / 10
            &&& t[n + 2] as int == 48 + minutes % 10
            &&& t[n + 3] == ':'
            &&& t[n + 4] as int == 48 + seconds / 10
            &&& t[n + 5] as int == 48 + seconds % 10
        }),
{
    reveal_strlit(":");
    lemma_clock(hours, minutes, seconds);
    let t = spec_format_uptime((3600 * hours + 60 * minutes + seconds) as u64);
    if hours >= 10 {
        assert(t.subrange(0, decimal(hours).len() as int) =~= decimal(hours));
    }
}

proof fn lemma_clock(hours: nat, minutes: nat, seconds: nat)
    requires
        minutes < 60,
        seconds < 60,
    ensures
        ({
            let all = 3600 * hours + 60 * minutes + seconds;
            &&& all / 3600 == hours
            &&& (all % 3600) / 60 == minutes
            &&& all % 60 == seconds
        }),
{
}

/// Byte counts below 1024 are written as they are, behind spaces, with `B`.
pub proof fn few_bytes_are_counted(bytes: u64)
    requires
        bytes < 1024,
    ensures
        spec_format_bytes(bytes) == pad_left(decimal(bytes as nat), 6) + "B"@,
{
}

/// Larger ones are written in the largest of KiB, MiB and GiB that they
/// reach, rounded to the nearest tenth, an exact half to the even one; up to
/// 2^53, beyond which a count is first rounded to a double.
pub proof fn many_bytes_are_rounded_to_tenths(bytes: u64, tenths: nat)
    requires
        1024 <= bytes < 0x20_0000_0000_0000,
    ensures
        ({
            let (unit, name) = if bytes < 1_048_576 {
                (1024nat, "K"@)
            } else if bytes < 1_073_741_824 {
                (1_048_576nat, "M"@)
            } else {
                (1_073_741_824nat, "G"@)
            };
            let off = if 10 * bytes >= tenths * unit {
                10 * bytes - tenths * unit
            } else {
                tenths * unit - 10 * bytes
            };
            2 * off < unit || (2 * off == unit && tenths % 2 == 0) ==> spec_format_bytes(bytes)
                == pad_left(decimal(tenths / 10) + "."@ + seq![digit(tenths % 10)], 6) + name
        }),
{
    let (unit, name) = if bytes < 1_048_576 {
        (1024nat, "K"@)
    } else if bytes < 1_073_741_824 {
        (1_048_576nat, "M"@)
    } else {
        (1_073_741_824nat, "G"@)
    };
    let n = bytes as nat;
    assert(double_step(n) == 1);
    assert(n / 1 == n && n % 1 == 0) by (nonlinear_arith);
    assert(div_nearest(n, 1) == n);
    assert(nearest_double(n) == n);
    let off = if 10 * bytes >= tenths * unit {
        10 * bytes - tenths * unit
    } else {
        tenths * unit - 10 * bytes
    };
    if 2 * off < unit || (2 * off == unit && tenths % 2 == 0) {
        lemma_nearest(10 * n, unit, tenths);
    }
}

proof fn lemma_nearest(n: nat, d: nat, t: nat)
    requires
        d > 0,
        d % 2 == 0,
        ({
            let off = if n >= t * d {
                n - t * d
            } else {
                t * d - n
            };
            2 * off < d || (2 * off == d && t % 2 == 0)
        }),
    ensures
        div_nearest(n, d) == t,
{
    let q = n / d;
    let r = n % d;
    assert(n == q * d + r && r < d) by (nonlinear_arith)
        requires
            q == n / d,
            r == n % d,
            d > 0,
    ;
    if n >= t * d {
        let off = n - t * d;
        assert(q == t && r == off) by (nonlinear_arith)
            requires
                n == q * d + r,
                0 <= r < d,
                n == t * d + off,
                0 <= off < d,
        ;
    } else {
        let off = t * d - n;
        assert(q == t - 1 && r == d - off) by (nonlinear_arith)
            requires
                n == q * d + r,
                0 <= r < d,
                n == t * d - off,
                0 < off < d,
                t > 0,
        ;
    }
}

/// The label of a source in a bar of `max` cells: whole if it leaves 24 cells;
/// its first eight characters if there are fewer than 38 cells; otherwise `…`
/// and an end of it that takes at most `max - 30` bytes, and the longest such.
pub proof fn source_labels_fit(s: Seq<char>, max: nat, k: int)
    ensures
        encode_utf8(s).len() + 24 <= max ==> spec_short_source(s, max) == s,
        encode_utf8(s).len() + 24 > max && encode_utf8(s).len() > 0 && max < 38 && s.len() > 8
            ==> spec_short_source(s, max) == s.take(8),
        encode_utf8(s).len() + 24 > max && max >= 38 ==> {
            let end = spec_short_source(s, max);
            &&& end.len() > 0
            &&& end[0] == '…'
            &&& encode_utf8(end.drop_first()).len() <= max - 30
            &&& end.drop_first().len() <= s.len()
            &&& end.drop_first() == s.skip(s.len() - end.drop_first().len())
            &&& 0 <= k < s.len() - end.drop_first().len() ==> encode_utf8(s.skip(k)).len() > max - 30
        },
{
    reveal_strlit("…");
    if encode_utf8(s).len() + 24 > max && max >= 38 {
        let budget = (max - 30) as nat;
        lemma_longest_end(s, budget, k);
        let end = "…"@ + tail_within(s, budget);
        assert(end.drop_first() =~= tail_within(s, budget));
    }
}

proof fn lemma_longest_end(s: Seq<char>, max: nat, k: int)
    ensures
        ({
            let end = tail_within(s, max);
            &&& encode_utf8(end).len() <= max
            &&& end.len() <= s.len()
            &&& end == s.skip(s.len() - end.len())
            &&& 0 <= k < s.len() - end.len() ==> encode_utf8(s.skip(k)).len() > max
        }),
    decreases s.len(),
{
    if s.len() == 0 || encode_utf8(s).len() <= max {
        assert(s.skip(0) =~= s);
    } else {
        let rest = s.drop_first();
        lemma_longest_end(rest, max, k - 1);
        let end = tail_within(rest, max);
        assert(rest.skip(rest.len() - end.len()) =~= s.skip(s.len() - end.len()));
        if k == 0 {
            assert(s.skip(0) =~= s);
        } else if 0 < k < s.len() {
            assert(rest.skip(k - 1) =~= s.skip(k));
        }
    }
}

} // verus!
