//! The pointer: what a terminal reports of it.

use vstd::prelude::*;

use crate::event::AppEvent;
use crate::logs::{lemma_one_piece, lemma_split_concat};
use crate::mouse::{cell_coord, read_mouse, report_event, reports_are_taken_out};
use crate::text::{all_digits, decimal, decimal_value, digit, split_on};

verus! {

/// `bytes` are the digits of `n`, as they are typed.
pub open spec fn spells(bytes: Seq<u8>, n: nat) -> bool {
    &&& bytes.len() == decimal(n).len()
    &&& forall|i: int| 0 <= i < bytes.len() ==> (#[trigger] bytes[i]) as int == decimal(n)[i] as int
}

pub proof fn lemma_spelled(bytes: Seq<u8>, n: nat)
    requires
        spells(bytes, n),
    ensures
        bytes.len() > 0,
        all_digits(bytes),
        decimal_value(bytes) == n,
    decreases n,
{
    reveal_with_fuel(decimal_value, 2);
    if n < 10 {
        assert(decimal(n) =~= seq![digit(n)]);
        assert(bytes.drop_last() =~= Seq::empty());
        assert(bytes[0] as int == digit(n) as int);
    } else {
        let front = bytes.drop_last();
        assert(decimal(n) == decimal(n / 10).push(digit(n % 10)));
        assert forall|i: int| 0 <= i < front.len() implies (#[trigger] front[i]) as int == decimal(
            n / 10,
        )[i] as int by {
            assert(front[i] == bytes[i]);
        }
        lemma_spelled(front, n / 10);
        assert(bytes.last() as int == digit(n % 10) as int);
        assert forall|i: int| 0 <= i < bytes.len() implies 0x30 <= #[trigger] bytes[i] <= 0x39 by {
            if i < front.len() {
                assert(front[i] == bytes[i]);
            }
        }
    }
}

proof fn lemma_three_parts(a: Seq<u8>, b: Seq<u8>, c: Seq<u8>)
    requires
        all_digits(a),
        all_digits(b),
        all_digits(c),
    ensures
        split_on(a + seq![0x3bu8] + b + seq![0x3bu8] + c, 0x3bu8) == seq![a, b, c],
{
    let sep = seq![0x3bu8];
    lemma_one_piece(a, 0x3bu8);
    lemma_one_piece(b, 0x3bu8);
    lemma_one_piece(c, 0x3bu8);
    let none = Seq::<u8>::empty();
    // Behind each piece comes the separator, and behind that a fresh piece.
    assert((a + sep).drop_last() =~= a);
    assert(split_on(a + sep, 0x3bu8) =~= seq![a, none]);
    assert(none + b =~= b);
    lemma_split_concat(a + sep, b, 0x3bu8);
    assert(split_on(a + sep + b, 0x3bu8) =~= seq![a, b]);
    assert((a + sep + b + sep).drop_last() =~= a + sep + b);
    assert(split_on(a + sep + b + sep, 0x3bu8) =~= seq![a, b, none]);
    assert(none + c =~= c);
    lemma_split_concat(a + sep + b + sep, c, 0x3bu8);
    assert(split_on(a + sep + b + sep + c, 0x3bu8) =~= seq![a, b, c]);
}

/// What a report `ESC [ < b ; x+1 ; y+1 M`, or with `m` at its end, comes to.
/// Pressing the left button alone, button 0 and `M`, is a click on cell
/// `(x, y)`; with 32 in the button's number it is motion over that cell;
/// everything else is nothing. The report is taken out of what was typed.
pub proof fn clicks_and_motion_are_read(
    button: u32,
    x: u16,
    y: u16,
    b: Seq<u8>,
    cx: Seq<u8>,
    cy: Seq<u8>,
    last: u8,
)
    requires
        spells(b, button as nat),
        spells(cx, (x + 1) as nat),
        spells(cy, (y + 1) as nat),
        last == 0x4d || last == 0x6d,
    ensures
        ({
            let report = seq![0x1bu8, 0x5bu8, 0x3cu8] + (b + seq![0x3bu8] + cx + seq![0x3bu8] + cy)
                + seq![last];
            let r = read_mouse(Seq::empty(), report);
            &&& r.out.len() == 0
            &&& r.held.len() == 0
            &&& (button / 32) % 2 == 1 ==> r.events == seq![AppEvent::MouseHover { x, y }]
            &&& button == 0 && last == 0x4d ==> r.events == seq![AppEvent::MouseClick { x, y }]
            &&& (button / 32) % 2 == 0 && (button != 0 || last == 0x6d) ==> r.events.len() == 0
        }),
{
    lemma_spelled(b, button as nat);
    lemma_spelled(cx, (x + 1) as nat);
    lemma_spelled(cy, (y + 1) as nat);
    lemma_three_parts(b, cx, cy);
    let params = b + seq![0x3bu8] + cx + seq![0x3bu8] + cy;
    assert forall|i: int| 0 <= i < params.len() implies (#[trigger] params[i]) != 0x4d && params[i]
        != 0x6d by {
        let p1 = b.len() as int;
        let p2 = p1 + 1 + cx.len();
        if i < p1 {
            assert(params[i] == b[i]);
        } else if i == p1 {
        } else if i < p2 {
            assert(params[i] == cx[i - p1 - 1]);
        } else if i == p2 {
        } else {
            assert(params[i] == cy[i - p2 - 1]);
        }
    }
    let report = seq![0x1bu8, 0x5bu8, 0x3cu8] + params + seq![last];
    assert(report =~= (seq![0x1bu8, 0x5bu8, 0x3cu8] + params).push(last));
    reports_are_taken_out(Seq::empty(), params, last);
    assert(((button & 32) != 0) == ((button / 32) % 2 == 1)) by (bit_vector);
    assert(report_event(params, last == 0x4d) == (if (button / 32) % 2 == 1 {
        Some(AppEvent::MouseHover { x, y })
    } else if button == 0 && last == 0x4d {
        Some(AppEvent::MouseClick { x, y })
    } else {
        None
    }));
}

/// Cells are counted from one in a report; a zero counts as one, and what is
/// beyond the 65536th cell is no cell.
pub proof fn cells_are_counted_from_one(n: nat)
    ensures
        cell_coord(0) == Some(0u16),
        1 <= n <= 65_536 ==> cell_coord(n) == Some((n - 1) as u16),
        n > 65_536 ==> cell_coord(n) is None,
{
}

/// A report without its three numbers is none.
pub proof fn broken_reports_are_nothing(params: Seq<u8>, press: bool)
    ensures
        split_on(params, 0x3bu8).len() != 3 ==> report_event(params, press) is None,
        split_on(params, 0x3bu8).len() == 3 && (exists|i: int|
            0 <= i < 3 && !all_digits(#[trigger] split_on(params, 0x3bu8)[i])) ==> report_event(
            params,
            press,
        ) is None,
{
}

} // verus!
