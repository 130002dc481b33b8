//! SGR mouse reports.
//!
//! ```text
//! ESC [ < Cb ; Cx ; Cy M      (press or motion)
//! ESC [ < Cb ; Cx ; Cy m      (release)
//! ```
//!
//! The parser runs on raw stdin bytes ahead of the key filter: it takes the
//! mouse reports out and hands everything else on unchanged. Its state is
//! the sequence of bytes it is holding back, so a report may span chunks.
//!
//! Only motion and presses of the left button without modifiers matter; other
//! reports are swallowed, and so are malformed ones.

use vstd::prelude::*;

use crate::event::AppEvent;
use crate::input::{CSI_OPEN, ESC};
use crate::text::{digits_value, parse_digits, split_bytes, split_on};

verus! {

pub const SGR_MARKER: u8 = 0x3c;

pub const SGR_PRESS: u8 = 0x4d;

pub const SGR_RELEASE: u8 = 0x6d;

/// Button code of a press of the left button. Other buttons, the wheel and
/// modifiers each set further bits.
pub const LEFT_BUTTON: u32 = 0;

/// The bit of a button code that tells motion.
pub const MOTION_BIT: u32 = 32;

/// A one-based report coordinate as a cell coordinate, if it is one.
pub open spec fn cell_coord(c: nat) -> Option<u16> {
    let zero_based = if c == 0 {
        0
    } else {
        c - 1
    };
    if zero_based <= u16::MAX {
        Some(zero_based as u16)
    } else {
        None
    }
}

/// The event of a report with button code `cb`: motion anywhere is a hover,
/// a press of nothing but the left button is a click, and everything else is
/// nothing.
pub open spec fn button_event(cb: u32, x: u16, y: u16, press: bool) -> Option<AppEvent> {
    if (cb & MOTION_BIT) != 0 {
        Some(AppEvent::MouseHover { x, y })
    } else if press && cb == LEFT_BUTTON {
        Some(AppEvent::MouseClick { x, y })
    } else {
        None
    }
}

/// The event of the report `Cb;Cx;Cy`, three numbers in digits.
pub open spec fn report_event(params: Seq<u8>, press: bool) -> Option<AppEvent> {
    let parts = split_on(params, 0x3bu8);
    if parts.len() != 3 {
        None
    } else {
        match (
            digits_value(parts[0], u32::MAX as nat),
            digits_value(parts[1], u32::MAX as nat),
            digits_value(parts[2], u32::MAX as nat),
        ) {
            (Some(cb), Some(cx), Some(cy)) => match (cell_coord(cx), cell_coord(cy)) {
                (Some(x), Some(y)) => button_event(cb as u32, x, y, press),
                _ => None,
            },
            _ => None,
        }
    }
}

/// Bytes handed on, events found, and bytes held back.
#[verifier::ext_equal]
pub ghost struct MouseScan {
    pub out: Seq<u8>,
    pub events: Seq<AppEvent>,
    pub held: Seq<u8>,
}

/// `s` may still turn out to be a mouse report: it is a prefix of
/// `ESC [ <`, or that and anything but a final byte.
pub open spec fn unfinished_report(s: Seq<u8>) -> bool {
    &&& s.len() >= 1
    &&& s[0] == ESC
    &&& s.len() >= 2 ==> s[1] == CSI_OPEN
    &&& s.len() >= 3 ==> s[2] == SGR_MARKER
    &&& forall|i: int|
        3 <= i < s.len() ==> (#[trigger] s[i]) != SGR_PRESS && s[i] != SGR_RELEASE
}

/// `s` is a complete report.
pub open spec fn finished_report(s: Seq<u8>) -> bool {
    &&& s.len() >= 4
    &&& unfinished_report(s.drop_last())
    &&& s.last() == SGR_PRESS || s.last() == SGR_RELEASE
}

/// What one more byte does: the bytes held back and the new one are still
/// undecided, or a report, or plain input; but an `ESC` that breaks off what
/// was held back may itself start a report.
pub open spec fn mouse_step(scan: MouseScan, b: u8) -> MouseScan {
    let s = scan.held.push(b);
    if unfinished_report(s) {
        MouseScan { held: s, ..scan }
    } else if finished_report(s) {
        MouseScan {
            held: Seq::empty(),
            events: match report_event(s.subrange(3, s.len() - 1), b == SGR_PRESS) {
                Some(event) => scan.events.push(event),
                None => scan.events,
            },
            ..scan
        }
    } else if b == ESC {
        MouseScan { held: seq![ESC], out: scan.out + scan.held, ..scan }
    } else {
        MouseScan { held: Seq::empty(), out: scan.out + s, ..scan }
    }
}

/// What a run of bytes does.
pub open spec fn mouse_scan(scan: MouseScan, input: Seq<u8>) -> MouseScan
    decreases input.len(),
{
    if input.len() == 0 {
        scan
    } else {
        mouse_step(mouse_scan(scan, input.drop_last()), input.last())
    }
}

/// Reads a chunk with `held` held back.
pub open spec fn read_mouse(held: Seq<u8>, input: Seq<u8>) -> MouseScan {
    mouse_scan(MouseScan { out: Seq::empty(), events: Seq::empty(), held }, input)
}

fn to_cell(c: u32) -> (r: Option<u16>)
    ensures
        r == cell_coord(c as nat),
{
    let zero_based: u32 = if c == 0 {
        0
    } else {
        c - 1
    };
    if zero_based <= u16::MAX as u32 {
        Some(zero_based as u16)
    } else {
        None
    }
}

/// The event of the report `Cb;Cx;Cy`.
pub fn parse_sgr_params(params: &[u8], is_press: bool) -> (r: Option<AppEvent>)
    ensures
        r == report_event(params@, is_press),
{
    let parts = split_bytes(params, 0x3b);
    if parts.len() != 3 {
        return None;
    }
    let cb = parse_digits(parts[0].as_slice(), u32::MAX);
    let cx = parse_digits(parts[1].as_slice(), u32::MAX);
    let cy = parse_digits(parts[2].as_slice(), u32::MAX);
    match (cb, cx, cy) {
        (Some(cb), Some(cx), Some(cy)) => match (to_cell(cx), to_cell(cy)) {
            (Some(x), Some(y)) => {
                if (cb & MOTION_BIT) != 0 {
                    Some(AppEvent::MouseHover { x, y })
                } else if is_press && cb == LEFT_BUTTON {
                    Some(AppEvent::MouseClick { x, y })
                } else {
                    None
                }
            },
            _ => None,
        },
        _ => None,
    }
}

/// Takes mouse reports out of stdin.
pub struct MouseParser {
    held: Vec<u8>,
}

impl View for MouseParser {
    type V = Seq<u8>;

    closed spec fn view(&self) -> Seq<u8> {
        self.held@
    }
}

impl MouseParser {
    /// The parser holds nothing, or the start of a report.
    pub open spec fn wf(&self) -> bool {
        self@.len() == 0 || unfinished_report(self@)
    }

    /// A parser that holds nothing back.
    pub fn new() -> (p: MouseParser)
        ensures
            p@ == Seq::<u8>::empty(),
            p.wf(),
    {
        MouseParser { held: Vec::new() }
    }

    /// Consumes a chunk. Returns the bytes that belong to no report, and the
    /// events in the order of their reports.
    pub fn parse(&mut self, input: &[u8]) -> (r: (Vec<u8>, Vec<AppEvent>))
        requires
            old(self).wf(),
        ensures
            r.0@ == read_mouse(old(self)@, input@).out,
            r.1@ == read_mouse(old(self)@, input@).events,
            final(self)@ == read_mouse(old(self)@, input@).held,
            final(self).wf(),
    {
        let mut out: Vec<u8> = Vec::new();
        let mut events: Vec<AppEvent> = Vec::new();
        let n: usize = input.len();
        let mut i: usize = 0;
        assert(input@.take(0) =~= Seq::empty());
        while i < n
            invariant
                n == input@.len(),
                0 <= i <= n,
                self.wf(),
                read_mouse(old(self)@, input@.take(i as int)) == (MouseScan {
                    out: out@,
                    events: events@,
                    held: self@,
                }),
            decreases n - i,
        {
            let b: u8 = input[i];
            let ghost was = MouseScan { out: out@, events: events@, held: self@ };
            let ghost held = self@;
            proof {
                assert(input@.take(i as int + 1).drop_last() =~= input@.take(i as int));
            }
            let k: usize = self.held.len();
            self.held.push(b);
            let ghost s = self@;
            assert(s =~= held.push(b));
            assert(s.drop_last() =~= held);
            let undecided: bool = match k {
                0 => b == ESC,
                1 => b == CSI_OPEN,
                2 => b == SGR_MARKER,
                _ => b != SGR_PRESS && b != SGR_RELEASE,
            };
            proof {
                assert forall|j: int| 0 <= j < k implies s[j] == held[j] by {}
                assert(s[k as int] == b);
                assert(undecided == unfinished_report(s));
            }
            if !undecided {
                if k >= 3 {
                    assert(finished_report(s));
                    let params = self.held.as_slice();
                    let found = parse_sgr_params(
                        vstd::slice::slice_subrange(params, 3, k),
                        b == SGR_PRESS,
                    );
                    match found {
                        Some(event) => {
                            events.push(event);
                        },
                        None => {},
                    }
                    self.held.clear();
                } else if b == ESC {
                    assert(!finished_report(s));
                    self.held.pop();
                    out.append(&mut self.held);
                    self.held.push(ESC);
                    assert(self@ =~= seq![ESC]);
                } else {
                    assert(!finished_report(s));
                    out.append(&mut self.held);
                }
            }
            assert(mouse_step(was, b) =~= (MouseScan {
                out: out@,
                events: events@,
                held: self@,
            }));
            i += 1;
        }
        assert(input@.take(n as int) =~= input@);
        (out, events)
    }
}

proof fn lemma_mouse_scan_concat(scan: MouseScan, a: Seq<u8>, b: Seq<u8>)
    ensures
        mouse_scan(scan, a + b) == mouse_scan(mouse_scan(scan, a), b),
    decreases b.len(),
{
    if b.len() == 0 {
        assert(a + b =~= a);
    } else {
        lemma_mouse_scan_concat(scan, a, b.drop_last());
        assert((a + b).drop_last() =~= a + b.drop_last());
    }
}

proof fn lemma_mouse_scan_prepends(
    out: Seq<u8>,
    events: Seq<AppEvent>,
    held: Seq<u8>,
    input: Seq<u8>,
)
    ensures
        ({
            let r = read_mouse(held, input);
            mouse_scan(MouseScan { out, events, held }, input) == (MouseScan {
                out: out + r.out,
                events: events + r.events,
                held: r.held,
            })
        }),
    decreases input.len(),
{
    let r = read_mouse(held, input);
    if input.len() > 0 {
        lemma_mouse_scan_prepends(out, events, held, input.drop_last());
        let p = read_mouse(held, input.drop_last());
        let s = p.held.push(input.last());
        assert(out + (p.out + s) =~= out + p.out + s);
        assert(out + (p.out + p.held) =~= out + p.out + p.held);
    }
    assert(mouse_scan(MouseScan { out, events, held }, input) =~= (MouseScan {
        out: out + r.out,
        events: events + r.events,
        held: r.held,
    }));
}

/// Where stdin is cut into chunks does not matter: two chunks one after the
/// other give the bytes and events of both at once.
pub proof fn mouse_chunks_may_be_split(held: Seq<u8>, a: Seq<u8>, b: Seq<u8>)
    ensures
        ({
            let first = read_mouse(held, a);
            let second = read_mouse(first.held, b);
            let whole = read_mouse(held, a + b);
            &&& whole.out == first.out + second.out
            &&& whole.events == first.events + second.events
            &&& whole.held == second.held
        }),
{
    let first = read_mouse(held, a);
    lemma_mouse_scan_concat(
        MouseScan { out: Seq::empty(), events: Seq::empty(), held },
        a,
        b,
    );
    lemma_mouse_scan_prepends(first.out, first.events, first.held, b);
}

/// Input without `ESC` is handed on as it is, with no event.
pub proof fn plain_bytes_are_handed_on(input: Seq<u8>)
    requires
        forall|i: int| 0 <= i < input.len() ==> (#[trigger] input[i]) != ESC,
    ensures
        read_mouse(Seq::empty(), input) == (MouseScan {
            out: input,
            events: Seq::empty(),
            held: Seq::empty(),
        }),
    decreases input.len(),
{
    if input.len() > 0 {
        plain_bytes_are_handed_on(input.drop_last());
        let s = Seq::<u8>::empty().push(input.last());
        assert(s[0] == input.last());
        assert(input.drop_last() + s =~= input);
    }
    assert(read_mouse(Seq::empty(), input) =~= (MouseScan {
        out: input,
        events: Seq::empty(),
        held: Seq::empty(),
    }));
}

/// A complete report leaves nothing of itself in the bytes handed on and
/// nothing held back, whatever broken-off start of another stands before it.
pub proof fn reports_are_taken_out(held: Seq<u8>, params: Seq<u8>, last: u8)
    requires
        held.len() == 0 || unfinished_report(held),
        held.len() < 3,
        last == SGR_PRESS || last == SGR_RELEASE,
        forall|i: int|
            0 <= i < params.len() ==> (#[trigger] params[i]) != SGR_PRESS && params[i]
                != SGR_RELEASE,
    ensures
        ({
            let r = read_mouse(held, (seq![ESC, CSI_OPEN, SGR_MARKER] + params).push(last));
            &&& r.out == held
            &&& r.held == Seq::<u8>::empty()
            &&& r.events == match report_event(params, last == SGR_PRESS) {
                Some(event) => seq![event],
                None => Seq::empty(),
            }
        }),
{
    let body = seq![ESC, CSI_OPEN, SGR_MARKER] + params;
    lemma_report_body_is_held(params);
    let s = body.push(last);
    assert(s.drop_last() =~= body);
    assert(body.len() >= 3);
    assert(unfinished_report(body));
    assert(s[s.len() - 1] == last);
    if unfinished_report(s) {
        assert(s[s.len() - 1] != SGR_PRESS && s[s.len() - 1] != SGR_RELEASE);
    }
    assert(s.subrange(3, s.len() - 1) =~= params);
    lemma_esc_starts_over(held, s);
}

proof fn lemma_esc_starts_over(held: Seq<u8>, input: Seq<u8>)
    requires
        held.len() == 0 || unfinished_report(held),
        held.len() < 3,
        input.len() > 0,
        input[0] == ESC,
    ensures
        ({
            let r = read_mouse(Seq::empty(), input);
            read_mouse(held, input) == (MouseScan { out: held + r.out, ..r })
        }),
{
    let esc = seq![ESC];
    let rest = input.drop_first();
    let none = Seq::<u8>::empty();
    let start = MouseScan { out: none, events: Seq::empty(), held };
    let fresh = MouseScan { out: none, events: Seq::empty(), held: none };
    assert(input =~= esc + rest);
    assert(esc.drop_last() =~= none);
    assert(none.push(ESC) =~= esc);
    assert(none + none =~= none);
    assert(none + held =~= held);
    assert(mouse_scan(start, none) == start);
    assert(mouse_scan(fresh, none) == fresh);
    let s = held.push(ESC);
    assert(s[s.len() - 1] == ESC);
    assert(mouse_scan(fresh, esc) =~= (MouseScan { held: esc, ..fresh }));
    assert(mouse_scan(start, esc) =~= (MouseScan { out: held, events: Seq::empty(), held: esc }));
    lemma_mouse_scan_concat(start, esc, rest);
    lemma_mouse_scan_concat(fresh, esc, rest);
    lemma_mouse_scan_prepends(held, Seq::empty(), esc, rest);
    let r = read_mouse(Seq::empty(), input);
    assert(Seq::<AppEvent>::empty() + r.events =~= r.events);
}

proof fn lemma_report_body_is_held(params: Seq<u8>)
    requires
        forall|i: int|
            0 <= i < params.len() ==> (#[trigger] params[i]) != SGR_PRESS && params[i]
                != SGR_RELEASE,
    ensures
        ({
            let body = seq![ESC, CSI_OPEN, SGR_MARKER] + params;
            &&& unfinished_report(body)
            &&& read_mouse(Seq::empty(), body) == (MouseScan {
                out: Seq::empty(),
                events: Seq::empty(),
                held: body,
            })
        }),
    decreases params.len(),
{
    let head = seq![ESC, CSI_OPEN, SGR_MARKER];
    let body = head + params;
    let none = MouseScan { out: Seq::empty(), events: Seq::empty(), held: Seq::empty() };
    if params.len() == 0 {
        assert(body =~= head);
        let one = seq![ESC];
        let two = seq![ESC, CSI_OPEN];
        assert(head.drop_last() =~= two);
        assert(two.drop_last() =~= one);
        assert(one.drop_last() =~= Seq::empty());
        assert(Seq::<u8>::empty().push(ESC) =~= one);
        assert(one.push(CSI_OPEN) =~= two);
        assert(two.push(SGR_MARKER) =~= head);
        assert(mouse_scan(none, Seq::empty()) == none);
        assert(mouse_scan(none, one) =~= MouseScan { held: one, ..none });
        assert(mouse_scan(none, two) =~= MouseScan { held: two, ..none });
        assert(mouse_scan(none, head) =~= MouseScan { held: head, ..none });
    } else {
        lemma_report_body_is_held(params.drop_last());
        let prior = head + params.drop_last();
        assert(body.drop_last() =~= prior);
        assert(prior.push(params.last()) =~= body);
        assert forall|i: int| 3 <= i < body.len() implies (#[trigger] body[i]) != SGR_PRESS
            && body[i] != SGR_RELEASE by {
            assert(body[i] == params[i - 3]);
        }
        assert(unfinished_report(body));
        assert(mouse_scan(none, body) =~= MouseScan { held: body, ..none });
    }
}

} // verus!
