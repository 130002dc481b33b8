//! Stdin byte filter: recognises the keybind surface and lets everything
//! else flow on to the focused tile.
//!
//! Bindings: `Tab` and `Shift-Tab` cycle tile focus, `Ctrl-b d` detaches,
//! `Ctrl-b ?` asks for help, `Ctrl-b &` closes the active pane, and
//! `Ctrl-b` with `h`/`j`/`k`/`l` or an arrow key moves focus in that
//! direction.
//!
//! The filter's whole state is the sequence of bytes it is holding back:
//! bytes that began like a binding or a control sequence and whose end has
//! not arrived yet. Each byte extends that sequence, which then is a
//! binding, or is still incomplete, or is forwarded as it stands.
//!
//! An isolated `ESC` must reach a shell or editor at once. So a bare `ESC`
//! is held only if `[` follows it in the same chunk.

use vstd::prelude::*;

use crate::geometry::FocusDir;

verus! {

pub const PREFIX_BYTE: u8 = 0x02;

pub const TAB: u8 = 0x09;

pub const ESC: u8 = 0x1b;

pub const CSI_OPEN: u8 = 0x5b;

/// What a chunk of input amounts to.
#[derive(Debug, PartialEq, Eq)]
pub enum InputAction {
    /// Bytes for the focused tile.
    Forward(Vec<u8>),
    /// `Ctrl-b d`.
    Detach,
    /// `Ctrl-b` with `h`/`j`/`k`/`l` or an arrow key.
    FocusDirection(FocusDir),
    /// `Tab`.
    FocusNext,
    /// `Shift-Tab`, which arrives as `ESC [ Z`.
    FocusPrev,
    /// `Ctrl-b ?`.
    Help,
    /// `Ctrl-b &`.
    PaneClose,
}

/// [`InputAction`] with the forwarded bytes as a sequence.
#[verifier::ext_equal]
pub ghost enum InputActionView {
    Forward(Seq<u8>),
    Detach,
    FocusDirection(FocusDir),
    FocusNext,
    FocusPrev,
    Help,
    PaneClose,
}

impl View for InputAction {
    type V = InputActionView;

    open spec fn view(&self) -> InputActionView {
        match self {
            InputAction::Forward(bytes) => InputActionView::Forward(bytes@),
            InputAction::Detach => InputActionView::Detach,
            InputAction::FocusDirection(dir) => InputActionView::FocusDirection(*dir),
            InputAction::FocusNext => InputActionView::FocusNext,
            InputAction::FocusPrev => InputActionView::FocusPrev,
            InputAction::Help => InputActionView::Help,
            InputAction::PaneClose => InputActionView::PaneClose,
        }
    }
}

/// The views of a list of actions.
pub open spec fn action_views(actions: Seq<InputAction>) -> Seq<InputActionView> {
    actions.map_values(|a: InputAction| a@)
}

/// `b` ends a control sequence.
pub open spec fn spec_is_csi_final(b: u8) -> bool {
    0x40 <= b <= 0x7e
}

/// `b` is a parameter or intermediate byte of a control sequence.
pub open spec fn spec_is_csi_param_or_intermediate(b: u8) -> bool {
    0x20 <= b <= 0x3f
}

/// ECMA-48 CSI final byte range.
pub fn is_csi_final(b: u8) -> (r: bool)
    ensures
        r == spec_is_csi_final(b),
{
    0x40 <= b && b <= 0x7e
}

/// ECMA-48 CSI parameter or intermediate byte range.
pub fn is_csi_param_or_intermediate(b: u8) -> (r: bool)
    ensures
        r == spec_is_csi_param_or_intermediate(b),
{
    0x20 <= b && b <= 0x3f
}

/// The control action that the byte sequence `s` spells, if it spells one.
pub open spec fn binding(s: Seq<u8>) -> Option<InputActionView> {
    if s == seq![TAB] {
        Some(InputActionView::FocusNext)
    } else if s == seq![PREFIX_BYTE, 0x64u8] {
        Some(InputActionView::Detach)
    } else if s == seq![PREFIX_BYTE, 0x68u8] || s == seq![PREFIX_BYTE, ESC, CSI_OPEN, 0x44u8] {
        Some(InputActionView::FocusDirection(FocusDir::Left))
    } else if s == seq![PREFIX_BYTE, 0x6au8] || s == seq![PREFIX_BYTE, ESC, CSI_OPEN, 0x42u8] {
        Some(InputActionView::FocusDirection(FocusDir::Down))
    } else if s == seq![PREFIX_BYTE, 0x6bu8] || s == seq![PREFIX_BYTE, ESC, CSI_OPEN, 0x41u8] {
        Some(InputActionView::FocusDirection(FocusDir::Up))
    } else if s == seq![PREFIX_BYTE, 0x6cu8] || s == seq![PREFIX_BYTE, ESC, CSI_OPEN, 0x43u8] {
        Some(InputActionView::FocusDirection(FocusDir::Right))
    } else if s == seq![PREFIX_BYTE, 0x3fu8] {
        Some(InputActionView::Help)
    } else if s == seq![PREFIX_BYTE, 0x26u8] {
        Some(InputActionView::PaneClose)
    } else if s == seq![ESC, CSI_OPEN, 0x5au8] {
        Some(InputActionView::FocusPrev)
    } else {
        None
    }
}

/// `s` is `ESC [` followed by parameter and intermediate bytes alone.
pub open spec fn open_csi(s: Seq<u8>) -> bool {
    &&& s.len() >= 2
    &&& s[0] == ESC
    &&& s[1] == CSI_OPEN
    &&& forall|i: int| 2 <= i < s.len() ==> spec_is_csi_param_or_intermediate(#[trigger] s[i])
}

/// `s` may still grow into a binding or a complete control sequence, so it
/// is held back across chunks.
pub open spec fn held_across(s: Seq<u8>) -> bool {
    ||| s == seq![PREFIX_BYTE]
    ||| s == seq![PREFIX_BYTE, ESC]
    ||| s == seq![PREFIX_BYTE, ESC, CSI_OPEN]
    ||| open_csi(s)
}

/// `s` is held back, where `rest` is what follows it in the chunk. A bare
/// `ESC` is held only when `[` is right behind it.
pub open spec fn incomplete(s: Seq<u8>, rest: Seq<u8>) -> bool {
    ||| held_across(s)
    ||| s == seq![ESC] && rest.len() > 0 && rest[0] == CSI_OPEN
}

/// A forward action for `bytes`, unless there are none.
pub open spec fn forwarded(bytes: Seq<u8>) -> Seq<InputActionView> {
    if bytes.len() == 0 {
        Seq::empty()
    } else {
        seq![InputActionView::Forward(bytes)]
    }
}

/// What a chunk yields, and the bytes held back after it.
#[verifier::ext_equal]
pub ghost struct Filtered {
    pub actions: Seq<InputActionView>,
    pub held: Seq<u8>,
}

/// Reads `input` with `held` held back and `out` already due for forwarding.
/// A control action ends the chunk: what follows it is dropped.
pub open spec fn filter_chunk(held: Seq<u8>, out: Seq<u8>, input: Seq<u8>) -> Filtered
    decreases input.len(),
{
    if input.len() == 0 {
        Filtered { actions: forwarded(out), held }
    } else {
        let s = held.push(input[0]);
        let rest = input.drop_first();
        match binding(s) {
            Some(action) => Filtered { actions: forwarded(out).push(action), held: Seq::empty() },
            None => if incomplete(s, rest) {
                filter_chunk(s, out, rest)
            } else {
                filter_chunk(Seq::empty(), out + s, rest)
            },
        }
    }
}

/// The action that the bytes of `s` spell.
fn match_binding(s: &Vec<u8>) -> (r: Option<InputAction>)
    ensures
        match r {
            Some(a) => binding(s@) == Some(a@),
            None => binding(s@) is None,
        },
{
    let n: usize = s.len();
    proof {
        lemma_binding_by_shape(s@);
    }
    if n == 1 {
        if s[0] == TAB {
            Some(InputAction::FocusNext)
        } else {
            None
        }
    } else if n == 2 && s[0] == PREFIX_BYTE {
        match s[1] {
            0x64 => Some(InputAction::Detach),
            0x68 => Some(InputAction::FocusDirection(FocusDir::Left)),
            0x6a => Some(InputAction::FocusDirection(FocusDir::Down)),
            0x6b => Some(InputAction::FocusDirection(FocusDir::Up)),
            0x6c => Some(InputAction::FocusDirection(FocusDir::Right)),
            0x3f => Some(InputAction::Help),
            0x26 => Some(InputAction::PaneClose),
            _ => None,
        }
    } else if n == 3 && s[0] == ESC && s[1] == CSI_OPEN && s[2] == 0x5a {
        Some(InputAction::FocusPrev)
    } else if n == 4 && s[0] == PREFIX_BYTE && s[1] == ESC && s[2] == CSI_OPEN {
        match s[3] {
            0x41 => Some(InputAction::FocusDirection(FocusDir::Up)),
            0x42 => Some(InputAction::FocusDirection(FocusDir::Down)),
            0x43 => Some(InputAction::FocusDirection(FocusDir::Right)),
            0x44 => Some(InputAction::FocusDirection(FocusDir::Left)),
            _ => None,
        }
    } else {
        None
    }
}

/// [`binding`] by length and bytes.
pub proof fn lemma_binding_by_shape(s: Seq<u8>)
    ensures
        forall|a: u8| s == #[trigger] seq![a] <==> s.len() == 1 && s[0] == a,
        forall|a: u8, b: u8|
            s == #[trigger] seq![a, b] <==> s.len() == 2 && s[0] == a && s[1] == b,
        forall|a: u8, b: u8, c: u8|
            s == #[trigger] seq![a, b, c] <==> s.len() == 3 && s[0] == a && s[1] == b && s[2] == c,
        forall|a: u8, b: u8, c: u8, d: u8|
            s == #[trigger] seq![a, b, c, d] <==> s.len() == 4 && s[0] == a && s[1] == b && s[2]
                == c && s[3] == d,
{
    assert forall|a: u8| s.len() == 1 && s[0] == a implies s == #[trigger] seq![a] by {
        assert(s =~= seq![a]);
    }
    assert forall|a: u8, b: u8| s.len() == 2 && s[0] == a && s[1] == b implies s
        == #[trigger] seq![a, b] by {
        assert(s =~= seq![a, b]);
    }
    assert forall|a: u8, b: u8, c: u8|
        s.len() == 3 && s[0] == a && s[1] == b && s[2] == c implies s == #[trigger] seq![
        a,
        b,
        c,
    ] by {
        assert(s =~= seq![a, b, c]);
    }
    assert forall|a: u8, b: u8, c: u8, d: u8|
        s.len() == 4 && s[0] == a && s[1] == b && s[2] == c && s[3] == d implies s
        == #[trigger] seq![a, b, c, d] by {
        assert(s =~= seq![a, b, c, d]);
    }
}

/// Whether the bytes of `s` are held back across chunks.
fn is_held_across(s: &Vec<u8>) -> (r: bool)
    ensures
        r == held_across(s@),
{
    let n: usize = s.len();
    proof {
        lemma_binding_by_shape(s@);
    }
    if n == 0 {
        return false;
    }
    if s[0] == PREFIX_BYTE {
        return n == 1 || (n == 2 && s[1] == ESC) || (n == 3 && s[1] == ESC && s[2] == CSI_OPEN);
    }
    if n < 2 || s[0] != ESC || s[1] != CSI_OPEN {
        return false;
    }
    let mut i: usize = 2;
    while i < n
        invariant
            n == s@.len(),
            2 <= i <= n,
            s@[0] == ESC,
            forall|j: int| 2 <= j < i ==> spec_is_csi_param_or_intermediate(#[trigger] s@[j]),
        decreases n - i,
    {
        if !is_csi_param_or_intermediate(s[i]) {
            assert(s@[0] != PREFIX_BYTE);
            return false;
        }
        i += 1;
    }
    true
}

/// Splits stdin into bindings and bytes for the focused tile.
pub struct InputFilter {
    held: Vec<u8>,
}

impl View for InputFilter {
    type V = Seq<u8>;

    closed spec fn view(&self) -> Seq<u8> {
        self.held@
    }
}

impl InputFilter {
    /// Between chunks the filter holds nothing, or the start of a binding or
    /// of a control sequence.
    pub open spec fn wf(&self) -> bool {
        self@.len() == 0 || held_across(self@)
    }

    /// A filter that holds nothing back.
    pub fn new() -> (f: InputFilter)
        ensures
            f@ == Seq::<u8>::empty(),
            f.wf(),
    {
        InputFilter { held: Vec::new() }
    }

    /// How many bytes are held back.
    pub fn held_len(&self) -> (n: usize)
        ensures
            n == self@.len(),
    {
        self.held.len()
    }

    /// Processes a chunk of raw input bytes. A control action is always the
    /// last of the chunk; the bytes behind it are dropped.
    pub fn process(&mut self, input: &[u8]) -> (actions: Vec<InputAction>)
        requires
            old(self).wf(),
        ensures
            action_views(actions@) == filter_chunk(old(self)@, Seq::empty(), input@).actions,
            final(self)@ == filter_chunk(old(self)@, Seq::empty(), input@).held,
            final(self).wf(),
    {
        let mut actions: Vec<InputAction> = Vec::new();
        let mut out: Vec<u8> = Vec::new();
        let mut i: usize = 0;
        let ghost goal = filter_chunk(self@, Seq::empty(), input@);
        let n: usize = input.len();
        proof {
            assert(input@.skip(0) =~= input@);
        }
        while i < n
            invariant
                n == input@.len(),
                0 <= i <= n,
                actions@.len() == 0,
                goal == filter_chunk(old(self)@, Seq::empty(), input@),
                filter_chunk(self@, out@, input@.skip(i as int)) == goal,
                self@.len() == 0 || held_across(self@) || (self@ == seq![ESC] && i < n && input@[i as int]
                    == CSI_OPEN),
            decreases n - i,
        {
            let ghost before = self@;
            let ghost rest = input@.skip(i as int + 1);
            proof {
                assert(input@.skip(i as int).drop_first() =~= rest);
                assert(input@.skip(i as int)[0] == input@[i as int]);
                assert(rest.len() > 0 ==> rest[0] == input@[i as int + 1]);
            }
            self.held.push(input[i]);
            let ghost s = self@;
            assert(s =~= before.push(input@[i as int]));
            match match_binding(&self.held) {
                Some(action) => {
                    self.held = Vec::new();
                    assert(self@ =~= Seq::empty());
                    if out.len() > 0 {
                        actions.push(InputAction::Forward(out));
                    }
                    actions.push(action);
                    assert(action_views(actions@) =~= goal.actions);
                    return actions;
                },
                None => {
                    proof {
                        lemma_binding_by_shape(s);
                    }
                    let bare_esc: bool = self.held.len() == 1 && self.held[0] == ESC && i + 1 < n
                        && input[i + 1] == CSI_OPEN;
                    if !bare_esc && !is_held_across(&self.held) {
                        let ghost sent = out@;
                        out.append(&mut self.held);
                        assert(out@ =~= sent + s);
                        assert(self@ =~= Seq::empty());
                    }
                },
            }
            i += 1;
        }
        proof {
            lemma_binding_by_shape(self@);
            assert(input@.skip(n as int).len() == 0);
        }
        if out.len() > 0 {
            actions.push(InputAction::Forward(out));
        }
        assert(action_views(actions@) =~= goal.actions);
        actions
    }
}

/// The bytes of a list of actions that go to the focused tile.
pub open spec fn forwarded_bytes(actions: Seq<InputActionView>) -> Seq<u8>
    decreases actions.len(),
{
    if actions.len() == 0 {
        Seq::empty()
    } else {
        match actions[0] {
            InputActionView::Forward(bytes) => bytes + forwarded_bytes(actions.drop_first()),
            _ => forwarded_bytes(actions.drop_first()),
        }
    }
}

/// Every action is a forward.
pub open spec fn only_forwards(actions: Seq<InputActionView>) -> bool {
    forall|i: int| 0 <= i < actions.len() ==> (#[trigger] actions[i]) is Forward
}

/// Control actions are always the last of their chunk: a chunk yields at
/// most two actions, only the last may be a control action, and nothing is
/// held back behind one.
pub proof fn control_action_ends_chunk(held: Seq<u8>, out: Seq<u8>, input: Seq<u8>)
    ensures
        ({
            let r = filter_chunk(held, out, input);
            &&& r.actions.len() <= 2
            &&& r.actions.len() > 0 ==> only_forwards(r.actions.drop_last())
            &&& !only_forwards(r.actions) ==> r.held.len() == 0
        }),
    decreases input.len(),
{
    if input.len() > 0 {
        let s = held.push(input[0]);
        if binding(s) is None {
            if incomplete(s, input.drop_first()) {
                control_action_ends_chunk(s, out, input.drop_first());
            } else {
                control_action_ends_chunk(Seq::empty(), out + s, input.drop_first());
            }
        } else {
            assert(forwarded(out).push(binding(s)->0).drop_last() =~= forwarded(out));
        }
    }
}

/// A chunk without a control action loses nothing and reorders nothing: what
/// it forwards, then what is held back, are the bytes held before it, then
/// the chunk.
pub proof fn no_byte_is_lost(held: Seq<u8>, out: Seq<u8>, input: Seq<u8>)
    requires
        only_forwards(filter_chunk(held, out, input).actions),
    ensures
        ({
            let r = filter_chunk(held, out, input);
            forwarded_bytes(r.actions) + r.held == out + held + input
        }),
    decreases input.len(),
{
    let r = filter_chunk(held, out, input);
    if input.len() == 0 {
        if out.len() > 0 {
            assert(forwarded(out).drop_first() =~= Seq::empty());
            reveal_with_fuel(forwarded_bytes, 2);
            assert(forwarded_bytes(forwarded(out)) =~= out);
        } else {
            assert(forwarded_bytes(forwarded(out)) =~= out);
        }
        assert(out + held + input =~= out + held);
    } else {
        let s = held.push(input[0]);
        let rest = input.drop_first();
        if let Some(action) = binding(s) {
            assert(r.actions.last() == action);
            assert(r.actions[r.actions.len() - 1] is Forward);
        } else if incomplete(s, rest) {
            no_byte_is_lost(s, out, rest);
            assert(out + s + rest =~= out + held + input);
        } else {
            no_byte_is_lost(Seq::empty(), out + s, rest);
            assert((out + s) + Seq::<u8>::empty() + rest =~= out + held + input);
        }
    }
}

/// Input that holds no `Tab`, no `Ctrl-b` and no `ESC` passes through in one
/// piece, unless an earlier chunk left something held back.
pub proof fn plain_bytes_pass_through(out: Seq<u8>, input: Seq<u8>)
    requires
        forall|i: int|
            0 <= i < input.len() ==> (#[trigger] input[i]) != TAB && input[i] != PREFIX_BYTE
                && input[i] != ESC,
    ensures
        filter_chunk(Seq::empty(), out, input).actions == forwarded(out + input),
        filter_chunk(Seq::empty(), out, input).held == Seq::<u8>::empty(),
    decreases input.len(),
{
    if input.len() == 0 {
        assert(out + input =~= out);
    } else {
        let s = Seq::<u8>::empty().push(input[0]);
        lemma_binding_by_shape(s);
        plain_bytes_pass_through(out + s, input.drop_first());
        assert(out + s + input.drop_first() =~= out + input);
    }
}

/// `first` ends in an `ESC` that begins nothing that is held back.
pub open spec fn ends_in_bare_esc(held: Seq<u8>, out: Seq<u8>, first: Seq<u8>) -> bool {
    &&& first.len() > 0
    &&& first.last() == ESC
    &&& filter_chunk(held, out, first.drop_last()).held.len() == 0
}

/// A chunk may be cut anywhere but between a bare `ESC` and a `[`: if the
/// first part holds no binding, feeding the two parts one after the other
/// leaves the filter as feeding them at once does, and forwards the same
/// bytes.
pub proof fn chunks_may_be_split(held: Seq<u8>, out: Seq<u8>, first: Seq<u8>, second: Seq<u8>)
    requires
        only_forwards(filter_chunk(held, out, first).actions),
        !(ends_in_bare_esc(held, out, first) && second.len() > 0 && second[0] == CSI_OPEN),
    ensures
        filter_chunk(held, out, first + second) == filter_chunk(
            filter_chunk(held, out, first).held,
            forwarded_bytes(filter_chunk(held, out, first).actions),
            second,
        ),
    decreases first.len(),
{
    if first.len() == 0 {
        no_byte_is_lost(held, out, first);
        let r = filter_chunk(held, out, first);
        assert(forwarded_bytes(r.actions) =~= out) by {
            assert(out + held + first =~= out + held);
            assert((forwarded_bytes(r.actions) + held).len() == out.len() + held.len());
            assert forall|i: int| 0 <= i < out.len() implies forwarded_bytes(r.actions)[i]
                == out[i] by {
                assert((forwarded_bytes(r.actions) + held)[i] == (out + held)[i]);
            }
        }
        assert(first + second =~= second);
    } else {
        let whole = first + second;
        let s = held.push(first[0]);
        let rest = first.drop_first();
        let r = filter_chunk(held, out, first);
        assert(whole.drop_first() =~= rest + second);
        if let Some(action) = binding(s) {
            assert(r.actions.last() == action);
            assert(r.actions[r.actions.len() - 1] is Forward);
        } else {
            if rest.len() == 0 {
                lemma_binding_by_shape(s);
                assert(first.drop_last() =~= Seq::empty());
                assert(rest + second =~= second);
            } else {
                assert((rest + second)[0] == rest[0]);
                assert(rest.last() == first.last());
                assert(first.drop_last().drop_first() =~= rest.drop_last());
                assert(first.drop_last()[0] == first[0]);
            }
            if incomplete(s, rest) {
                chunks_may_be_split(s, out, rest, second);
            } else {
                chunks_may_be_split(Seq::empty(), out + s, rest, second);
            }
        }
    }
}

/// A chunk yields at most one forward, which comes first and holds no more
/// bytes than were held back or read.
pub proof fn chunk_shape(held: Seq<u8>, out: Seq<u8>, input: Seq<u8>)
    ensures
        ({
            let actions = filter_chunk(held, out, input).actions;
            &&& actions.len() <= 2
            &&& actions.len() == 2 ==> actions[1] !is Forward
            &&& actions.len() > 0 && actions[0] is Forward ==> actions[0]->Forward_0.len()
                <= out.len() + held.len() + input.len()
        }),
    decreases input.len(),
{
    if input.len() > 0 {
        let s = held.push(input[0]);
        if binding(s) is None {
            if incomplete(s, input.drop_first()) {
                chunk_shape(s, out, input.drop_first());
            } else {
                chunk_shape(Seq::empty(), out + s, input.drop_first());
            }
        }
    }
}

} // verus!
