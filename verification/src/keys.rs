//! Keys inside a scope tile.
//!
//! The parser's state is the sequence of bytes it is holding back: the
//! start of an escape sequence that a later chunk may finish.

use vstd::prelude::*;

use crate::input::{CSI_OPEN, ESC};

verus! {

/// A key as a scope tile understands it.
#[derive(Debug, Clone, Copy, PartialEq, Eq, Structural)]
pub enum ScopeKey {
    Up,
    Down,
    Top,
    Bottom,
    Home,
    End,
    PgUp,
    PgDn,
    FilterStart,
    Escape,
    Enter,
    Backspace,
    Char(u8),
}

/// The key of a byte outside escape sequences.
pub open spec fn plain_key(b: u8) -> ScopeKey {
    if b == 0x7f || b == 0x08 {
        ScopeKey::Backspace
    } else if b == 0x0a || b == 0x0d {
        ScopeKey::Enter
    } else {
        ScopeKey::Char(b)
    }
}

/// `b` continues the parameters of a control sequence.
pub open spec fn is_key_param(b: u8) -> bool {
    0x30 <= b <= 0x39 || b == 0x3b
}

/// The key of the control sequence with the given parameters and final byte.
/// Horizontal arrows and unknown sequences are no key.
pub open spec fn csi_key(params: Seq<u8>, last: u8) -> Option<ScopeKey> {
    if last == 0x41 {
        Some(ScopeKey::Up)
    } else if last == 0x42 {
        Some(ScopeKey::Down)
    } else if last == 0x48 {
        Some(ScopeKey::Home)
    } else if last == 0x46 {
        Some(ScopeKey::End)
    } else if last == 0x7e && params.len() == 1 {
        match params[0] {
            0x31 | 0x37 => Some(ScopeKey::Home),
            0x34 | 0x38 => Some(ScopeKey::End),
            0x35 => Some(ScopeKey::PgUp),
            0x36 => Some(ScopeKey::PgDn),
            _ => None,
        }
    } else {
        None
    }
}

/// Keys read so far, and the bytes held back.
#[verifier::ext_equal]
pub ghost struct KeyScan {
    pub keys: Seq<ScopeKey>,
    pub held: Seq<u8>,
}

/// What one more byte does to a scan.
pub open spec fn key_step(scan: KeyScan, b: u8) -> KeyScan {
    let keys = scan.keys;
    let held = scan.held;
    if held.len() == 0 {
        if b == ESC {
            KeyScan { keys, held: seq![ESC] }
        } else {
            KeyScan { keys: keys.push(plain_key(b)), held }
        }
    } else if held.len() == 1 {
        if b == CSI_OPEN {
            KeyScan { keys, held: seq![ESC, CSI_OPEN] }
        } else if b == ESC {
            KeyScan { keys: keys.push(ScopeKey::Escape), held }
        } else {
            KeyScan {
                keys: keys.push(ScopeKey::Escape).push(plain_key(b)),
                held: Seq::empty(),
            }
        }
    } else if is_key_param(b) {
        KeyScan { keys, held: held.push(b) }
    } else {
        KeyScan {
            keys: match csi_key(held.skip(2), b) {
                Some(key) => keys.push(key),
                None => keys,
            },
            held: Seq::empty(),
        }
    }
}

/// What a run of bytes does to a scan.
pub open spec fn key_scan(scan: KeyScan, bytes: Seq<u8>) -> KeyScan
    decreases bytes.len(),
{
    if bytes.len() == 0 {
        scan
    } else {
        key_step(key_scan(scan, bytes.drop_last()), bytes.last())
    }
}

/// An `ESC` that ends a chunk is the Escape key.
pub open spec fn end_of_chunk(scan: KeyScan) -> KeyScan {
    if scan.held.len() == 1 {
        KeyScan { keys: scan.keys.push(ScopeKey::Escape), held: Seq::empty() }
    } else {
        scan
    }
}

/// Reads a chunk of bytes with `held` held back.
pub open spec fn read_keys(held: Seq<u8>, bytes: Seq<u8>) -> KeyScan {
    end_of_chunk(key_scan(KeyScan { keys: Seq::empty(), held }, bytes))
}

fn plain(b: u8) -> (k: ScopeKey)
    ensures
        k == plain_key(b),
{
    match b {
        0x7f | 0x08 => ScopeKey::Backspace,
        0x0a | 0x0d => ScopeKey::Enter,
        other => ScopeKey::Char(other),
    }
}

fn csi(held: &Vec<u8>, last: u8) -> (k: Option<ScopeKey>)
    requires
        held@.len() >= 2,
    ensures
        k == csi_key(held@.skip(2), last),
{
    match last {
        0x41 => Some(ScopeKey::Up),
        0x42 => Some(ScopeKey::Down),
        0x48 => Some(ScopeKey::Home),
        0x46 => Some(ScopeKey::End),
        0x7e => {
            if held.len() == 3 {
                match held[2] {
                    0x31 | 0x37 => Some(ScopeKey::Home),
                    0x34 | 0x38 => Some(ScopeKey::End),
                    0x35 => Some(ScopeKey::PgUp),
                    0x36 => Some(ScopeKey::PgDn),
                    _ => None,
                }
            } else {
                None
            }
        },
        _ => None,
    }
}

/// Turns stdin bytes into [`ScopeKey`]s. Control sequences may span chunks.
#[derive(Debug)]
pub struct ScopeKeyParser {
    held: Vec<u8>,
}

impl View for ScopeKeyParser {
    type V = Seq<u8>;

    closed spec fn view(&self) -> Seq<u8> {
        self.held@
    }
}

impl Default for ScopeKeyParser {
    fn default() -> (p: ScopeKeyParser)
        ensures
            p@ == Seq::<u8>::empty(),
    {
        ScopeKeyParser { held: Vec::new() }
    }
}

impl ScopeKeyParser {
    /// Reads a chunk. An `ESC` at its end counts as the Escape key.
    pub fn parse(&mut self, bytes: &[u8]) -> (keys: Vec<ScopeKey>)
        ensures
            keys@ == read_keys(old(self)@, bytes@).keys,
            final(self)@ == read_keys(old(self)@, bytes@).held,
            final(self)@.len() != 1,
    {
        let mut out: Vec<ScopeKey> = Vec::new();
        let ghost start = KeyScan { keys: Seq::empty(), held: self@ };
        let mut i: usize = 0;
        let n: usize = bytes.len();
        assert(bytes@.take(0) =~= Seq::empty());
        while i < n
            invariant
                n == bytes@.len(),
                0 <= i <= n,
                start == (KeyScan { keys: Seq::empty(), held: old(self)@ }),
                key_scan(start, bytes@.take(i as int)) == (KeyScan { keys: out@, held: self@ }),
            decreases n - i,
        {
            let b: u8 = bytes[i];
            proof {
                assert(bytes@.take(i as int + 1).drop_last() =~= bytes@.take(i as int));
            }
            let ghost was = KeyScan { keys: out@, held: self@ };
            if self.held.len() == 0 {
                if b == ESC {
                    self.held.push(ESC);
                } else {
                    out.push(plain(b));
                }
            } else if self.held.len() == 1 {
                if b == CSI_OPEN {
                    self.held.clear();
                    self.held.push(ESC);
                    self.held.push(CSI_OPEN);
                } else {
                    out.push(ScopeKey::Escape);
                    if b != ESC {
                        self.held.clear();
                        out.push(plain(b));
                    }
                }
            } else if (0x30 <= b && b <= 0x39) || b == 0x3b {
                self.held.push(b);
            } else {
                match csi(&self.held, b) {
                    Some(key) => {
                        out.push(key);
                    },
                    None => {},
                }
                self.held.clear();
            }
            assert(key_step(was, b) =~= (KeyScan { keys: out@, held: self@ }));
            i += 1;
        }
        assert(bytes@.take(n as int) =~= bytes@);
        if self.held.len() == 1 {
            out.push(ScopeKey::Escape);
            self.held.clear();
            assert(self@ =~= Seq::empty());
        }
        out
    }
}

proof fn lemma_key_scan_concat(scan: KeyScan, a: Seq<u8>, b: Seq<u8>)
    ensures
        key_scan(scan, a + b) == key_scan(key_scan(scan, a), b),
    decreases b.len(),
{
    if b.len() == 0 {
        assert(a + b =~= a);
    } else {
        lemma_key_scan_concat(scan, a, b.drop_last());
        assert((a + b).drop_last() =~= a + b.drop_last());
    }
}

proof fn lemma_key_scan_prepends(keys: Seq<ScopeKey>, held: Seq<u8>, bytes: Seq<u8>)
    ensures
        key_scan(KeyScan { keys, held }, bytes) == (KeyScan {
            keys: keys + key_scan(KeyScan { keys: Seq::empty(), held }, bytes).keys,
            held: key_scan(KeyScan { keys: Seq::empty(), held }, bytes).held,
        }),
    decreases bytes.len(),
{
    if bytes.len() > 0 {
        lemma_key_scan_prepends(keys, held, bytes.drop_last());
    }
    assert(key_scan(KeyScan { keys, held }, bytes) =~= (KeyScan {
        keys: keys + key_scan(KeyScan { keys: Seq::empty(), held }, bytes).keys,
        held: key_scan(KeyScan { keys: Seq::empty(), held }, bytes).held,
    }));
}

proof fn lemma_single_held_is_esc(scan: KeyScan, bytes: Seq<u8>)
    requires
        scan.held.len() != 1,
    ensures
        key_scan(scan, bytes).held.len() == 1 ==> key_scan(scan, bytes).held == seq![ESC],
    decreases bytes.len(),
{
    if bytes.len() > 0 {
        lemma_single_held_is_esc(scan, bytes.drop_last());
    }
}

/// Where a chunk is cut does not matter, unless the cut falls between an
/// undecided `ESC` and a `[`: reading two chunks gives the keys of reading
/// them as one. Between chunks no single byte is held back.
pub proof fn key_chunks_may_be_split(held: Seq<u8>, a: Seq<u8>, b: Seq<u8>)
    requires
        held.len() != 1,
        !(key_scan(KeyScan { keys: Seq::empty(), held }, a).held.len() == 1 && b.len() > 0
            && b[0] == CSI_OPEN),
    ensures
        read_keys(held, a + b).keys == read_keys(held, a).keys + read_keys(
            read_keys(held, a).held,
            b,
        ).keys,
        read_keys(held, a + b).held == read_keys(read_keys(held, a).held, b).held,
{
    let start = KeyScan { keys: Seq::empty(), held };
    let first = end_of_chunk(key_scan(start, a));
    lemma_key_scan_concat(start, a, b);
    lemma_single_held_is_esc(start, a);
    if key_scan(start, a).held.len() == 1 && b.len() > 0 {
        let head = seq![b[0]];
        assert(head + b.drop_first() =~= b);
        lemma_key_scan_concat(key_scan(start, a), head, b.drop_first());
        lemma_key_scan_concat(first, head, b.drop_first());
        assert(head.drop_last() =~= Seq::empty());
        reveal_with_fuel(key_scan, 2);
        assert(key_scan(key_scan(start, a), head) =~= key_scan(first, head));
    }
    lemma_key_scan_prepends(first.keys, first.held, b);
    let second = key_scan(KeyScan { keys: Seq::empty(), held: first.held }, b);
    assert(first.keys + second.keys.push(ScopeKey::Escape) =~= (first.keys + second.keys).push(
        ScopeKey::Escape,
    ));
    assert(read_keys(held, a + b).keys =~= first.keys + read_keys(first.held, b).keys);
}

/// Bytes other than `ESC` are one key each.
pub proof fn plain_bytes_are_keys(bytes: Seq<u8>)
    requires
        forall|i: int| 0 <= i < bytes.len() ==> (#[trigger] bytes[i]) != ESC,
    ensures
        read_keys(Seq::empty(), bytes).keys == bytes.map_values(|b: u8| plain_key(b)),
        read_keys(Seq::empty(), bytes).held == Seq::<u8>::empty(),
    decreases bytes.len(),
{
    if bytes.len() > 0 {
        plain_bytes_are_keys(bytes.drop_last());
        assert(bytes.drop_last().push(bytes.last()) =~= bytes);
    }
    assert(read_keys(Seq::empty(), bytes).keys =~= bytes.map_values(|b: u8| plain_key(b)));
}

proof fn lemma_key_scan_count(scan: KeyScan, bytes: Seq<u8>)
    ensures
        key_scan(scan, bytes).keys.len() <= scan.keys.len() + 2 * bytes.len(),
    decreases bytes.len(),
{
    if bytes.len() > 0 {
        lemma_key_scan_count(scan, bytes.drop_last());
    }
}

/// A chunk holds at most two keys per byte, and one more at its end.
pub proof fn key_count(held: Seq<u8>, bytes: Seq<u8>)
    ensures
        read_keys(held, bytes).keys.len() <= 2 * bytes.len() + 1,
{
    lemma_key_scan_count(KeyScan { keys: Seq::empty(), held }, bytes);
}

} // verus!
