//! The emulator's size.

use vstd::prelude::*;

use crate::pty::{copied, is_copy, pty_size, turn_over, usable_size, PtyInput};

verus! {

/// An emulator has the size that it was last given; output does not change it.
pub proof fn the_last_size_counts(
    fed: Seq<PtyInput>,
    rows: u16,
    cols: u16,
    scrollback: usize,
    data: Seq<u8>,
)
    ensures
        pty_size(fed.push(PtyInput::Start { rows, cols, scrollback })) == (rows, cols),
        pty_size(fed.push(PtyInput::Resize { rows, cols })) == (rows, cols),
        pty_size(fed.push(PtyInput::Bytes(data))) == pty_size(fed),
{
    assert(fed.push(PtyInput::Bytes(data)).drop_last() =~= fed);
}

/// A copy of an emulator has its size, and nothing else was given to it.
pub proof fn copies_have_the_same_size(fed: Seq<PtyInput>)
    ensures
        pty_size(copied(fed)) == pty_size(fed),
        is_copy(copied(fed)),
{
}

/// Screens of two rows and three columns or more can be written to, up to
/// 65527 columns.
pub proof fn sizes_that_can_be_written_to(rows: u16, cols: u16)
    ensures
        usable_size(rows, cols) <==> rows >= 2 && cols >= 3 && cols <= 65_527,
{
}

/// The other of the two screens is brought into view by `ESC [ ? 47 l` or
/// `ESC [ ? 47 h`.
pub proof fn screens_are_turned_over()
    ensures
        turn_over(true) == seq![0x1bu8, 0x5bu8, 0x3fu8, 0x34u8, 0x37u8, 0x6cu8],
        turn_over(false) == seq![0x1bu8, 0x5bu8, 0x3fu8, 0x34u8, 0x37u8, 0x68u8],
{
}

} // verus!
