//! The terminal emulator behind the pty tile.
//!
//! Emulation is `vt100`'s. What the library knows of an emulator is what it
//! has been given since it was made; what the screen then shows is the
//! crate's answer to that.

use vstd::prelude::*;

use crate::input::{CSI_OPEN, ESC};

verus! {

/// Something an emulator was given.
pub ghost enum PtyInput {
    /// It was made with this size and this many rows of scrollback.
    Start { rows: u16, cols: u16, scrollback: usize },
    /// Output of the pane's process.
    Bytes(Seq<u8>),
    /// A new size.
    Resize { rows: u16, cols: u16 },
    /// A copy of the screen of an emulator that had been given this.
    Screen(Seq<PtyInput>),
}

/// A `vt100::Parser` and the screen it keeps.
#[verifier::external_body]
pub struct PtyTerminal {
    parser: vt100::Parser,
}

/// Everything the emulator was given, oldest first.
pub uninterp spec fn pty_fed(t: PtyTerminal) -> Seq<PtyInput>;

impl View for PtyTerminal {
    type V = Seq<PtyInput>;

    open spec fn view(&self) -> Seq<PtyInput> {
        pty_fed(*self)
    }
}

/// The size an emulator has after `fed`: rows, then columns.
pub open spec fn pty_size(fed: Seq<PtyInput>) -> (u16, u16)
    decreases fed,
{
    if fed.len() == 0 {
        (0, 0)
    } else {
        match fed.last() {
            PtyInput::Start { rows, cols, .. } => (rows, cols),
            PtyInput::Resize { rows, cols } => (rows, cols),
            PtyInput::Bytes(_) => pty_size(fed.drop_last()),
            PtyInput::Screen(other) => pty_size(other),
        }
    }
}

/// Most columns that a screen can have: the tab stop behind them is still a
/// column number.
pub const MAX_PTY_COLS: u16 = 65_527;

/// The emulator can write to a screen of this size: there is a row to wrap
/// to, and room for the widest character and for every tab stop.
pub open spec fn usable_size(rows: u16, cols: u16) -> bool {
    rows >= 2 && 3 <= cols <= MAX_PTY_COLS
}

/// The emulator can write to its screen.
pub open spec fn pty_usable(fed: Seq<PtyInput>) -> bool {
    usable_size(pty_size(fed).0, pty_size(fed).1)
}

/// A colour of a terminal cell.
#[derive(Debug, Clone, Copy, PartialEq, Eq, Structural)]
pub enum TermColor {
    Default,
    Idx(u8),
    Rgb(u8, u8, u8),
}

/// A terminal cell.
#[derive(Debug, Clone)]
pub struct PtyCell {
    pub contents: String,
    pub fg: TermColor,
    pub bg: TermColor,
    pub bold: bool,
    pub italic: bool,
    pub underline: bool,
    pub inverse: bool,
    /// The first half of a double-width character.
    pub wide: bool,
    /// The second half of a double-width character.
    pub continuation: bool,
}

/// [`PtyCell`] with its contents as a sequence of characters.
#[verifier::ext_equal]
pub ghost struct PtyCellView {
    pub contents: Seq<char>,
    pub fg: TermColor,
    pub bg: TermColor,
    pub bold: bool,
    pub italic: bool,
    pub underline: bool,
    pub inverse: bool,
    /// The first half of a double-width character.
    pub wide: bool,
    /// The second half of a double-width character.
    pub continuation: bool,
}

impl View for PtyCell {
    type V = PtyCellView;

    open spec fn view(&self) -> PtyCellView {
        PtyCellView {
            contents: self.contents@,
            fg: self.fg,
            bg: self.bg,
            bold: self.bold,
            italic: self.italic,
            underline: self.underline,
            inverse: self.inverse,
            wide: self.wide,
            continuation: self.continuation,
        }
    }
}

/// The cell at row `row` and column `col` of the screen after `fed`.
pub uninterp spec fn pty_cell(fed: Seq<PtyInput>, row: u16, col: u16) -> Option<PtyCellView>;

/// Row and column of the cursor after `fed`.
pub uninterp spec fn pty_cursor(fed: Seq<PtyInput>) -> (u16, u16);

/// Whether the cursor is hidden after `fed`.
pub uninterp spec fn pty_cursor_hidden(fed: Seq<PtyInput>) -> bool;

/// Whether the alternate one of the two screens is in view after `fed`.
pub uninterp spec fn pty_alternate(fed: Seq<PtyInput>) -> bool;

/// The crate can be given `bytes` after `fed`: it does not panic on them.
pub uninterp spec fn pty_takes(fed: Seq<PtyInput>, bytes: Seq<u8>) -> bool;

/// The cell is no half of a double-width character without the other half
/// beside it.
pub open spec fn cell_is_whole(fed: Seq<PtyInput>, row: u16, col: u16) -> bool {
    let cell = pty_cell(fed, row, col)->0;
    &&& cell.wide ==> col + 1 < pty_size(fed).1 && pty_cell(
        fed,
        row,
        (col + 1) as u16,
    )->0.continuation
    &&& cell.continuation ==> col >= 1 && pty_cell(fed, row, (col - 1) as u16)->0.wide
}

/// No half of a double-width character stands alone on the screen in view.
pub open spec fn view_is_whole(fed: Seq<PtyInput>) -> bool {
    forall|row: u16, col: u16|
        row < pty_size(fed).0 && col < pty_size(fed).1 ==> #[trigger] cell_is_whole(fed, row, col)
}

/// `CSI ? 47 l` or `CSI ? 47 h`: brings the other screen into view.
pub open spec fn turn_over(alternate: bool) -> Seq<u8> {
    seq![
        ESC,
        CSI_OPEN,
        0x3fu8,
        0x34u8,
        0x37u8,
        if alternate {
            0x6cu8
        } else {
            0x68u8
        },
    ]
}

/// A new emulator with a copy of another one's screen: it is not in the
/// middle of an escape sequence or of a character.
pub open spec fn is_copy(fed: Seq<PtyInput>) -> bool {
    fed.len() == 2 && fed[0] is Start && fed[1] is Screen
}

/// A new emulator with a copy of the screen after `fed`.
pub open spec fn copied(fed: Seq<PtyInput>) -> Seq<PtyInput> {
    seq![
        PtyInput::Start { rows: pty_size(fed).0, cols: pty_size(fed).1, scrollback: 0 },
        PtyInput::Screen(fed),
    ]
}

/// A copy with the other screen in view.
pub open spec fn turned(fed: Seq<PtyInput>) -> Seq<PtyInput> {
    copied(fed).push(PtyInput::Bytes(turn_over(pty_alternate(copied(fed)))))
}

/// No half of a double-width character stands alone on either screen.
/// Narrowing can cut a character in two; nothing else does.
pub open spec fn pty_whole(fed: Seq<PtyInput>) -> bool {
    view_is_whole(fed) && view_is_whole(turned(fed))
}

impl PtyTerminal {
    /// `vt100::Parser::new`: an emulator that was given its size and nothing
    /// else. The crate needs at least one row. The screens are blank.
    #[verifier::external_body]
    pub(crate) fn new(rows: u16, cols: u16, scrollback: usize) -> (t: PtyTerminal)
        requires
            rows >= 1,
        ensures
            pty_fed(t) == seq![PtyInput::Start { rows, cols, scrollback }],
            pty_whole(pty_fed(t)),
    {
        PtyTerminal { parser: vt100::Parser::new(rows, cols, scrollback) }
    }

    /// `vt100::Parser::process`: the emulator was given the bytes. The crate
    /// cannot wrap on a screen of one row, place the widest character on one
    /// of two columns, or compute a tab stop beyond the last column number, so
    /// such screens are left out. It panics where it overwrites or erases half
    /// of a double-width character that stands alone: there has to be none, or
    /// the crate has to get along with these bytes. Writing, erasing,
    /// inserting and deleting keep the halves together.
    #[verifier::external_body]
    pub(crate) fn process(&mut self, bytes: &[u8])
        requires
            pty_usable(pty_fed(*old(self))),
            pty_whole(pty_fed(*old(self))) || pty_takes(pty_fed(*old(self)), bytes@),
        ensures
            pty_fed(*final(self)) == pty_fed(*old(self)).push(PtyInput::Bytes(bytes@)),
            pty_whole(pty_fed(*old(self))) ==> pty_whole(pty_fed(*final(self))),
    {
        self.parser.process(bytes);
    }

    /// `vt100::Screen::set_size`: the emulator was given a new size. The
    /// crate needs at least one row and one column. It cuts columns off
    /// without a look at what is in them; without that, what was whole stays
    /// whole.
    #[verifier::external_body]
    pub(crate) fn set_size(&mut self, rows: u16, cols: u16)
        requires
            rows >= 1,
            cols >= 1,
            pty_usable(pty_fed(*old(self))),
        ensures
            pty_fed(*final(self)) == pty_fed(*old(self)).push(PtyInput::Resize { rows, cols }),
            pty_whole(pty_fed(*old(self))) && cols >= pty_size(pty_fed(*old(self))).1 ==> pty_whole(
                pty_fed(*final(self)),
            ),
    {
        self.parser.screen_mut().set_size(rows, cols);
    }

    /// `vt100::Screen::clone`: the emulator was given a copy of another one's
    /// screen. Where it is new, the other screen can be brought into view:
    /// that draws nothing.
    #[verifier::external_body]
    pub(crate) fn copy_screen(&mut self, from: &PtyTerminal)
        ensures
            pty_fed(*final(self)) == pty_fed(*old(self)).push(PtyInput::Screen(pty_fed(*from))),
            is_copy(pty_fed(*final(self))) ==> forall|alternate: bool|
                pty_takes(pty_fed(*final(self)), #[trigger] turn_over(alternate)),
    {
        *self.parser.screen_mut() = from.parser.screen().clone();
    }

    /// A copy with the other screen in view.
    fn turn(&self) -> (t: PtyTerminal)
        requires
            pty_usable(self@),
        ensures
            t@ == turned(self@),
    {
        let (rows, cols) = self.size();
        let mut t = PtyTerminal::new(rows, cols, 0);
        t.copy_screen(self);
        assert(t@ =~= copied(self@));
        let alternate: bool = t.alternate_screen();
        let mut bytes: Vec<u8> = Vec::new();
        bytes.push(ESC);
        bytes.push(CSI_OPEN);
        bytes.push(0x3f);
        bytes.push(0x34);
        bytes.push(0x37);
        bytes.push(
            if alternate {
                0x6c
            } else {
                0x68
            },
        );
        assert(bytes@ =~= turn_over(alternate));
        t.process(bytes.as_slice());
        t
    }

    /// Whether no half of a double-width character stands alone on the screen
    /// in view.
    fn shows_whole(&self) -> (r: bool)
        ensures
            r == view_is_whole(self@),
    {
        let (rows, cols) = self.size();
        let ghost fed = self@;
        let mut row: u16 = 0;
        while row < rows
            invariant
                fed == self@,
                (rows, cols) == pty_size(fed),
                row <= rows,
                forall|r: u16, c: u16|
                    r < row && c < cols ==> #[trigger] cell_is_whole(fed, r, c),
            decreases rows - row,
        {
            let mut col: u16 = 0;
            let mut open: bool = false;
            while col < cols
                invariant
                    fed == self@,
                    (rows, cols) == pty_size(fed),
                    row < rows,
                    col <= cols,
                    open == (col > 0 && pty_cell(fed, row, (col - 1) as u16)->0.wide),
                    forall|r: u16, c: u16|
                        r < row && c < cols ==> #[trigger] cell_is_whole(fed, r, c),
                    forall|c: u16|
                        c + 1 < col ==> #[trigger] cell_is_whole(fed, row, c),
                    col > 0 && !open ==> cell_is_whole(fed, row, (col - 1) as u16),
                    col > 0 && pty_cell(fed, row, (col - 1) as u16)->0.continuation ==> col >= 2
                        && pty_cell(fed, row, (col - 2) as u16)->0.wide,
                decreases cols - col,
            {
                if let Some(cell) = self.cell(row, col) {
                    let here = cell;
                    if here.continuation != open {
                        proof {
                            if open {
                                assert(!cell_is_whole(fed, row, (col - 1) as u16));
                            } else {
                                assert(!cell_is_whole(fed, row, col));
                            }
                        }
                        return false;
                    }
                    open = here.wide;
                }
                col += 1;
            }
            if open {
                assert(!cell_is_whole(fed, row, (cols - 1) as u16));
                return false;
            }
            row += 1;
        }
        true
    }

    /// Whether no half of a double-width character stands alone on either
    /// screen.
    pub fn is_whole(&self) -> (r: bool)
        requires
            pty_usable(self@),
        ensures
            r == pty_whole(self@),
    {
        self.shows_whole() && self.turn().shows_whole()
    }

    /// `vt100::Screen::size`: rows and columns last given to the emulator.
    #[verifier::external_body]
    pub(crate) fn size(&self) -> (r: (u16, u16))
        ensures
            r == pty_size(pty_fed(*self)),
    {
        self.parser.screen().size()
    }

    /// `vt100::Screen::cell`: the cell, which depends only on what the
    /// emulator was given, and exists exactly on the screen.
    #[verifier::external_body]
    pub(crate) fn read_cell(&self, row: u16, col: u16) -> (r: Option<PtyCell>)
        ensures
            (match r {
                Some(c) => Some(c@),
                None => None,
            }) == pty_cell(pty_fed(*self), row, col),
            r is Some <==> (row < pty_size(pty_fed(*self)).0 && col < pty_size(pty_fed(*self)).1),
    {
        let color = |c: vt100::Color| match c {
            vt100::Color::Default => TermColor::Default,
            vt100::Color::Idx(i) => TermColor::Idx(i),
            vt100::Color::Rgb(r, g, b) => TermColor::Rgb(r, g, b),
        };
        self.parser.screen().cell(row, col).map(|c| PtyCell {
            contents: c.contents().to_string(),
            fg: color(c.fgcolor()),
            bg: color(c.bgcolor()),
            bold: c.bold(),
            italic: c.italic(),
            underline: c.underline(),
            inverse: c.inverse(),
            wide: c.is_wide(), continuation: c.is_wide_continuation(),
        })
    }

    /// The cell at row `row` and column `col`; `None` off the screen.
    pub fn cell(&self, row: u16, col: u16) -> (r: Option<PtyCell>)
        ensures
            pty_cell(self@, row, col) == (match r {
                Some(c) => Some(c@),
                None => None,
            }),
            r is Some <==> row < pty_size(self@).0 && col < pty_size(self@).1,
    {
        self.read_cell(row, col)
    }

    /// `vt100::Screen::cursor_position`: row and column, which depend only on
    /// what the emulator was given.
    #[verifier::external_body]
    pub(crate) fn cursor_position(&self) -> (r: (u16, u16))
        ensures
            r == pty_cursor(pty_fed(*self)),
    {
        self.parser.screen().cursor_position()
    }

    /// `vt100::Screen::alternate_screen`: whether the alternate screen is in
    /// view, which depends only on what the emulator was given.
    #[verifier::external_body]
    pub(crate) fn alternate_screen(&self) -> (r: bool)
        ensures
            r == pty_alternate(pty_fed(*self)),
    {
        self.parser.screen().alternate_screen()
    }

    /// `vt100::Screen::hide_cursor`: whether the cursor is hidden, which
    /// depends only on what the emulator was given.
    #[verifier::external_body]
    pub(crate) fn hide_cursor(&self) -> (r: bool)
        ensures
            r == pty_cursor_hidden(pty_fed(*self)),
    {
        self.parser.screen().hide_cursor()
    }
}

/// A pane with its own emulator.
pub struct PaneEntry {
    pub pane_id: u64,
    pub sub_id: u64,
    pub label: String,
    pub parser: PtyTerminal,
}

impl PaneEntry {
    /// A pane of the given size that has shown nothing yet.
    pub fn new(
        pane_id: u64,
        sub_id: u64,
        label: String,
        rows: u16,
        cols: u16,
        scrollback: usize,
    ) -> (p: PaneEntry)
        requires
            rows >= 1,
        ensures
            p.pane_id == pane_id,
            p.sub_id == sub_id,
            p.label == label,
            p.parser@ == seq![PtyInput::Start { rows, cols, scrollback }],
            pty_whole(p.parser@),
    {
        PaneEntry { pane_id, sub_id, label, parser: PtyTerminal::new(rows, cols, scrollback) }
    }

    /// Hands output of the pane's process to its emulator.
    pub fn output(&mut self, bytes: &[u8])
        requires
            pty_usable(old(self).parser@),
            pty_whole(old(self).parser@) || pty_takes(old(self).parser@, bytes@),
        ensures
            *final(self) == (PaneEntry { parser: final(self).parser, ..*old(self) }),
            final(self).parser@ == old(self).parser@.push(PtyInput::Bytes(bytes@)),
            pty_whole(old(self).parser@) ==> pty_whole(final(self).parser@),
    {
        self.parser.process(bytes);
    }
}

} // verus!
