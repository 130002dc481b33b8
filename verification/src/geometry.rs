//! Screen rectangles and directions.

use vstd::prelude::*;

verus! {

/// A rectangle of terminal cells. `x` and `y` are the top-left corner.
#[derive(Debug, Clone, Copy, PartialEq, Eq, Structural)]
pub struct Rect {
    pub x: u16,
    pub y: u16,
    pub width: u16,
    pub height: u16,
}

/// Direction of a focus move.
#[derive(Debug, Clone, Copy, PartialEq, Eq, Structural)]
pub enum FocusDir {
    Left,
    Right,
    Up,
    Down,
}

/// The part of a span of `len` cells starting at `at` that ends no later
/// than cell `u16::MAX`.
pub open spec fn clamp_span(at: u16, len: int) -> u16 {
    if at + len > u16::MAX {
        (u16::MAX - at) as u16
    } else {
        len as u16
    }
}

impl Rect {
    /// The first column to the right of the rectangle.
    pub open spec fn right_edge(self) -> int {
        self.x + self.width
    }

    /// The first row below the rectangle.
    pub open spec fn bottom_edge(self) -> int {
        self.y + self.height
    }

    /// Both far edges are themselves cell coordinates.
    pub open spec fn edges_fit(self) -> bool {
        self.right_edge() <= u16::MAX && self.bottom_edge() <= u16::MAX
    }

    /// Cell `(x, y)` lies inside the rectangle.
    pub open spec fn covers(self, x: int, y: int) -> bool {
        self.x <= x < self.right_edge() && self.y <= y < self.bottom_edge()
    }

    /// The rectangle that [`Rect::new`] builds.
    pub open spec fn spec_new(x: u16, y: u16, width: u16, height: u16) -> Rect {
        Rect { x, y, width: clamp_span(x, width as int), height: clamp_span(y, height as int) }
    }

    /// A rectangle whose far edges are cut off at `u16::MAX`.
    pub fn new(x: u16, y: u16, width: u16, height: u16) -> (r: Rect)
        ensures
            r == Rect::spec_new(x, y, width, height),
            r.edges_fit(),
    {
        let room_right: u16 = u16::MAX - x;
        let room_below: u16 = u16::MAX - y;
        Rect {
            x,
            y,
            width: if width > room_right { room_right } else { width },
            height: if height > room_below { room_below } else { height },
        }
    }

    /// Whether cell `(x, y)` lies inside the rectangle.
    pub fn contains(&self, x: u16, y: u16) -> (inside: bool)
        ensures
            inside == self.covers(x as int, y as int),
    {
        x >= self.x && y >= self.y && (x as u32) < self.x as u32 + self.width as u32 && (y as u32)
            < self.y as u32 + self.height as u32
    }
}

} // verus!
