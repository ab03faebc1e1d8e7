//! The rendering rectangle: a fixed-width, fixed-height area of the
//! screen, positioned at an absolute origin.

use vstd::prelude::*;

verus! {

/// The mathematical value of a rectangle.
pub struct RectView {
    pub x: u16,
    pub y: u16,
    pub width: u16,
    pub height: u16,
}

/// A rectangular render area. Its right and bottom edges always stay
/// within the addressable screen, so column and row arithmetic inside the
/// area never overflows a `u16`.
#[derive(Clone, Copy, Debug, PartialEq, Eq, Hash)]
pub struct Rect {
    x: u16,
    y: u16,
    width: u16,
    height: u16,
}

impl View for Rect {
    type V = RectView;

    closed spec fn view(&self) -> RectView {
        RectView { x: self.x, y: self.y, width: self.width, height: self.height }
    }
}

impl Rect {
    #[verifier::type_invariant]
    spec fn wf(self) -> bool {
        self.x + self.width <= u16::MAX && self.y + self.height <= u16::MAX
    }

    /// A new rectangle; a width or height that would run past the edge of
    /// the addressable screen is clamped to it.
    pub fn new(x: u16, y: u16, width: u16, height: u16) -> (r: Rect)
        ensures
            r@.x == x,
            r@.y == y,
            r@.width == if x + width <= u16::MAX {
                width as int
            } else {
                u16::MAX - x
            },
            r@.height == if y + height <= u16::MAX {
                height as int
            } else {
                u16::MAX - y
            },
    {
        let width = if width <= u16::MAX - x {
            width
        } else {
            u16::MAX - x
        };
        let height = if height <= u16::MAX - y {
            height
        } else {
            u16::MAX - y
        };
        Rect { x, y, width, height }
    }

    pub fn x(&self) -> (r: u16)
        ensures
            r == self@.x,
    {
        self.x
    }

    pub fn y(&self) -> (r: u16)
        ensures
            r == self@.y,
    {
        self.y
    }

    pub fn width(&self) -> (r: u16)
        ensures
            r == self@.width,
            self@.x + r <= u16::MAX,
    {
        proof {
            use_type_invariant(self);
        }
        self.width
    }

    pub fn height(&self) -> (r: u16)
        ensures
            r == self@.height,
            self@.y + r <= u16::MAX,
    {
        proof {
            use_type_invariant(self);
        }
        self.height
    }

    /// The number of cells in the area.
    pub fn area(&self) -> (r: usize)
        ensures
            r == self@.width * self@.height,
    {
        proof {
            assert((self.width as int) * (self.height as int) < 0x1_0000_0000int)
                by (nonlinear_arith)
                requires
                    self.width <= 0xFFFFint,
                    self.height <= 0xFFFFint,
            ;
        }
        (self.width as u32 * self.height as u32) as usize
    }
}

} // verus!
