use vstd::prelude::*;

use crate::region::Region;

verus! {

/// An axis-aligned rectangle: left/top corner plus width and height.
/// It bounds the sliding-window scan area.
#[derive(Clone, Copy, Debug, PartialEq, Eq, Structural)]
pub struct Rect {
    pub left: i32,
    pub top: i32,
    pub width: u32,
    pub height: u32,
}

impl Rect {
    /// Creates a rectangle at the specified coordinates with unit size.
    #[inline]
    pub fn at(x: i32, y: i32) -> (r: Self)
        ensures
            r.left == x,
            r.top == y,
            r.width == 1u32,
            r.height == 1u32,
    {
        Self { left: x, top: y, width: 1, height: 1 }
    }

    /// Sets the width and height of the rectangle.
    #[inline]
    pub fn of_size(self, width: u32, height: u32) -> (r: Self)
        ensures
            r.left == self.left,
            r.top == self.top,
            r.width == width,
            r.height == height,
    {
        Self { width, height, ..self }
    }
}

impl Region for Rect {
    open spec fn sp_left(&self) -> int {
        self.left as int
    }

    open spec fn sp_top(&self) -> int {
        self.top as int
    }

    open spec fn sp_width(&self) -> int {
        self.width as int
    }

    open spec fn sp_height(&self) -> int {
        self.height as int
    }

    #[inline]
    fn left(&self) -> (r: i32) {
        self.left
    }

    #[inline]
    fn top(&self) -> (r: i32) {
        self.top
    }

    #[inline]
    fn width(&self) -> (r: u32) {
        self.width
    }

    #[inline]
    fn height(&self) -> (r: u32) {
        self.height
    }
}

} // verus!
