use vstd::prelude::*;

use crate::region::Region;

verus! {

/// A square region in an image: left/top coordinates and one size.
#[derive(Clone, Copy, Debug, PartialEq, Eq, Structural)]
pub struct Square {
    pub left: i32,
    pub top: i32,
    pub size: u32,
}

impl Square {
    /// Creates a square at the specified coordinates with unit size.
    #[inline]
    pub fn at(x: i32, y: i32) -> (r: Self)
        ensures
            r.left == x,
            r.top == y,
            r.size == 1u32,
    {
        Self { left: x, top: y, size: 1 }
    }

    /// Sets the size of the square.
    #[inline]
    pub fn of_size(self, value: u32) -> (r: Self)
        ensures
            r.left == self.left,
            r.top == self.top,
            r.size == value,
    {
        Self { size: value, ..self }
    }

    /// Creates a square from a region if it is square.
    #[inline]
    pub fn from_region<T: Region>(value: T) -> (r: Option<Self>)
        ensures
            match r {
                Some(s) => value.sp_width() == value.sp_height() && s.left as int
                    == value.sp_left() && s.top as int == value.sp_top() && s.size as int
                    == value.sp_width(),
                None => value.sp_width() != value.sp_height(),
            },
    {
        if value.is_square() {
            Some(Self { left: value.left(), top: value.top(), size: value.width() })
        } else {
            None
        }
    }

    /// Creates a new square with the specified left, top coordinates and size.
    #[inline]
    pub fn new(left: i32, top: i32, size: u32) -> (r: Self)
        ensures
            r.left == left,
            r.top == top,
            r.size == size,
    {
        Self { left, top, size }
    }

    /// Returns the size of the square.
    #[inline]
    pub fn size(&self) -> (r: u32)
        ensures
            r == self.size,
    {
        self.size
    }
}

impl Region for Square {
    open spec fn sp_left(&self) -> int {
        self.left as int
    }

    open spec fn sp_top(&self) -> int {
        self.top as int
    }

    open spec fn sp_width(&self) -> int {
        self.size as int
    }

    open spec fn sp_height(&self) -> int {
        self.size as int
    }

    #[inline]
    fn left(&self) -> (r: i32) {
        self.left
    }

    #[inline]
    fn top(&self) -> (r: i32) {
        self.top
    }

    #[inline]
    fn width(&self) -> (r: u32) {
        self.size
    }

    #[inline]
    fn height(&self) -> (r: u32) {
        self.size
    }

    #[inline]
    fn is_square(&self) -> (r: bool) {
        true
    }
}

impl From<(i32, i32, u32)> for Square {
    fn from(value: (i32, i32, u32)) -> (r: Self) {
        Self::new(value.0, value.1, value.2)
    }
}

impl vstd::std_specs::convert::FromSpecImpl<(i32, i32, u32)> for Square {
    open spec fn obeys_from_spec() -> bool {
        true
    }

    open spec fn from_spec(value: (i32, i32, u32)) -> Self {
        Square { left: value.0, top: value.1, size: value.2 }
    }
}

} // verus!
