use vstd::prelude::*;

verus! {

/// A rectangular region of an image, described by its left/top corner and
/// its width and height. Derived quantities (right and bottom edge, center,
/// area) follow the conventions of the detector: edges are inclusive, the
/// center is biased by one as the original window arithmetic demands.
pub trait Region: Sized {
    /// Left coordinate as a mathematical integer.
    spec fn sp_left(&self) -> int;

    /// Top coordinate as a mathematical integer.
    spec fn sp_top(&self) -> int;

    /// Width as a mathematical integer.
    spec fn sp_width(&self) -> int;

    /// Height as a mathematical integer.
    spec fn sp_height(&self) -> int;

    /// Returns the left coordinate of the region.
    fn left(&self) -> (r: i32)
        ensures
            r as int == self.sp_left(),
    ;

    /// Returns the top coordinate of the region.
    fn top(&self) -> (r: i32)
        ensures
            r as int == self.sp_top(),
    ;

    /// Returns the width of the region.
    fn width(&self) -> (r: u32)
        ensures
            r as int == self.sp_width(),
    ;

    /// Returns the height of the region.
    fn height(&self) -> (r: u32)
        ensures
            r as int == self.sp_height(),
    ;

    /// Returns the right coordinate of the region (inclusive).
    fn right(&self) -> (r: i32)
        requires
            self.sp_width() >= 1,
            self.sp_width() - 1 <= i32::MAX as int,
            self.sp_left() + self.sp_width() - 1 <= i32::MAX as int,
        ensures
            r as int == self.sp_left() + self.sp_width() - 1,
    {
        self.left() + (self.width() - 1) as i32
    }

    /// Returns the bottom coordinate of the region (inclusive).
    fn bottom(&self) -> (r: i32)
        requires
            self.sp_height() >= 1,
            self.sp_height() - 1 <= i32::MAX as int,
            self.sp_top() + self.sp_height() - 1 <= i32::MAX as int,
        ensures
            r as int == self.sp_top() + self.sp_height() - 1,
    {
        self.top() + (self.height() - 1) as i32
    }

    /// Checks if the region is square.
    fn is_square(&self) -> (r: bool)
        ensures
            r == (self.sp_width() == self.sp_height()),
    {
        self.width() == self.height()
    }

    /// Checks if the region contains the point `(x, y)`.
    fn contains(&self, x: i32, y: i32) -> (r: bool)
        requires
            self.sp_width() >= 1,
            self.sp_height() >= 1,
            self.sp_width() - 1 <= i32::MAX as int,
            self.sp_height() - 1 <= i32::MAX as int,
            self.sp_left() + self.sp_width() - 1 <= i32::MAX as int,
            self.sp_top() + self.sp_height() - 1 <= i32::MAX as int,
        ensures
            r == (self.sp_left() <= x as int && self.sp_top() <= y as int
                && (x as int) <= self.sp_left() + self.sp_width() - 1
                && (y as int) <= self.sp_top() + self.sp_height() - 1),
    {
        self.left() <= x && self.top() <= y && self.right() >= x && self.bottom() >= y
    }

    /// Returns the (biased) center point of the region.
    fn center(&self) -> (r: (i32, i32))
        requires
            0 <= self.sp_width(),
            0 <= self.sp_height(),
            self.sp_width() / 2 + 1 <= i32::MAX as int,
            self.sp_height() / 2 + 1 <= i32::MAX as int,
            self.sp_left() + self.sp_width() / 2 + 1 <= i32::MAX as int,
            self.sp_top() + self.sp_height() / 2 + 1 <= i32::MAX as int,
        ensures
            r.0 as int == self.sp_left() + self.sp_width() / 2 + 1,
            r.1 as int == self.sp_top() + self.sp_height() / 2 + 1,
    {
        (
            self.left() + (self.width() / 2 + 1) as i32,
            self.top() + (self.height() / 2 + 1) as i32,
        )
    }

    /// Returns the area of the region.
    fn square(&self) -> (r: u32)
        requires
            self.sp_width() * self.sp_height() <= u32::MAX as int,
        ensures
            r as int == self.sp_width() * self.sp_height(),
    {
        self.width() * self.height()
    }
}

} // verus!
