use vstd::prelude::*;

use crate::image::GrayImage;
use crate::rect::Rect;

verus! {

/// Padding around a rectangular region.
#[derive(Clone, Copy, Debug, Default, PartialEq, Eq, Structural)]
pub struct Padding {
    pub top: i32,
    pub right: i32,
    pub bottom: i32,
    pub left: i32,
}

impl Padding {
    /// Create a new padding with specified values.
    #[inline]
    pub fn new(top: i32, right: i32, bottom: i32, left: i32) -> (r: Self)
        ensures
            r == (Padding { top, right, bottom, left }),
    {
        Self { top, right, bottom, left }
    }

    /// Set the top padding value.
    #[inline]
    pub fn top(self, value: i32) -> (r: Self)
        ensures
            r == (Padding { top: value, ..self }),
    {
        Self { top: value, ..self }
    }

    /// Set the right padding value.
    #[inline]
    pub fn right(self, value: i32) -> (r: Self)
        ensures
            r == (Padding { right: value, ..self }),
    {
        Self { right: value, ..self }
    }

    /// Set the bottom padding value.
    #[inline]
    pub fn bottom(self, value: i32) -> (r: Self)
        ensures
            r == (Padding { bottom: value, ..self }),
    {
        Self { bottom: value, ..self }
    }

    /// Set the left padding value.
    #[inline]
    pub fn left(self, value: i32) -> (r: Self)
        ensures
            r == (Padding { left: value, ..self }),
    {
        Self { left: value, ..self }
    }

    /// Create padding with the same value for all sides.
    #[inline]
    pub fn all(value: i32) -> (r: Self)
        ensures
            r == (Padding { top: value, right: value, bottom: value, left: value }),
    {
        Self { top: value, right: value, bottom: value, left: value }
    }

    /// Set vertical padding (top and bottom).
    #[inline]
    pub fn vertical(self, value: i32) -> (r: Self)
        ensures
            r == (Padding { top: value, bottom: value, ..self }),
    {
        Self { top: value, bottom: value, ..self }
    }

    /// Set horizontal padding (left and right).
    #[inline]
    pub fn horizontal(self, value: i32) -> (r: Self)
        ensures
            r == (Padding { right: value, left: value, ..self }),
    {
        Self { right: value, left: value, ..self }
    }

    /// Shrinks a `width` by `height` area by this padding.
    #[inline]
    pub fn rect(self, width: u32, height: u32) -> (r: Rect)
        requires
            0 <= width as int - self.right as int - (self.left as int) <= u32::MAX as int,
            0 <= height as int - self.bottom as int - (self.top as int) <= u32::MAX as int,
            width <= i32::MAX as u32,
            height <= i32::MAX as u32,
        ensures
            r.left == self.left,
            r.top == self.top,
            r.width as int == width as int - self.right as int - self.left as int,
            r.height as int == height as int - self.bottom as int - self.top as int,
    {
        let w = (width as i64) - (self.right as i64) - (self.left as i64);
        let h = (height as i64) - (self.bottom as i64) - (self.top as i64);
        Rect::at(self.left, self.top).of_size(w as u32, h as u32)
    }

    /// Shrinks the image area by this padding.
    #[inline]
    pub fn image_rect(self, image: &GrayImage) -> (r: Rect)
        requires
            0 <= image.width as int - self.right as int - (self.left as int)
                <= u32::MAX as int,
            0 <= image.height as int - self.bottom as int - (self.top as int)
                <= u32::MAX as int,
            image.width <= i32::MAX as u32,
            image.height <= i32::MAX as u32,
        ensures
            r.left == self.left,
            r.top == self.top,
            r.width as int == image.width as int - self.right as int - self.left as int,
            r.height as int == image.height as int - self.bottom as int - self.top as int,
    {
        self.rect(image.width(), image.height())
    }
}

/// Collects padding values side by side before building a [`Padding`].
#[derive(Clone, Copy, Debug, Default)]
pub struct PaddingBuilder {
    pub top: Option<i32>,
    pub right: Option<i32>,
    pub bottom: Option<i32>,
    pub left: Option<i32>,
}

impl PaddingBuilder {
    /// Sets all four sides.
    pub fn with_all(self, value: i32) -> (r: Self)
        ensures
            r.top == Some(value),
            r.right == Some(value),
            r.bottom == Some(value),
            r.left == Some(value),
    {
        PaddingBuilder {
            top: Some(value),
            right: Some(value),
            bottom: Some(value),
            left: Some(value),
        }
    }

    /// Sets the top and bottom sides.
    pub fn with_vertical(self, value: i32) -> (r: Self)
        ensures
            r == (PaddingBuilder { top: Some(value), bottom: Some(value), ..self }),
    {
        PaddingBuilder { top: Some(value), bottom: Some(value), ..self }
    }

    /// Sets the left and right sides.
    pub fn with_horizontal(self, value: i32) -> (r: Self)
        ensures
            r == (PaddingBuilder { right: Some(value), left: Some(value), ..self }),
    {
        PaddingBuilder { right: Some(value), left: Some(value), ..self }
    }

    /// Sets the top side.
    pub fn with_top(self, value: i32) -> (r: Self)
        ensures
            r == (PaddingBuilder { top: Some(value), ..self }),
    {
        PaddingBuilder { top: Some(value), ..self }
    }

    /// Sets the right side.
    pub fn with_right(self, value: i32) -> (r: Self)
        ensures
            r == (PaddingBuilder { right: Some(value), ..self }),
    {
        PaddingBuilder { right: Some(value), ..self }
    }

    /// Sets the bottom side.
    pub fn with_bottom(self, value: i32) -> (r: Self)
        ensures
            r == (PaddingBuilder { bottom: Some(value), ..self }),
    {
        PaddingBuilder { bottom: Some(value), ..self }
    }

    /// Sets the left side.
    pub fn with_left(self, value: i32) -> (r: Self)
        ensures
            r == (PaddingBuilder { left: Some(value), ..self }),
    {
        PaddingBuilder { left: Some(value), ..self }
    }

    /// Builds the padding, defaulting unset sides to zero.
    pub fn build(self) -> (r: Padding)
        ensures
            r.top == (match self.top {
                Some(v) => v,
                None => 0i32,
            }),
            r.right == (match self.right {
                Some(v) => v,
                None => 0i32,
            }),
            r.bottom == (match self.bottom {
                Some(v) => v,
                None => 0i32,
            }),
            r.left == (match self.left {
                Some(v) => v,
                None => 0i32,
            }),
    {
        Padding {
            top: match self.top {
                Some(v) => v,
                None => 0,
            },
            right: match self.right {
                Some(v) => v,
                None => 0,
            },
            bottom: match self.bottom {
                Some(v) => v,
                None => 0,
            },
            left: match self.left {
                Some(v) => v,
                None => 0,
            },
        }
    }
}

} // verus!
