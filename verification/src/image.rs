use vstd::prelude::*;

verus! {

/// Clamps `v` into the inclusive range `[lo, hi]`.
pub open spec fn sp_clamp(v: int, lo: int, hi: int) -> int {
    if v < lo {
        lo
    } else if v > hi {
        hi
    } else {
        v
    }
}

/// A single-channel 8-bit image held as a row-major pixel buffer.
///
/// Every pixel read the cascades perform — exact, saturating to the nearest
/// edge, or falling back on a default — is defined here over the buffer.
#[derive(Clone, Debug)]
pub struct GrayImage {
    pub width: u32,
    pub height: u32,
    pub pixels: Vec<u8>,
}

impl GrayImage {
    /// The buffer holds exactly one byte per pixel.
    pub open spec fn wf(&self) -> bool {
        self.pixels@.len() == self.width as int * self.height as int
    }

    /// Luminance of the pixel at `(x, y)`, as a specification value.
    pub open spec fn sp_lum(&self, x: int, y: int) -> u8 {
        self.pixels@[y * self.width as int + x]
    }

    /// Luminance after clamping each coordinate to the image bounds.
    pub open spec fn sp_lum_clamped(&self, x: int, y: int) -> u8 {
        self.sp_lum(
            sp_clamp(x, 0, self.width as int - 1),
            sp_clamp(y, 0, self.height as int - 1),
        )
    }

    /// Creates an all-black image of the given dimensions.
    pub fn new(width: u32, height: u32) -> (r: Self)
        requires
            width as int * (height as int) <= usize::MAX as int,
        ensures
            r.wf(),
            r.width == width,
            r.height == height,
            forall|x: int, y: int|
                0 <= x < width as int && 0 <= y < height as int ==> r.sp_lum(x, y) == 0u8,
    {
        proof {
            assert(0 <= width as int * height as int) by (nonlinear_arith);
        }
        let len: usize = (width as usize) * (height as usize);
        let mut pixels: Vec<u8> = Vec::new();
        let mut i: usize = 0;
        while i < len
            invariant
                i <= len,
                pixels@.len() == i as int,
                forall|k: int| 0 <= k < i as int ==> pixels@[k] == 0u8,
            decreases len - i,
        {
            pixels.push(0u8);
            i = i + 1;
        }
        let r = Self { width, height, pixels };
        proof {
            assert forall|x: int, y: int|
                0 <= x < width as int && 0 <= y < height as int implies r.sp_lum(x, y)
                == 0u8 by {
                assert(0 <= y * (width as int) + x
                    && y * (width as int) + x < (width as int) * (height as int))
                    by (nonlinear_arith)
                    requires
                        0 <= x < width as int && 0 <= y < height as int,
                ;
            }
        }
        r
    }

    /// Wraps a raw row-major buffer if its length matches the dimensions.
    pub fn from_raw(width: u32, height: u32, pixels: Vec<u8>) -> (r: Option<Self>)
        ensures
            match r {
                Some(img) => img.wf() && img.width == width && img.height == height
                    && img.pixels@ == pixels@,
                None => pixels@.len() != width as int * height as int,
            },
    {
        proof {
            assert(0 <= (width as int) * (height as int) && (width as int) * (height as int)
                <= (u32::MAX as int) * (u32::MAX as int)) by (nonlinear_arith);
        }
        if (width as u64) * (height as u64) == pixels.len() as u64 {
            Some(Self { width, height, pixels })
        } else {
            None
        }
    }

    /// Image width in pixels.
    #[inline]
    pub fn width(&self) -> (r: u32)
        ensures
            r == self.width,
    {
        self.width
    }

    /// Image height in pixels.
    #[inline]
    pub fn height(&self) -> (r: u32)
        ensures
            r == self.height,
    {
        self.height
    }

    /// Whether `(x, y)` lies inside the image.
    #[inline]
    pub fn in_bounds(&self, x: u32, y: u32) -> (r: bool)
        ensures
            r == (x < self.width && y < self.height),
    {
        x < self.width && y < self.height
    }

    /// Overwrites the pixel at `(x, y)`.
    pub fn put_pixel(&mut self, x: u32, y: u32, value: u8)
        requires
            old(self).wf(),
            x < old(self).width,
            y < old(self).height,
        ensures
            final(self).wf(),
            final(self).width == old(self).width,
            final(self).height == old(self).height,
            final(self).pixels@ == old(self).pixels@.update(
                y as int * old(self).width as int + x as int,
                value,
            ),
    {
        proof {
            assert(0 <= (y as int) * (self.width as int) + (x as int)
                && (y as int) * (self.width as int) + (x as int)
                < (self.width as int) * (self.height as int)) by (nonlinear_arith)
                requires
                    x < self.width && y < self.height,
            ;
        }
        let n: usize = self.pixels.len();
        proof {
            assert((y as int) * (self.width as int) + (x as int) < n as int);
        }
        let idx: usize = (y as usize) * (self.width as usize) + (x as usize);
        self.pixels.set(idx, value);
    }

    /// Reads the pixel at `(x, y)`, which must be in bounds.
    pub fn get_pixel(&self, x: u32, y: u32) -> (r: u8)
        requires
            self.wf(),
            x < self.width,
            y < self.height,
        ensures
            r == self.sp_lum(x as int, y as int),
    {
        proof {
            assert(0 <= (y as int) * (self.width as int) + (x as int)
                && (y as int) * (self.width as int) + (x as int)
                < (self.width as int) * (self.height as int)) by (nonlinear_arith)
                requires
                    x < self.width && y < self.height,
            ;
        }
        let n: usize = self.pixels.len();
        proof {
            assert((y as int) * (self.width as int) + (x as int) < n as int);
        }
        let idx: usize = (y as usize) * (self.width as usize) + (x as usize);
        self.pixels[idx]
    }

    /// Reads the pixel nearest to `(x, y)`: each coordinate is clamped to
    /// the valid range, so reads outside the image saturate to the border.
    pub fn get_nearest_lum(&self, x: i64, y: i64) -> (r: u8)
        requires
            self.wf(),
            self.width >= 1,
            self.height >= 1,
        ensures
            r == self.sp_lum_clamped(x as int, y as int),
    {
        let x1: i64 = (self.width - 1) as i64;
        let y1: i64 = (self.height - 1) as i64;
        let cx: i64 = if x < 0 {
            0
        } else if x > x1 {
            x1
        } else {
            x
        };
        let cy: i64 = if y < 0 {
            0
        } else if y > y1 {
            y1
        } else {
            y
        };
        self.get_pixel(cx as u32, cy as u32)
    }
}

/// Reads the pixel nearest to `(x, y)`, clamping out-of-bounds coordinates
/// to the image border.
pub fn get_nearest_pixel_i64(image: &GrayImage, x: i64, y: i64) -> (r: u8)
    requires
        image.wf(),
        image.width >= 1,
        image.height >= 1,
    ensures
        r == image.sp_lum_clamped(x as int, y as int),
{
    image.get_nearest_lum(x, y)
}

/// Whether `(x, y)` lies inside the image, for signed 64-bit coordinates.
pub fn in_bounds_i64(image: &GrayImage, x: i64, y: i64) -> (r: bool)
    ensures
        r == (0 <= x as int && (x as int) < image.width as int && 0 <= y as int && (y as int)
            < image.height as int),
{
    x >= 0 && x < image.width as i64 && y >= 0 && y < image.height as i64
}

/// Reads the pixel at `(x, y)` if it is in bounds.
pub fn get_pixel_i64(image: &GrayImage, x: i64, y: i64) -> (r: Option<u8>)
    requires
        image.wf(),
    ensures
        match r {
            Some(v) => 0 <= (x as int) < image.width as int && 0 <= (y as int)
                < image.height as int && v == image.sp_lum(x as int, y as int),
            None => !(0 <= (x as int) < image.width as int && 0 <= (y as int)
                < image.height as int),
        },
{
    if in_bounds_i64(image, x, y) {
        Some(image.get_pixel(x as u32, y as u32))
    } else {
        None
    }
}

/// Pixel access that saturates out-of-bounds coordinates to the border.
pub trait SaturatedGet {
    /// Well-formedness of the underlying image.
    spec fn sp_wf(&self) -> bool;

    /// Dimensions of the underlying image.
    spec fn sp_dims(&self) -> (int, int);

    /// Luminance at an in-bounds position.
    spec fn sp_get_lum(&self, x: int, y: int) -> u8;

    /// Reads luminance at `(x, y)`, clamping each coordinate below its bound.
    fn saturated_get_lum(&self, x: u32, y: u32) -> (r: u8)
        requires
            self.sp_wf(),
            self.sp_dims().0 >= 1,
            self.sp_dims().1 >= 1,
        ensures
            r == self.sp_get_lum(
                sp_clamp(x as int, 0, self.sp_dims().0 - 1),
                sp_clamp(y as int, 0, self.sp_dims().1 - 1),
            ),
    ;
}

/// Saturates `value` strictly below `bound`.
pub fn saturate_bound(value: u32, bound: u32) -> (r: u32)
    requires
        bound >= 1,
    ensures
        r as int == sp_clamp(value as int, 0, bound as int - 1),
{
    if value < bound {
        value
    } else {
        bound - 1
    }
}

impl SaturatedGet for GrayImage {
    open spec fn sp_wf(&self) -> bool {
        self.wf()
    }

    open spec fn sp_dims(&self) -> (int, int) {
        (self.width as int, self.height as int)
    }

    open spec fn sp_get_lum(&self, x: int, y: int) -> u8 {
        self.sp_lum(x, y)
    }

    #[inline]
    fn saturated_get_lum(&self, x: u32, y: u32) -> (r: u8) {
        let cx = saturate_bound(x, self.width);
        let cy = saturate_bound(y, self.height);
        self.get_pixel(cx, cy)
    }
}

/// Pixel access that falls back on a default value out of bounds.
pub trait SafeGet {
    /// Well-formedness of the underlying image.
    spec fn sp_wf(&self) -> bool;

    /// Dimensions of the underlying image.
    spec fn sp_dims(&self) -> (int, int);

    /// Luminance at an in-bounds position.
    spec fn sp_get_lum(&self, x: int, y: int) -> u8;

    /// Reads luminance at `(x, y)`, or `fallback` if out of bounds.
    fn safe_get_lum(&self, x: u32, y: u32, fallback: u8) -> (r: u8)
        requires
            self.sp_wf(),
        ensures
            r == if (x as int) < self.sp_dims().0 && (y as int) < self.sp_dims().1 {
                self.sp_get_lum(x as int, y as int)
            } else {
                fallback
            },
    ;
}

impl SafeGet for GrayImage {
    open spec fn sp_wf(&self) -> bool {
        self.wf()
    }

    open spec fn sp_dims(&self) -> (int, int) {
        (self.width as int, self.height as int)
    }

    open spec fn sp_get_lum(&self, x: int, y: int) -> u8 {
        self.sp_lum(x, y)
    }

    #[inline]
    fn safe_get_lum(&self, x: u32, y: u32, fallback: u8) -> (r: u8) {
        if self.in_bounds(x, y) {
            self.get_pixel(x, y)
        } else {
            fallback
        }
    }
}

} // verus!
