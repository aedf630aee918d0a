use vstd::prelude::*;

verus! {

/// Largest magnitude allowed for a coordinate fed to the fixed-point
/// projector; keeps every intermediate product inside `i32`.
pub const COORD_BOUND: i32 = 0x0040_0000;

/// One projected coordinate: `c` is the window center, `n` the signed
/// 8-bit offset, `s` the window size. The scaled offset is added in
/// 24.8 fixed point and floored back to integer pixels.
pub open spec fn sp_project(c: int, n: int, s: int) -> int {
    (c * 256 + n * s) / 256
}

/// Maps a signed offset into absolute pixel coordinates around center
/// `(ix, iy)` of a window of size `s`, using shift-based 24.8 fixed-point
/// scaling.
#[inline]
pub fn original_transform(ix: i32, iy: i32, s: i32, nx: i32, ny: i32) -> (r: (i32, i32))
    requires
        -COORD_BOUND <= ix <= COORD_BOUND,
        -COORD_BOUND <= iy <= COORD_BOUND,
        0 <= s <= COORD_BOUND,
        -128 <= nx <= 127,
        -128 <= ny <= 127,
    ensures
        r.0 as int == sp_project(ix as int, nx as int, s as int),
        r.1 as int == sp_project(iy as int, ny as int, s as int),
{
    let xw: i32 = ix << 8u32;
    let yw: i32 = iy << 8u32;
    proof {
        assert(xw == ix * 256 && yw == iy * 256) by (bit_vector)
            requires
                -0x0040_0000 <= ix <= 0x0040_0000 && -0x0040_0000 <= iy <= 0x0040_0000
                    && xw == ix << 8u32 && yw == iy << 8u32,
        ;
    }
    proof {
        assert(-0x2000_0000 <= (nx as int) * (s as int) && (nx as int) * (s as int)
            <= 0x2000_0000) by (nonlinear_arith)
            requires
                -128 <= nx <= 127 && 0 <= s <= 0x0040_0000,
        ;
        assert(-0x2000_0000 <= (ny as int) * (s as int) && (ny as int) * (s as int)
            <= 0x2000_0000) by (nonlinear_arith)
            requires
                -128 <= ny <= 127 && 0 <= s <= 0x0040_0000,
        ;
    }
    let px: i32 = xw + nx * s;
    let py: i32 = yw + ny * s;
    let x: i32 = px >> 8u32;
    let y: i32 = py >> 8u32;
    proof {
        assert(x == px / 256 && y == py / 256) by (bit_vector)
            requires
                x == px >> 8u32 && y == py >> 8u32,
        ;
    }
    (x, y)
}

/// A similarity transform over integers: translation plus a scaling
/// applied to signed 8-bit offsets in 24.8 fixed point.
#[derive(Clone, Copy, Debug, PartialEq, Eq)]
pub struct ISimilarity2 {
    /// The translation, i.e. the window center.
    pub translation: (i32, i32),
    /// The scaling, i.e. the window size.
    pub scaling: u32,
}

impl ISimilarity2 {
    /// Whether the components stay inside the projector's working range.
    pub open spec fn wf(&self) -> bool {
        &&& -COORD_BOUND <= self.translation.0 <= COORD_BOUND
        &&& -COORD_BOUND <= self.translation.1 <= COORD_BOUND
        &&& self.scaling <= COORD_BOUND as u32
    }

    /// Builds the transform from a translation and a scaling.
    #[inline]
    pub fn from_components(x: i32, y: i32, scaling: u32) -> (r: Self)
        ensures
            r.translation.0 == x,
            r.translation.1 == y,
            r.scaling == scaling,
    {
        Self { translation: (x, y), scaling }
    }

    /// Projects an integer point through the transform.
    #[inline]
    pub fn transform_point(&self, x: i32, y: i32) -> (r: (i32, i32))
        requires
            self.wf(),
            -128 <= x <= 127,
            -128 <= y <= 127,
        ensures
            r.0 as int == sp_project(self.translation.0 as int, x as int, self.scaling as int),
            r.1 as int == sp_project(self.translation.1 as int, y as int, self.scaling as int),
    {
        original_transform(self.translation.0, self.translation.1, self.scaling as i32, x, y)
    }

    /// Projects a signed 8-bit point through the transform.
    #[inline]
    pub fn transform_point_i8(&self, x: i8, y: i8) -> (r: (i32, i32))
        requires
            self.wf(),
        ensures
            r.0 as int == sp_project(self.translation.0 as int, x as int, self.scaling as int),
            r.1 as int == sp_project(self.translation.1 as int, y as int, self.scaling as int),
    {
        self.transform_point(x as i32, y as i32)
    }
}

} // verus!
