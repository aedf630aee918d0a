use vstd::prelude::*;

use crate::image::GrayImage;
use crate::transform::{sp_project, original_transform, COORD_BOUND};

verus! {

/// Reinterprets a byte as a signed 8-bit value (two's complement).
pub open spec fn sp_i8_of_u8(b: u8) -> i8 {
    b as i8
}

/// Reinterpreting a byte as a signed value and back is the identity, in
/// both directions; the node conversions below therefore round-trip.
pub proof fn lemma_i8_u8_round_trip(b: u8, v: i8)
    ensures
        sp_i8_of_u8(b) as u8 == b,
        sp_i8_of_u8(v as u8) == v,
{
    assert((b as i8) as u8 == b && (v as u8) as i8 == v) by (bit_vector);
}


/// A comparison node: two signed 8-bit offsets. Its test projects both
/// offsets into the window and compares the luminance under them.
#[derive(Clone, Copy, Debug, PartialEq, Eq, Structural)]
pub struct ComparisonNode {
    /// X coordinate of the first offset.
    pub left_x: i8,
    /// Y coordinate of the first offset.
    pub left_y: i8,
    /// X coordinate of the second offset.
    pub right_x: i8,
    /// Y coordinate of the second offset.
    pub right_y: i8,
}

/// The pixel comparison a node performs inside the window centered at
/// `(cx, cy)` with size `s`: both offsets are projected in fixed point,
/// both reads saturate to the image border, and the test is a strict
/// luminance comparison.
pub open spec fn sp_comparison_bintest(
    node: ComparisonNode,
    image: GrayImage,
    cx: int,
    cy: int,
    s: int,
) -> bool {
    let x0 = sp_project(cx, node.left_x as int, s);
    let y0 = sp_project(cy, node.left_y as int, s);
    let x1 = sp_project(cx, node.right_x as int, s);
    let y1 = sp_project(cy, node.right_y as int, s);
    image.sp_lum_clamped(x0, y0) > image.sp_lum_clamped(x1, y1)
}

impl ComparisonNode {
    /// Builds a node from `[y0, x0, y1, x1]` (Y precedes X in the model
    /// format).
    #[inline]
    pub fn new(data: [i8; 4]) -> (r: Self)
        ensures
            r.left_y == data[0],
            r.left_x == data[1],
            r.right_y == data[2],
            r.right_x == data[3],
    {
        Self { left_x: data[1], left_y: data[0], right_x: data[3], right_y: data[2] }
    }

    /// Builds a node from four raw bytes, reinterpreted as signed values.
    #[inline]
    pub fn from_buffer(buf: &[u8; 4]) -> (r: Self)
        ensures
            r.left_y == sp_i8_of_u8(buf[0]),
            r.left_x == sp_i8_of_u8(buf[1]),
            r.right_y == sp_i8_of_u8(buf[2]),
            r.right_x == sp_i8_of_u8(buf[3]),
    {
        Self::new([buf[0] as i8, buf[1] as i8, buf[2] as i8, buf[3] as i8])
    }

    /// Performs the pixel test inside the window centered at `(cx, cy)`
    /// with size `size`.
    #[inline]
    pub fn bintest(&self, image: &GrayImage, cx: i32, cy: i32, size: u32) -> (r: bool)
        requires
            image.wf(),
            image.width >= 1,
            image.height >= 1,
            -COORD_BOUND <= cx <= COORD_BOUND,
            -COORD_BOUND <= cy <= COORD_BOUND,
            size <= COORD_BOUND as u32,
        ensures
            r == sp_comparison_bintest(*self, *image, cx as int, cy as int, size as int),
    {
        let p0 = original_transform(cx, cy, size as i32, self.left_x as i32, self.left_y as i32);
        let p1 = original_transform(
            cx,
            cy,
            size as i32,
            self.right_x as i32,
            self.right_y as i32,
        );

        let lum0 = image.get_nearest_lum(p0.0 as i64, p0.1 as i64);
        let lum1 = image.get_nearest_lum(p1.0 as i64, p1.1 as i64);

        lum0 > lum1
    }
}

impl From<[i8; 4]> for ComparisonNode {
    #[inline]
    fn from(data: [i8; 4]) -> (r: Self) {
        Self::new(data)
    }
}

impl vstd::std_specs::convert::FromSpecImpl<[i8; 4]> for ComparisonNode {
    open spec fn obeys_from_spec() -> bool {
        true
    }

    open spec fn from_spec(data: [i8; 4]) -> Self {
        ComparisonNode {
            left_x: data[1],
            left_y: data[0],
            right_x: data[3],
            right_y: data[2],
        }
    }
}

impl From<[u8; 4]> for ComparisonNode {
    #[inline]
    fn from(data: [u8; 4]) -> (r: Self) {
        Self::from_buffer(&data)
    }
}

impl vstd::std_specs::convert::FromSpecImpl<[u8; 4]> for ComparisonNode {
    open spec fn obeys_from_spec() -> bool {
        true
    }

    open spec fn from_spec(data: [u8; 4]) -> Self {
        ComparisonNode {
            left_x: sp_i8_of_u8(data[1]),
            left_y: sp_i8_of_u8(data[0]),
            right_x: sp_i8_of_u8(data[3]),
            right_y: sp_i8_of_u8(data[2]),
        }
    }
}

impl From<ComparisonNode> for [i8; 4] {
    #[inline]
    fn from(node: ComparisonNode) -> (r: [i8; 4]) {
        [node.left_y, node.left_x, node.right_y, node.right_x]
    }
}

impl vstd::std_specs::convert::FromSpecImpl<ComparisonNode> for [i8; 4] {
    open spec fn obeys_from_spec() -> bool {
        true
    }

    open spec fn from_spec(node: ComparisonNode) -> Self {
        [node.left_y, node.left_x, node.right_y, node.right_x]
    }
}

impl From<ComparisonNode> for [u8; 4] {
    #[inline]
    fn from(node: ComparisonNode) -> (r: [u8; 4]) {
        [node.left_y as u8, node.left_x as u8, node.right_y as u8, node.right_x as u8]
    }
}

impl vstd::std_specs::convert::FromSpecImpl<ComparisonNode> for [u8; 4] {
    open spec fn obeys_from_spec() -> bool {
        true
    }

    open spec fn from_spec(node: ComparisonNode) -> Self {
        [node.left_y as u8, node.left_x as u8, node.right_y as u8, node.right_x as u8]
    }
}

/// A threshold node: two feature indices and a signed 16-bit threshold.
/// Its test compares the threshold against the difference of two bytes of
/// a feature vector.
#[derive(Clone, Copy, Debug, PartialEq, Eq)]
pub struct ThresholdNode {
    /// The two feature indices.
    pub idx: (usize, usize),
    /// The decision threshold.
    pub threshold: i16,
}

/// The feature test a threshold node performs: true iff the threshold
/// exceeds `features[idx.0] - features[idx.1]`.
pub open spec fn sp_threshold_bintest(node: ThresholdNode, features: Seq<u8>) -> bool {
    (node.threshold as int) > features[node.idx.0 as int] as int - features[node.idx.1 as int] as int
}

impl ThresholdNode {
    /// Compares the threshold against the difference of the two indexed
    /// feature bytes.
    #[inline]
    pub fn bintest(&self, features: &[u8]) -> (r: bool)
        requires
            self.idx.0 < features@.len(),
            self.idx.1 < features@.len(),
        ensures
            r == sp_threshold_bintest(*self, features@),
    {
        let a = features[self.idx.0] as i16;
        let b = features[self.idx.1] as i16;
        let diff = a - b;
        self.threshold > diff
    }
}

impl From<[u8; 10]> for ThresholdNode {
    #[inline]
    fn from(data: [u8; 10]) -> (r: Self) {
        let idx0 = ((data[0] as u32) * 0x100_0000 + (data[1] as u32) * 0x1_0000 + (data[2]
            as u32) * 0x100 + (data[3] as u32)) as usize;
        let idx1 = ((data[4] as u32) * 0x100_0000 + (data[5] as u32) * 0x1_0000 + (data[6]
            as u32) * 0x100 + (data[7] as u32)) as usize;
        let threshold = ((data[8] as u16) * 0x100 + (data[9] as u16)) as i16;
        Self { idx: (idx0, idx1), threshold }
    }
}

impl vstd::std_specs::convert::FromSpecImpl<[u8; 10]> for ThresholdNode {
    open spec fn obeys_from_spec() -> bool {
        true
    }

    open spec fn from_spec(data: [u8; 10]) -> Self {
        ThresholdNode {
            idx: (
                ((data[0] as u32) * 0x100_0000 + (data[1] as u32) * 0x1_0000 + (data[2]
                    as u32) * 0x100 + (data[3] as u32)) as usize,
                ((data[4] as u32) * 0x100_0000 + (data[5] as u32) * 0x1_0000 + (data[6]
                    as u32) * 0x100 + (data[7] as u32)) as usize,
            ),
            threshold: ((data[8] as u16) * 0x100 + (data[9] as u16)) as i16,
        }
    }
}

impl From<ThresholdNode> for [u8; 10] {
    #[inline]
    fn from(node: ThresholdNode) -> (r: [u8; 10]) {
        #[verifier::truncate]
        let i0 = node.idx.0 as u32;
        #[verifier::truncate]
        let i1 = node.idx.1 as u32;
        #[verifier::truncate]
        let t = node.threshold as u16;
        [
            (i0 >> 24u32) as u8,
            #[verifier::truncate]
            ((i0 >> 16u32) as u8),
            #[verifier::truncate]
            ((i0 >> 8u32) as u8),
            #[verifier::truncate]
            (i0 as u8),
            (i1 >> 24u32) as u8,
            #[verifier::truncate]
            ((i1 >> 16u32) as u8),
            #[verifier::truncate]
            ((i1 >> 8u32) as u8),
            #[verifier::truncate]
            (i1 as u8),
            (t >> 8u16) as u8,
            #[verifier::truncate]
            (t as u8),
        ]
    }
}

impl vstd::std_specs::convert::FromSpecImpl<ThresholdNode> for [u8; 10] {
    open spec fn obeys_from_spec() -> bool {
        true
    }

    open spec fn from_spec(node: ThresholdNode) -> Self {
        [
            ((node.idx.0 as u32) >> 24u32) as u8,
            ((node.idx.0 as u32) >> 16u32) as u8,
            ((node.idx.0 as u32) >> 8u32) as u8,
            (node.idx.0 as u32) as u8,
            ((node.idx.1 as u32) >> 24u32) as u8,
            ((node.idx.1 as u32) >> 16u32) as u8,
            ((node.idx.1 as u32) >> 8u32) as u8,
            (node.idx.1 as u32) as u8,
            ((node.threshold as u16) >> 8u16) as u8,
            (node.threshold as u16) as u8,
        ]
    }
}

/// A node that decides a tree descent by testing a feature vector.
pub trait FeatureBintest {
    /// When the feature vector is valid for this node.
    spec fn sp_valid(&self, features: Seq<u8>) -> bool;

    /// The decision as a specification value.
    spec fn sp_bintest(&self, features: Seq<u8>) -> bool;

    /// Performs the feature test.
    fn bintest(&self, features: &[u8]) -> (r: bool)
        requires
            self.sp_valid(features@),
        ensures
            r == self.sp_bintest(features@),
    ;
}

impl FeatureBintest for ThresholdNode {
    open spec fn sp_valid(&self, features: Seq<u8>) -> bool {
        self.idx.0 < features.len() && self.idx.1 < features.len()
    }

    open spec fn sp_bintest(&self, features: Seq<u8>) -> bool {
        sp_threshold_bintest(*self, features)
    }

    fn bintest(&self, features: &[u8]) -> (r: bool) {
        ThresholdNode::bintest(self, features)
    }
}

} // verus!
