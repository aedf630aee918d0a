use vstd::prelude::*;
use vstd::arithmetic::power2::{pow2, lemma_pow2_unfold, lemma_pow2_strictly_increases, lemma2_to64};
use vstd::arithmetic::div_mod::lemma_fundamental_div_mod;
use vstd::bits::lemma_usize_shl_is_mul;

use crate::format::{FormatError, sp_le_u32, sp_le_i32, read_u32_le, read_i32_le};
use crate::image::GrayImage;
use crate::nodes::{ComparisonNode, sp_comparison_bintest, sp_i8_of_u8};
use crate::transform::COORD_BOUND;

verus! {

/// The placeholder node kept at slot zero of every tree, where the
/// implicit root makes traversal start at slot one.
pub open spec fn sp_zero_node() -> ComparisonNode {
    ComparisonNode { left_x: 0i8, left_y: 0i8, right_x: 0i8, right_y: 0i8 }
}

/// The comparison node serialized at byte offset `p`: four signed bytes in
/// the order `y0, x0, y1, x1`.
pub open spec fn sp_node_at(b: Seq<u8>, p: int) -> ComparisonNode {
    ComparisonNode {
        left_x: sp_i8_of_u8(b[p + 1]),
        left_y: sp_i8_of_u8(b[p]),
        right_x: sp_i8_of_u8(b[p + 3]),
        right_y: sp_i8_of_u8(b[p + 2]),
    }
}

/// One decision tree of the cascade: comparison nodes, one leaf value per
/// path (kept as the raw bit pattern of the stored 32-bit float) and the
/// cumulative early-reject threshold (raw bit pattern as well).
#[derive(Clone, Debug)]
pub struct DetectorTree {
    /// Tree nodes; slot zero is unused.
    pub nodes: Vec<ComparisonNode>,
    /// Raw bit patterns of the leaf values.
    pub predictions: Vec<u32>,
    /// Raw bit pattern of the early-reject threshold.
    pub threshold: u32,
}

/// How one serialized tree of `dsize` leaves at byte offset `off` maps
/// onto its in-memory form: `dsize - 1` nodes behind a placeholder, then
/// `dsize` little-endian leaf values, then the threshold.
pub open spec fn sp_tree_matches(b: Seq<u8>, off: int, dsize: int, tree: DetectorTree) -> bool {
    &&& tree.nodes@.len() == dsize
    &&& tree.nodes@[0] == sp_zero_node()
    &&& forall|i: int| 1 <= i < dsize ==> tree.nodes@[i] == sp_node_at(b, off + (i - 1) * 4)
    &&& tree.predictions@.len() == dsize
    &&& forall|k: int|
        0 <= k < dsize ==> (#[trigger] tree.predictions@[k]) as int == sp_le_u32(
            b,
            off + (dsize - 1) * 4 + 4 * k,
        )
    &&& tree.threshold as int == sp_le_u32(b, off + 8 * dsize - 4)
}

/// Byte offset of tree `t` in a detector stream with `dsize` leaves per
/// tree: 8 header bytes are skipped, depth and tree count take 4 bytes
/// each, and every tree takes `8 * dsize` bytes.
pub open spec fn sp_tree_off(t: int, dsize: int) -> int {
    16 + t * (8 * dsize)
}

/// A cascade of decision trees over pixel comparisons, evaluated in file
/// order with early rejection.
#[derive(Clone, Debug)]
pub struct Detector {
    /// Levels per tree.
    pub depth: usize,
    /// Leaves per tree: `2^depth`.
    pub dsize: usize,
    /// Raw bit pattern of the final classification threshold (the last
    /// tree's early-reject threshold).
    pub threshold: u32,
    /// The trees, in evaluation order.
    pub forest: Vec<DetectorTree>,
}

impl Detector {
    /// Table sizes agree with the depth and at least one tree is present.
    pub open spec fn wf(&self) -> bool {
        &&& self.depth <= 31
        &&& self.dsize as nat == pow2(self.depth as nat)
        &&& 1 <= self.forest@.len()
        &&& forall|t: int|
            0 <= t < self.forest@.len() ==> (#[trigger] self.forest@[t]).nodes@.len()
                == self.dsize as int && self.forest@[t].predictions@.len() == self.dsize as int
        &&& self.threshold == self.forest@[self.forest@.len() - 1].threshold
    }
}

/// Whether a detector stream decodes without error: long enough for the
/// header, a usable depth, at least one tree, and enough bytes for all
/// trees.
pub open spec fn sp_detector_load_ok(b: Seq<u8>) -> bool {
    &&& b.len() >= 16
    &&& 0 <= sp_le_i32(b, 8) <= 31
    &&& sp_le_i32(b, 12) >= 1
    &&& b.len() >= 16 + sp_le_i32(b, 12) * (8 * pow2(sp_le_i32(b, 8) as nat) as int)
}

/// The error a failing detector stream decodes to, in the order the
/// stream is read: truncated header, unusable depth, empty tree list,
/// truncated tree data.
pub open spec fn sp_detector_load_err(b: Seq<u8>) -> FormatError {
    if b.len() < 12 {
        FormatError::UnexpectedEof
    } else if !(0 <= sp_le_i32(b, 8) <= 31) {
        FormatError::DepthOverflow
    } else if b.len() < 16 {
        FormatError::UnexpectedEof
    } else if sp_le_i32(b, 12) == 0 {
        FormatError::NoTrees
    } else {
        FormatError::UnexpectedEof
    }
}

/// How a decoded detector corresponds to its stream.
pub open spec fn sp_detector_matches(b: Seq<u8>, det: Detector) -> bool {
    &&& det.depth as int == sp_le_i32(b, 8)
    &&& det.dsize as nat == pow2(det.depth as nat)
    &&& det.forest@.len() == sp_le_i32(b, 12)
    &&& forall|t: int|
        0 <= t < det.forest@.len() ==> sp_tree_matches(
            b,
            sp_tree_off(t, det.dsize as int),
            det.dsize as int,
            #[trigger] det.forest@[t],
        )
}

/// Reads one tree of `dsize` leaves at byte offset `pos`.
fn load_tree(bytes: &[u8], pos: usize, dsize: usize) -> (tree: DetectorTree)
    requires
        1 <= dsize,
        8 * (dsize as int) <= bytes@.len() - pos as int,
    ensures
        sp_tree_matches(bytes@, pos as int, dsize as int, tree),
{
    let n: usize = bytes.len();
    let mut nodes: Vec<ComparisonNode> = Vec::new();
    nodes.push(ComparisonNode::new([0i8, 0i8, 0i8, 0i8]));

    let mut i: usize = 1;
    while i < dsize
        invariant
            1 <= i <= dsize,
            8 * (dsize as int) <= n as int - pos as int,
            n == bytes@.len(),
            nodes@.len() == i as int,
            nodes@[0] == sp_zero_node(),
            forall|j: int| 1 <= j < i as int ==> nodes@[j] == sp_node_at(bytes@, pos as int + (j - 1) * 4),
        decreases dsize - i,
    {
        let p: usize = pos + (i - 1) * 4;
        let buf: [u8; 4] = [bytes[p], bytes[p + 1], bytes[p + 2], bytes[p + 3]];
        nodes.push(ComparisonNode::from_buffer(&buf));
        i = i + 1;
    }

    let preds_base: usize = pos + (dsize - 1) * 4;
    let mut predictions: Vec<u32> = Vec::new();
    let mut k: usize = 0;
    while k < dsize
        invariant
            0 <= k <= dsize,
            1 <= dsize,
            8 * (dsize as int) <= n as int - pos as int,
            n == bytes@.len(),
            preds_base as int == pos as int + (dsize as int - 1) * 4,
            predictions@.len() == k as int,
            forall|j: int|
                0 <= j < k as int ==> (#[trigger] predictions@[j]) as int == sp_le_u32(
                    bytes@,
                    pos as int + (dsize as int - 1) * 4 + 4 * j,
                ),
        decreases dsize - k,
    {
        predictions.push(read_u32_le(bytes, preds_base + 4 * k));
        k = k + 1;
    }

    let threshold: u32 = read_u32_le(bytes, pos + 8 * dsize - 4);

    DetectorTree { nodes, predictions, threshold }
}

impl Detector {
    /// Decodes a detector model from a fully buffered little-endian
    /// stream: 8 skipped bytes, the tree depth, the tree count, then the
    /// trees. The final classification threshold is the last tree's
    /// threshold.
    pub fn load(bytes: &[u8]) -> (r: Result<Detector, FormatError>)
        ensures
            r is Ok <==> sp_detector_load_ok(bytes@),
            match r {
                Ok(det) => det.wf() && sp_detector_matches(bytes@, det),
                Err(e) => e == sp_detector_load_err(bytes@),
            },
    {
        let n: usize = bytes.len();
        if n < 12 {
            return Err(FormatError::UnexpectedEof);
        }
        let depth_raw: i32 = read_i32_le(bytes, 8);
        if depth_raw < 0 || depth_raw > 31 {
            return Err(FormatError::DepthOverflow);
        }
        let depth: usize = depth_raw as usize;
        if n < 16 {
            return Err(FormatError::UnexpectedEof);
        }
        let ntrees_raw: i32 = read_i32_le(bytes, 12);
        if ntrees_raw == 0 {
            return Err(FormatError::NoTrees);
        }
        if ntrees_raw < 0 {
            // The stored count reads back as an enormous unsigned value;
            // no finite stream can hold that many trees.
            return Err(FormatError::UnexpectedEof);
        }
        let ntrees: usize = ntrees_raw as usize;

        proof {
            lemma_pow2_le_max(depth as nat);
            assert(1usize * pow2(depth as nat) == pow2(depth as nat));
            lemma_usize_shl_is_mul(1usize, depth);
        }
        let dsize: usize = 1usize << depth;

        // Enough bytes must remain for `ntrees` trees of `8 * dsize`
        // bytes each; the division sidesteps any overflow.
        let per_tree: u128 = 8u128 * (dsize as u128);
        let avail: u128 = (n - 16) as u128;
        if avail / per_tree < ntrees as u128 {
            proof {
                lemma_div_bound_exact(avail as int, per_tree as int, ntrees as int);
            }
            return Err(FormatError::UnexpectedEof);
        }
        proof {
            lemma_div_bound_exact(avail as int, per_tree as int, ntrees as int);
        }

        let mut forest: Vec<DetectorTree> = Vec::new();
        let mut pos: usize = 16;
        let mut t: usize = 0;
        while t < ntrees
            invariant
                0 <= t <= ntrees,
                1 <= ntrees,
                1 <= dsize,
                n == bytes@.len(),
                (n as int) >= 16 + ntrees as int * (8 * dsize as int),
                pos as int == sp_tree_off(t as int, dsize as int),
                forest@.len() == t as int,
                forall|j: int|
                    0 <= j < t as int ==> sp_tree_matches(
                        bytes@,
                        sp_tree_off(j, dsize as int),
                        dsize as int,
                        #[trigger] forest@[j],
                    ),
            decreases ntrees - t,
        {
            proof {
                lemma_tree_off_step(t as int, ntrees as int, dsize as int);
            }
            let tree = load_tree(bytes, pos, dsize);
            forest.push(tree);
            pos = pos + 8 * dsize;
            t = t + 1;
        }

        let threshold: u32 = forest[ntrees - 1].threshold;

        Ok(Detector { depth, dsize, threshold, forest })
    }
}

/// The slot reached from `idx` after `steps` more comparison levels: each
/// level doubles the slot and adds one when the pixel test fails.
pub open spec fn sp_descend(
    nodes: Seq<ComparisonNode>,
    image: GrayImage,
    cx: int,
    cy: int,
    s: int,
    idx: int,
    steps: nat,
) -> int
    decreases steps,
{
    if steps == 0 {
        idx
    } else {
        let next = 2 * idx + if sp_comparison_bintest(nodes[idx], image, cx, cy, s) {
            0int
        } else {
            1int
        };
        sp_descend(nodes, image, cx, cy, s, next, (steps - 1) as nat)
    }
}

impl Detector {
    /// Runs tree `t` on the window centered at `(cx, cy)` with size
    /// `size` and returns the leaf slot the comparisons select; it lies
    /// in `[dsize, 2 * dsize)`, so `r - dsize` indexes the tree's leaf
    /// values.
    pub fn leaf_index(&self, t: usize, image: &GrayImage, cx: i32, cy: i32, size: u32) -> (r:
        usize)
        requires
            self.wf(),
            t < self.forest@.len(),
            image.wf(),
            image.width >= 1,
            image.height >= 1,
            -COORD_BOUND <= cx <= COORD_BOUND,
            -COORD_BOUND <= cy <= COORD_BOUND,
            size <= COORD_BOUND as u32,
        ensures
            r as int == sp_descend(
                self.forest@[t as int].nodes@,
                *image,
                cx as int,
                cy as int,
                size as int,
                1,
                self.depth as nat,
            ),
            self.dsize <= r < 2 * self.dsize,
    {
        let ghost nodes_view = self.forest@[t as int].nodes@;
        let mut idx: usize = 1;
        let mut k: usize = 0;
        proof {
            lemma2_to64();
        }
        while k < self.depth
            invariant
                self.wf(),
                t < self.forest@.len(),
                image.wf(),
                image.width >= 1,
                image.height >= 1,
                -COORD_BOUND <= cx <= COORD_BOUND,
                -COORD_BOUND <= cy <= COORD_BOUND,
                size <= COORD_BOUND as u32,
                k <= self.depth,
                nodes_view == self.forest@[t as int].nodes@,
                pow2(k as nat) <= idx as int,
                (idx as int) < pow2((k + 1) as nat),
                sp_descend(
                    nodes_view,
                    *image,
                    cx as int,
                    cy as int,
                    size as int,
                    idx as int,
                    (self.depth - k) as nat,
                ) == sp_descend(nodes_view, *image, cx as int, cy as int, size as int, 1, self.depth as nat),
            decreases self.depth - k,
        {
            proof {
                if k + 1 < self.depth as int {
                    lemma_pow2_strictly_increases((k + 1) as nat, self.depth as nat);
                }
                lemma_pow2_unfold((k + 1) as nat);
                lemma_pow2_unfold((k + 2) as nat);
                if k + 2 < 32 {
                    lemma_pow2_strictly_increases((k + 2) as nat, 32);
                }
                assert(pow2(32) == 0x1_0000_0000) by {
                    lemma2_to64();
                }
                assert(2 * idx as int + 1 < pow2((k + 2) as nat));
                assert(usize::MAX >= 0xFFFF_FFFF);
            }
            let node = self.forest[t].nodes[idx];
            let b = node.bintest(image, cx, cy, size);
            idx = 2 * idx + if b {
                0
            } else {
                1
            };
            k = k + 1;
        }
        proof {
            if self.depth < 31 {
                lemma_pow2_strictly_increases(self.depth as nat, (self.depth + 1) as nat);
            }
            lemma_pow2_unfold((self.depth + 1) as nat);
        }
        idx
    }
}

/// With `t < n` trees read so far, the next tree still fits: its end
/// `16 + (t + 1) * 8d` stays below the total need `16 + n * 8d`.
proof fn lemma_tree_off_step(t: int, n: int, d: int)
    requires
        0 <= t < n,
        1 <= d,
    ensures
        sp_tree_off(t, d) + 8 * d == sp_tree_off(t + 1, d),
        sp_tree_off(t + 1, d) <= sp_tree_off(n, d),
{
    assert((t + 1) * (8 * d) == t * (8 * d) + 8 * d) by (nonlinear_arith);
    assert((t + 1) * (8 * d) <= n * (8 * d)) by (nonlinear_arith)
        requires
            t + 1 <= n && 0 <= 8 * d,
    ;
}

/// `a / p < n` exactly captures `a < n * p` for a positive `p`.
pub proof fn lemma_div_bound_exact(a: int, p: int, n: int)
    requires
        0 <= a,
        1 <= p,
        0 <= n,
    ensures
        (a / p < n) <==> (a < n * p),
{
    lemma_fundamental_div_mod(a, p);
    assert(0 <= a % p < p);
    if a / p < n {
        assert(a < n * p) by (nonlinear_arith)
            requires
                a == p * (a / p) + a % p && 0 <= a % p < p && a / p < n && 1 <= p,
        ;
    }
    if a < n * p {
        assert(a / p < n) by (nonlinear_arith)
            requires
                a == p * (a / p) + a % p && 0 <= a % p < p && a < n * p && 1 <= p && 0 <= a,
        ;
    }
}

/// `pow2(d)` fits in `usize` for `d <= 31`.
pub proof fn lemma_pow2_le_max(d: nat)
    requires
        d <= 31,
    ensures
        pow2(d) <= usize::MAX,
        1 <= pow2(d),
{
    lemma2_to64();
    if d < 31 {
        lemma_pow2_strictly_increases(d, 31);
    }
    assert(pow2(31) == 0x8000_0000) by {
        lemma2_to64();
    }
}


} // verus!
