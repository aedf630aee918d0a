use vstd::prelude::*;
use vstd::arithmetic::power2::{pow2, lemma_pow2_unfold, lemma_pow2_strictly_increases, lemma2_to64};

use crate::detector::{sp_node_at, lemma_pow2_le_max, lemma_div_bound_exact};
use crate::format::{FormatError, sp_le_u32, sp_le_i32, read_u32_le, read_i32_le};
use crate::image::GrayImage;
use crate::nodes::{ComparisonNode, sp_comparison_bintest};
use crate::transform::COORD_BOUND;
use vstd::bits::lemma_usize_shl_is_mul;

verus! {

/// One localizer tree: comparison nodes indexed from the root at slot
/// zero, and one 2-D shift per leaf, kept as the raw bit patterns of the
/// stored 32-bit floats, X component first.
#[derive(Clone, Debug)]
pub struct LocalizerTree {
    /// The comparison nodes, `2^depth - 1` of them.
    pub nodes: Vec<ComparisonNode>,
    /// Raw bit patterns of the per-leaf shift vectors, as `(x, y)`.
    pub predictions: Vec<(u32, u32)>,
}

/// A staged point localizer: each stage runs its trees on the current
/// window, sums their leaf shifts, moves the point, and shrinks the
/// window by the model's scale.
#[derive(Clone, Debug)]
pub struct Localizer {
    /// Levels per tree.
    pub depth: usize,
    /// Leaves per tree: `2^depth`.
    pub dsize: usize,
    /// Raw bit pattern of the per-stage shrink factor.
    pub scale: u32,
    /// The stages, each a list of trees, in evaluation order.
    pub stages: Vec<Vec<LocalizerTree>>,
}

/// Bytes one localizer tree occupies: `2^depth - 1` nodes of 4 bytes and
/// `2^depth` shift vectors of 8 bytes.
pub open spec fn sp_loc_tree_bytes(dsize: int) -> int {
    12 * dsize - 4
}

/// Byte offset of the `m`-th tree (in stage-major order) after the
/// 16-byte header.
pub open spec fn sp_loc_tree_off(m: int, dsize: int) -> int {
    16 + m * sp_loc_tree_bytes(dsize)
}

/// How one serialized localizer tree at byte offset `off` maps onto its
/// in-memory form. Each shift vector is stored Y first, X second, and is
/// kept as `(x, y)`.
pub open spec fn sp_loc_tree_matches(
    b: Seq<u8>,
    off: int,
    dsize: int,
    tree: LocalizerTree,
) -> bool {
    &&& tree.nodes@.len() == dsize - 1
    &&& forall|i: int| 0 <= i < dsize - 1 ==> tree.nodes@[i] == sp_node_at(b, off + 4 * i)
    &&& tree.predictions@.len() == dsize
    &&& forall|k: int|
        0 <= k < dsize ==> (#[trigger] tree.predictions@[k]).0 as int == sp_le_u32(
            b,
            off + (dsize - 1) * 4 + 8 * k + 4,
        ) && tree.predictions@[k].1 as int == sp_le_u32(b, off + (dsize - 1) * 4 + 8 * k)
}

impl Localizer {
    /// Table sizes agree with the depth in every stage.
    pub open spec fn wf(&self) -> bool {
        &&& self.depth <= 31
        &&& self.dsize as nat == pow2(self.depth as nat)
        &&& forall|s: int, t: int|
            0 <= s < self.stages@.len() && 0 <= t < self.stages@[s].len() ==> (
            #[trigger] self.stages@[s][t]).nodes@.len() == self.dsize as int - 1
                && self.stages@[s][t].predictions@.len() == self.dsize as int
    }
}

/// Whether a localizer stream decodes without error: a full 16-byte
/// header, a usable depth, non-negative counts, and enough bytes for
/// `nstages * ntrees` trees.
pub open spec fn sp_localizer_load_ok(b: Seq<u8>) -> bool {
    &&& b.len() >= 16
    &&& 0 <= sp_le_i32(b, 12) <= 31
    &&& sp_le_i32(b, 0) >= 0
    &&& (sp_le_i32(b, 0) == 0 || (sp_le_i32(b, 8) >= 0 && b.len() >= 16 + sp_le_i32(b, 0)
        * sp_le_i32(b, 8) * sp_loc_tree_bytes(pow2(sp_le_i32(b, 12) as nat) as int)))
}

/// The error a failing localizer stream decodes to.
pub open spec fn sp_localizer_load_err(b: Seq<u8>) -> FormatError {
    if b.len() < 16 {
        FormatError::UnexpectedEof
    } else if !(0 <= sp_le_i32(b, 12) <= 31) {
        FormatError::DepthOverflow
    } else {
        FormatError::UnexpectedEof
    }
}

/// How a decoded localizer corresponds to its stream.
pub open spec fn sp_localizer_matches(b: Seq<u8>, loc: Localizer) -> bool {
    &&& loc.depth as int == sp_le_i32(b, 12)
    &&& loc.dsize as nat == pow2(loc.depth as nat)
    &&& loc.scale as int == sp_le_u32(b, 4)
    &&& loc.stages@.len() == sp_le_i32(b, 0)
    &&& forall|s: int|
        0 <= s < loc.stages@.len() ==> (#[trigger] loc.stages@[s]).len() == sp_le_i32(b, 8)
    &&& forall|s: int, t: int|
        0 <= s < loc.stages@.len() && 0 <= t < loc.stages@[s].len() ==> sp_loc_tree_matches(
            b,
            sp_loc_tree_off(s * sp_le_i32(b, 8) + t, loc.dsize as int),
            loc.dsize as int,
            #[trigger] loc.stages@[s][t],
        )
}

/// Reads one localizer tree of `dsize` leaves at byte offset `pos`.
fn load_loc_tree(bytes: &[u8], pos: usize, dsize: usize) -> (tree: LocalizerTree)
    requires
        1 <= dsize,
        (dsize as int) <= 0x8000_0000,
        sp_loc_tree_bytes(dsize as int) <= bytes@.len() - pos as int,
    ensures
        sp_loc_tree_matches(bytes@, pos as int, dsize as int, tree),
{
    let n: usize = bytes.len();
    let mut nodes: Vec<ComparisonNode> = Vec::new();
    let mut i: usize = 0;
    while i < dsize - 1
        invariant
            0 <= i <= dsize - 1,
            1 <= dsize,
            sp_loc_tree_bytes(dsize as int) <= n as int - pos as int,
            n == bytes@.len(),
            nodes@.len() == i as int,
            forall|j: int| 0 <= j < i as int ==> nodes@[j] == sp_node_at(bytes@, pos as int + 4 * j),
        decreases dsize - i,
    {
        let p: usize = pos + 4 * i;
        let buf: [u8; 4] = [bytes[p], bytes[p + 1], bytes[p + 2], bytes[p + 3]];
        nodes.push(ComparisonNode::from_buffer(&buf));
        i = i + 1;
    }

    let preds_base: usize = pos + (dsize - 1) * 4;
    let mut predictions: Vec<(u32, u32)> = Vec::new();
    let mut k: usize = 0;
    while k < dsize
        invariant
            0 <= k <= dsize,
            1 <= dsize,
            sp_loc_tree_bytes(dsize as int) <= n as int - pos as int,
            n == bytes@.len(),
            preds_base as int == pos as int + (dsize as int - 1) * 4,
            predictions@.len() == k as int,
            forall|j: int|
                0 <= j < k as int ==> (#[trigger] predictions@[j]).0 as int == sp_le_u32(
                    bytes@,
                    pos as int + (dsize as int - 1) * 4 + 8 * j + 4,
                ) && predictions@[j].1 as int == sp_le_u32(
                    bytes@,
                    pos as int + (dsize as int - 1) * 4 + 8 * j,
                ),
        decreases dsize - k,
    {
        let y: u32 = read_u32_le(bytes, preds_base + 8 * k);
        let x: u32 = read_u32_le(bytes, preds_base + 8 * k + 4);
        predictions.push((x, y));
        k = k + 1;
    }

    LocalizerTree { nodes, predictions }
}

impl Localizer {
    /// Decodes a localizer model from a fully buffered little-endian
    /// stream: the stage count, the shrink scale, the per-stage tree
    /// count and the tree depth, then the trees stage by stage.
    pub fn load(bytes: &[u8]) -> (r: Result<Localizer, FormatError>)
        ensures
            r is Ok <==> sp_localizer_load_ok(bytes@),
            match r {
                Ok(loc) => loc.wf() && sp_localizer_matches(bytes@, loc),
                Err(e) => e == sp_localizer_load_err(bytes@),
            },
    {
        let n: usize = bytes.len();
        if n < 16 {
            return Err(FormatError::UnexpectedEof);
        }
        let nstages_raw: i32 = read_i32_le(bytes, 0);
        let scale: u32 = read_u32_le(bytes, 4);
        let ntrees_raw: i32 = read_i32_le(bytes, 8);
        let depth_raw: i32 = read_i32_le(bytes, 12);
        if depth_raw < 0 || depth_raw > 31 {
            return Err(FormatError::DepthOverflow);
        }
        let depth: usize = depth_raw as usize;

        proof {
            lemma_pow2_le_max(depth as nat);
            assert(1usize * pow2(depth as nat) == pow2(depth as nat));
            lemma_usize_shl_is_mul(1usize, depth);
            assert(pow2(31) == 0x8000_0000) by {
                lemma2_to64();
            }
            if depth < 31 {
                lemma_pow2_strictly_increases(depth as nat, 31);
            }
        }
        let dsize: usize = 1usize << depth;

        if nstages_raw < 0 {
            // The stage count reads back as an enormous unsigned value;
            // treat the stream as truncated rather than trying to build
            // that many stages.
            return Err(FormatError::UnexpectedEof);
        }
        let nstages: usize = nstages_raw as usize;

        if nstages > 0 && ntrees_raw < 0 {
            // Same for the per-stage tree count.
            return Err(FormatError::UnexpectedEof);
        }

        if nstages == 0 {
            return Ok(Localizer { depth, dsize, scale, stages: Vec::new() });
        }
        let ntrees: usize = ntrees_raw as usize;

        let per_tree: u128 = 12u128 * (dsize as u128) - 4;
        proof {
            assert((nstages as int) * (ntrees as int) <= 0x8000_0000 * 0x8000_0000)
                by (nonlinear_arith)
                requires
                    0 <= (nstages as int) <= 0x8000_0000 && 0 <= (ntrees as int) <= 0x8000_0000,
            ;
        }
        let total: u128 = (nstages as u128) * (ntrees as u128);
        let avail: u128 = (n - 16) as u128;
        if avail / per_tree < total {
            proof {
                lemma_div_bound_exact(avail as int, per_tree as int, total as int);
            }
            return Err(FormatError::UnexpectedEof);
        }
        proof {
            lemma_div_bound_exact(avail as int, per_tree as int, total as int);
        }

        if ntrees == 0 {
            let mut stages: Vec<Vec<LocalizerTree>> = Vec::new();
            let mut s: usize = 0;
            while s < nstages
                invariant
                    0 <= s <= nstages,
                    stages@.len() == s as int,
                    forall|j: int| 0 <= j < s as int ==> (#[trigger] stages@[j]).len() == 0,
                decreases nstages - s,
            {
                stages.push(Vec::new());
                s = s + 1;
            }
            return Ok(Localizer { depth, dsize, scale, stages });
        }

        proof {
            assert(total as int >= 1) by (nonlinear_arith)
                requires
                    total as int == nstages as int * ntrees as int && (nstages as int) >= 1
                        && (ntrees as int) >= 1,
            ;
            assert(avail as int >= per_tree as int) by (nonlinear_arith)
                requires
                    (avail as int) >= total as int * per_tree as int && (total as int) >= 1
                        && (per_tree as int) >= 1,
            ;
        }
        let tree_bytes: usize = 12 * dsize - 4;
        let mut stages: Vec<Vec<LocalizerTree>> = Vec::new();
        let mut pos: usize = 16;
        let mut s: usize = 0;
        while s < nstages
            invariant
                0 <= s <= nstages,
                1 <= nstages,
                1 <= dsize,
                (dsize as int) <= 0x8000_0000,
                n == bytes@.len(),
                tree_bytes as int == sp_loc_tree_bytes(dsize as int),
                n as int - 16 >= nstages as int * ntrees as int * sp_loc_tree_bytes(
                    dsize as int,
                ),
                pos as int == sp_loc_tree_off(s as int * ntrees as int, dsize as int),
                stages@.len() == s as int,
                forall|j: int| 0 <= j < s as int ==> (#[trigger] stages@[j]).len() == ntrees as int,
                forall|j: int, t: int|
                    0 <= j < s as int && 0 <= t < ntrees as int ==> sp_loc_tree_matches(
                        bytes@,
                        sp_loc_tree_off(j * ntrees as int + t, dsize as int),
                        dsize as int,
                        #[trigger] stages@[j][t],
                    ),
            decreases nstages - s,
        {
            let mut stage: Vec<LocalizerTree> = Vec::new();
            let mut t: usize = 0;
            while t < ntrees
                invariant
                    0 <= t <= ntrees,
                    0 <= s < nstages,
                    1 <= dsize,
                    (dsize as int) <= 0x8000_0000,
                    n == bytes@.len(),
                    tree_bytes as int == sp_loc_tree_bytes(dsize as int),
                    n as int - 16 >= nstages as int * ntrees as int * sp_loc_tree_bytes(
                        dsize as int,
                    ),
                    pos as int == sp_loc_tree_off(
                        s as int * ntrees as int + t as int,
                        dsize as int,
                    ),
                    stage@.len() == t as int,
                    forall|u: int|
                        0 <= u < t as int ==> sp_loc_tree_matches(
                            bytes@,
                            sp_loc_tree_off(s as int * ntrees as int + u, dsize as int),
                            dsize as int,
                            #[trigger] stage@[u],
                        ),
                decreases ntrees - t,
            {
                proof {
                    lemma_loc_tree_step(
                        s as int,
                        t as int,
                        nstages as int,
                        ntrees as int,
                        sp_loc_tree_bytes(dsize as int),
                    );
                }
                let tree = load_loc_tree(bytes, pos, dsize);
                stage.push(tree);
                pos = pos + tree_bytes;
                t = t + 1;
            }
            proof {
                assert(s as int * ntrees as int + ntrees as int == (s as int + 1) * ntrees as int)
                    by (nonlinear_arith);
            }
            stages.push(stage);
            s = s + 1;
        }

        Ok(Localizer { depth, dsize, scale, stages })
    }

    /// Runs tree `t` of stage `stage` on the window centered at
    /// `(cx, cy)` with size `size` and returns the index of the selected
    /// leaf shift, strictly below `dsize`.
    pub fn leaf_slot(
        &self,
        stage: usize,
        t: usize,
        image: &GrayImage,
        cx: i32,
        cy: i32,
        size: u32,
    ) -> (r: usize)
        requires
            self.wf(),
            stage < self.stages@.len(),
            t < self.stages@[stage as int].len(),
            image.wf(),
            image.width >= 1,
            image.height >= 1,
            -COORD_BOUND <= cx <= COORD_BOUND,
            -COORD_BOUND <= cy <= COORD_BOUND,
            size <= COORD_BOUND as u32,
        ensures
            r as int == sp_descend_from_root(
                self.stages@[stage as int][t as int].nodes@,
                *image,
                cx as int,
                cy as int,
                size as int,
                0,
                self.depth as nat,
            ) + 1 - self.dsize as int,
            r < self.dsize,
    {
        let ghost nodes_view = self.stages@[stage as int][t as int].nodes@;
        let mut idx: usize = 0;
        let mut k: usize = 0;
        proof {
            lemma2_to64();
        }
        while k < self.depth
            invariant
                self.wf(),
                stage < self.stages@.len(),
                t < self.stages@[stage as int].len(),
                image.wf(),
                image.width >= 1,
                image.height >= 1,
                -COORD_BOUND <= cx <= COORD_BOUND,
                -COORD_BOUND <= cy <= COORD_BOUND,
                size <= COORD_BOUND as u32,
                k <= self.depth,
                nodes_view == self.stages@[stage as int][t as int].nodes@,
                pow2(k as nat) - 1 <= idx as int,
                (idx as int) < pow2((k + 1) as nat) - 1,
                sp_descend_from_root(
                    nodes_view,
                    *image,
                    cx as int,
                    cy as int,
                    size as int,
                    idx as int,
                    (self.depth - k) as nat,
                ) == sp_descend_from_root(
                    nodes_view,
                    *image,
                    cx as int,
                    cy as int,
                    size as int,
                    0,
                    self.depth as nat,
                ),
            decreases self.depth - k,
        {
            proof {
                if k + 1 < self.depth as int {
                    lemma_pow2_strictly_increases((k + 1) as nat, self.depth as nat);
                }
                lemma_pow2_unfold((k + 1) as nat);
                lemma_pow2_unfold((k + 2) as nat);
                if k + 2 < 32 {
                    lemma_pow2_strictly_increases((k + 2) as nat, 32);
                }
                assert(pow2(32) == 0x1_0000_0000) by {
                    lemma2_to64();
                }
                assert(usize::MAX >= 0xFFFF_FFFF);
            }
            let node = self.stages[stage][t].nodes[idx];
            let b = node.bintest(image, cx, cy, size);
            idx = 2 * idx + 1 + if b {
                1
            } else {
                0
            };
            k = k + 1;
        }
        proof {
            if self.depth < 31 {
                lemma_pow2_strictly_increases(self.depth as nat, (self.depth + 1) as nat);
            }
            lemma_pow2_unfold((self.depth + 1) as nat);
            if self.depth as int + 1 < 32 {
                lemma_pow2_strictly_increases((self.depth + 1) as nat, 32);
            }
            assert(pow2(32) == 0x1_0000_0000) by {
                lemma2_to64();
            }
            assert(usize::MAX >= 0xFFFF_FFFF);
        }
        (idx + 1) - self.dsize
    }
}

/// The slot reached from `idx` after `steps` more comparison levels of a
/// root-at-zero tree: each level moves to `2 * idx + 1`, plus one more
/// when the pixel test passes.
pub open spec fn sp_descend_from_root(
    nodes: Seq<ComparisonNode>,
    image: GrayImage,
    cx: int,
    cy: int,
    s: int,
    idx: int,
    steps: nat,
) -> int
    decreases steps,
{
    if steps == 0 {
        idx
    } else {
        let next = 2 * idx + 1 + if sp_comparison_bintest(nodes[idx], image, cx, cy, s) {
            1int
        } else {
            0int
        };
        sp_descend_from_root(nodes, image, cx, cy, s, next, (steps - 1) as nat)
    }
}

/// Stepping from tree `(s, t)` to the next tree moves the offset by one
/// tree's bytes and never passes the total need.
proof fn lemma_loc_tree_step(s: int, t: int, ns: int, nt: int, tb: int)
    requires
        0 <= s < ns,
        0 <= t < nt,
        1 <= tb,
    ensures
        (s * nt + t + 1) * tb == (s * nt + t) * tb + tb,
        (s * nt + t + 1) * tb <= ns * nt * tb,
{
    assert((s * nt + t + 1) * tb == (s * nt + t) * tb + tb) by (nonlinear_arith);
    assert(s * nt + t + 1 <= ns * nt) by (nonlinear_arith)
        requires
            0 <= s < ns && 0 <= t < nt,
    ;
    assert((s * nt + t + 1) * tb <= (ns * nt) * tb) by (nonlinear_arith)
        requires
            s * nt + t + 1 <= ns * nt && 1 <= tb,
    ;
    assert(ns * nt * tb == (ns * nt) * tb) by (nonlinear_arith);
}


} // verus!
