use vstd::prelude::*;
use vstd::arithmetic::power2::{pow2, lemma_pow2_unfold, lemma_pow2_strictly_increases, lemma2_to64};
use vstd::arithmetic::mul::lemma_mul_inequality;

use crate::detector::{lemma_pow2_le_max, lemma_div_bound_exact};
use crate::format::{FormatError, sp_be_u32, sp_be_i16, read_u32_be, read_i16_be};
use crate::nodes::{ThresholdNode, sp_threshold_bintest};
use vstd::bits::lemma_usize_shl_is_mul;

verus! {

/// One feature descriptor of a shaper forest: the canonical-shape point
/// it anchors to and a local offset, kept as the raw bit patterns of the
/// stored 32-bit floats.
#[derive(Clone, Copy, Debug, PartialEq, Eq)]
pub struct ShaperDelta {
    /// Index of the anchor point in the shape.
    pub anchor: usize,
    /// Raw bit pattern of the X offset.
    pub x: u32,
    /// Raw bit pattern of the Y offset.
    pub y: u32,
}

/// One regression tree of a shaper forest: threshold nodes indexed from
/// the root at slot zero, and one shift-vector set per leaf, each holding
/// one raw-bit `(x, y)` shift per shape point.
#[derive(Clone, Debug)]
pub struct ShaperTree {
    /// The threshold nodes, `2^depth - 1` of them.
    pub nodes: Vec<ThresholdNode>,
    /// Per-leaf shift-vector sets, `2^depth` of them.
    pub shifts: Vec<Vec<(u32, u32)>>,
}

/// One forest of the shaper ensemble: its trees and the feature
/// descriptors that fill the byte vector its trees test.
#[derive(Clone, Debug)]
pub struct ShaperForest {
    /// The regression trees, in evaluation order.
    pub trees: Vec<ShaperTree>,
    /// The feature descriptors, one per feature byte.
    pub deltas: Vec<ShaperDelta>,
}

/// An ensemble shape regressor: a canonical initial shape and staged
/// forests whose leaves shift every shape point at once.
#[derive(Clone, Debug)]
pub struct Shaper {
    /// Levels per tree.
    pub depth: usize,
    /// Inner nodes per tree: `2^depth - 1`; also the offset that turns a
    /// final traversal slot into a leaf index.
    pub dsize: usize,
    /// The canonical initial shape, one raw-bit `(x, y)` pair per point.
    pub shape: Vec<(u32, u32)>,
    /// The forests, in evaluation order.
    pub forests: Vec<ShaperForest>,
}

/// The threshold node serialized at byte offset `p`: two big-endian
/// 32-bit feature indices and a big-endian 16-bit threshold.
pub open spec fn sp_thr_node_at(b: Seq<u8>, p: int) -> ThresholdNode {
    ThresholdNode {
        idx: (sp_be_u32(b, p) as usize, sp_be_u32(b, p + 4) as usize),
        threshold: sp_be_i16(b, p + 8) as i16,
    }
}

/// Bytes one shaper tree occupies: `nc` nodes of 10 bytes and `sc`
/// shift-vector sets of `ss` pairs of 8 bytes.
pub open spec fn sp_sh_tree_bytes(nc: int, sc: int, ss: int) -> int {
    10 * nc + sc * (8 * ss)
}

/// How one serialized shaper tree at byte offset `off` maps onto its
/// in-memory form, for `nc` nodes, `sc` leaves and `ss` shape points.
pub open spec fn sp_sh_tree_matches(
    b: Seq<u8>,
    off: int,
    nc: int,
    sc: int,
    ss: int,
    tree: ShaperTree,
) -> bool {
    &&& tree.nodes@.len() == nc
    &&& forall|i: int| 0 <= i < nc ==> tree.nodes@[i] == sp_thr_node_at(b, off + 10 * i)
    &&& tree.shifts@.len() == sc
    &&& forall|k: int| 0 <= k < sc ==> (#[trigger] tree.shifts@[k]).len() == ss
    &&& forall|k: int, j: int|
        0 <= k < sc && 0 <= j < ss ==> (#[trigger] tree.shifts@[k][j]).0 as int == sp_be_u32(
            b,
            off + 10 * nc + k * (8 * ss) + 8 * j,
        ) && tree.shifts@[k][j].1 as int == sp_be_u32(b, off + 10 * nc + k * (8 * ss) + 8 * j + 4)
}

/// Bytes one forest occupies: `fs` trees plus `nf` anchors of 4 bytes and
/// `nf` offset pairs of 8 bytes.
pub open spec fn sp_forest_bytes(fs: int, tb: int, nf: int) -> int {
    fs * tb + 12 * nf
}

/// How one serialized forest at byte offset `off` maps onto its in-memory
/// form.
pub open spec fn sp_forest_matches(
    b: Seq<u8>,
    off: int,
    fs: int,
    nc: int,
    sc: int,
    ss: int,
    nf: int,
    forest: ShaperForest,
) -> bool {
    let tb = sp_sh_tree_bytes(nc, sc, ss);
    &&& forest.trees@.len() == fs
    &&& forall|t: int|
        0 <= t < fs ==> sp_sh_tree_matches(b, off + t * tb, nc, sc, ss, #[trigger] forest.trees@[t])
    &&& forest.deltas@.len() == nf
    &&& forall|e: int|
        0 <= e < nf ==> (#[trigger] forest.deltas@[e]).anchor as int == sp_be_u32(
            b,
            off + fs * tb + 4 * e,
        ) && forest.deltas@[e].x as int == sp_be_u32(b, off + fs * tb + 4 * nf + 8 * e)
            && forest.deltas@[e].y as int == sp_be_u32(b, off + fs * tb + 4 * nf + 8 * e + 4)
}

/// Number of shape points a shaper stream declares: `nrows * ncols / 2`.
pub open spec fn sp_shape_size(b: Seq<u8>) -> int {
    sp_be_u32(b, 1) * sp_be_u32(b, 5) / 2
}

/// Whether a shaper stream decodes without error: a version-one marker, a
/// full 25-byte header, a usable depth, and enough bytes for the shape
/// and all forests.
pub open spec fn sp_shaper_load_ok(b: Seq<u8>) -> bool {
    let ss = sp_shape_size(b);
    let sc = pow2(sp_be_u32(b, 17) as nat) as int;
    let tb = sp_sh_tree_bytes(sc - 1, sc, ss);
    &&& b.len() >= 1
    &&& b[0] == 1u8
    &&& b.len() >= 25
    &&& sp_be_u32(b, 17) <= 31
    &&& 8 * ss <= b.len() - 25
    &&& sp_be_u32(b, 9) * sp_forest_bytes(sp_be_u32(b, 13), tb, sp_be_u32(b, 21)) <= b.len()
        - 25 - 8 * ss
}

/// The error a failing shaper stream decodes to.
pub open spec fn sp_shaper_load_err(b: Seq<u8>) -> FormatError {
    if b.len() < 1 {
        FormatError::UnexpectedEof
    } else if b[0] != 1u8 {
        FormatError::BadVersion
    } else if b.len() < 25 {
        FormatError::UnexpectedEof
    } else if sp_be_u32(b, 17) > 31 {
        FormatError::DepthOverflow
    } else {
        FormatError::UnexpectedEof
    }
}

/// How a decoded shaper corresponds to its stream.
pub open spec fn sp_shaper_matches(b: Seq<u8>, sh: Shaper) -> bool {
    let ss = sp_shape_size(b);
    let sc = pow2(sp_be_u32(b, 17) as nat) as int;
    let tb = sp_sh_tree_bytes(sc - 1, sc, ss);
    let base = 25 + 8 * ss;
    &&& sh.depth as int == sp_be_u32(b, 17)
    &&& sh.dsize as int == sc - 1
    &&& sh.shape@.len() == ss
    &&& forall|j: int|
        0 <= j < ss ==> (#[trigger] sh.shape@[j]).0 as int == sp_be_u32(b, 25 + 8 * j)
            && sh.shape@[j].1 as int == sp_be_u32(b, 25 + 8 * j + 4)
    &&& sh.forests@.len() == sp_be_u32(b, 9)
    &&& forall|f: int|
        0 <= f < sh.forests@.len() ==> sp_forest_matches(
            b,
            base + f * sp_forest_bytes(sp_be_u32(b, 13), tb, sp_be_u32(b, 21)),
            sp_be_u32(b, 13) as int,
            sc - 1,
            sc,
            ss,
            sp_be_u32(b, 21) as int,
            #[trigger] sh.forests@[f],
        )
}

/// Reads one shaper tree of `nc` nodes, `sc` leaves and `ss` shape points
/// at byte offset `pos`.
fn load_sh_tree(bytes: &[u8], pos: usize, nc: usize, sc: usize, ss: usize) -> (tree: ShaperTree)
    requires
        sp_sh_tree_bytes(nc as int, sc as int, ss as int) <= bytes@.len() - pos as int,
    ensures
        sp_sh_tree_matches(bytes@, pos as int, nc as int, sc as int, ss as int, tree),
{
    let n: usize = bytes.len();
    let ghost tb = sp_sh_tree_bytes(nc as int, sc as int, ss as int);
    proof {
        assert(0 <= sc as int * (8 * ss as int)) by (nonlinear_arith);
    }

    let mut nodes: Vec<ThresholdNode> = Vec::new();
    let mut i: usize = 0;
    while i < nc
        invariant
            0 <= i <= nc,
            n == bytes@.len(),
            tb == sp_sh_tree_bytes(nc as int, sc as int, ss as int),
            tb <= n as int - pos as int,
            0 <= sc as int * (8 * ss as int),
            nodes@.len() == i as int,
            forall|j: int| 0 <= j < i as int ==> nodes@[j] == sp_thr_node_at(bytes@, pos as int + 10 * j),
        decreases nc - i,
    {
        let p: usize = pos + 10 * i;
        let idx0 = read_u32_be(bytes, p) as usize;
        let idx1 = read_u32_be(bytes, p + 4) as usize;
        let threshold = read_i16_be(bytes, p + 8);
        nodes.push(ThresholdNode { idx: (idx0, idx1), threshold });
        i = i + 1;
    }

    let shifts_base: usize = pos + 10 * nc;
    let mut shifts: Vec<Vec<(u32, u32)>> = Vec::new();
    let mut k: usize = 0;
    let mut sp: usize = shifts_base;
    while k < sc
        invariant
            0 <= k <= sc,
            n == bytes@.len(),
            tb == sp_sh_tree_bytes(nc as int, sc as int, ss as int),
            tb <= n as int - pos as int,
            shifts_base as int == pos as int + 10 * nc as int,
            sp as int == shifts_base as int + k as int * (8 * ss as int),
            shifts@.len() == k as int,
            forall|q: int| 0 <= q < k as int ==> (#[trigger] shifts@[q]).len() == ss as int,
            forall|q: int, j: int|
                0 <= q < k as int && 0 <= j < ss as int ==> (#[trigger] shifts@[q][j]).0 as int
                    == sp_be_u32(
                    bytes@,
                    pos as int + 10 * nc as int + q * (8 * ss as int) + 8 * j,
                ) && shifts@[q][j].1 as int == sp_be_u32(
                    bytes@,
                    pos as int + 10 * nc as int + q * (8 * ss as int) + 8 * j + 4,
                ),
        decreases sc - k,
    {
        proof {
            lemma_mul_inequality(k as int + 1, sc as int, 8 * ss as int);
            assert((k as int + 1) * (8 * ss as int) == k as int * (8 * ss as int) + 8
                * ss as int) by (nonlinear_arith);
        }
        let mut shift: Vec<(u32, u32)> = Vec::new();
        let mut j: usize = 0;
        while j < ss
            invariant
                0 <= j <= ss,
                n == bytes@.len(),
                sp as int + 8 * (ss as int) <= n as int,
                shift@.len() == j as int,
                forall|u: int|
                    0 <= u < j as int ==> (#[trigger] shift@[u]).0 as int == sp_be_u32(
                        bytes@,
                        sp as int + 8 * u,
                    ) && shift@[u].1 as int == sp_be_u32(bytes@, sp as int + 8 * u + 4),
            decreases ss - j,
        {
            let x = read_u32_be(bytes, sp + 8 * j);
            let y = read_u32_be(bytes, sp + 8 * j + 4);
            shift.push((x, y));
            j = j + 1;
        }
        shifts.push(shift);
        sp = sp + 8 * ss;
        k = k + 1;
    }

    ShaperTree { nodes, shifts }
}

impl Shaper {
    /// Table sizes agree with the depth in every forest.
    pub open spec fn wf(&self) -> bool {
        &&& self.depth <= 31
        &&& self.dsize as int == pow2(self.depth as nat) - 1
        &&& forall|f: int, t: int|
            0 <= f < self.forests@.len() && 0 <= t < self.forests@[f].trees@.len() ==> (
            #[trigger] self.forests@[f].trees@[t]).nodes@.len() == self.dsize as int
                && self.forests@[f].trees@[t].shifts@.len() == self.dsize as int + 1
    }

    /// Number of shape points.
    pub fn size(&self) -> (r: usize)
        ensures
            r == self.shape@.len(),
    {
        self.shape.len()
    }

    /// The canonical initial shape, one raw-bit `(x, y)` pair per point.
    pub fn init_points(&self) -> (r: &Vec<(u32, u32)>)
        ensures
            r == &self.shape,
    {
        &self.shape
    }

    /// Decodes a shaper model from a fully buffered big-endian stream:
    /// a version byte, six counters, the canonical shape, then the
    /// forests with their trees, anchors and offsets.
    pub fn load(bytes: &[u8]) -> (r: Result<Shaper, FormatError>)
        ensures
            r is Ok <==> sp_shaper_load_ok(bytes@),
            match r {
                Ok(sh) => sh.wf() && sp_shaper_matches(bytes@, sh),
                Err(e) => e == sp_shaper_load_err(bytes@),
            },
    {
        let n: usize = bytes.len();
        if n < 1 {
            return Err(FormatError::UnexpectedEof);
        }
        let version: u8 = bytes[0];
        if version != 1 {
            return Err(FormatError::BadVersion);
        }
        if n < 25 {
            return Err(FormatError::UnexpectedEof);
        }
        let nrows: u32 = read_u32_be(bytes, 1);
        let ncols: u32 = read_u32_be(bytes, 5);
        let nforests: u32 = read_u32_be(bytes, 9);
        let forest_size: u32 = read_u32_be(bytes, 13);
        let tree_depth: u32 = read_u32_be(bytes, 17);
        let nfeatures: u32 = read_u32_be(bytes, 21);
        if tree_depth > 31 {
            return Err(FormatError::DepthOverflow);
        }
        let depth: usize = tree_depth as usize;

        proof {
            lemma_pow2_le_max(depth as nat);
            assert(1usize * pow2(depth as nat) == pow2(depth as nat));
            lemma_usize_shl_is_mul(1usize, depth);
            assert(pow2(31) == 0x8000_0000) by {
                lemma2_to64();
            }
            if depth < 31 {
                lemma_pow2_strictly_increases(depth as nat, 31);
            }
        }
        let sc: usize = 1usize << depth;
        let nc: usize = sc - 1;

        // The shape must fit in the remaining bytes.
        proof {
            assert((nrows as int) * (ncols as int) <= 0x1_0000_0000 * 0x1_0000_0000)
                by (nonlinear_arith)
                requires
                    0 <= (nrows as int) && (nrows as int) < 0x1_0000_0000 && 0 <= (
                    ncols as int) && (ncols as int) < 0x1_0000_0000,
            ;
            assert(0 <= (nrows as int) * (ncols as int)) by (nonlinear_arith)
                requires
                    0 <= (nrows as int) && 0 <= (ncols as int),
            ;
        }
        let ss128: u128 = (nrows as u128) * (ncols as u128) / 2;
        let avail0: u128 = (n - 25) as u128;
        if 8 * ss128 > avail0 {
            return Err(FormatError::UnexpectedEof);
        }
        let ss: usize = ss128 as usize;

        let mut shape: Vec<(u32, u32)> = Vec::new();
        let mut j: usize = 0;
        while j < ss
            invariant
                0 <= j <= ss,
                n == bytes@.len(),
                25 + 8 * (ss as int) <= n as int,
                shape@.len() == j as int,
                forall|u: int|
                    0 <= u < j as int ==> (#[trigger] shape@[u]).0 as int == sp_be_u32(
                        bytes@,
                        25 + 8 * u,
                    ) && shape@[u].1 as int == sp_be_u32(bytes@, 25 + 8 * u + 4),
            decreases ss - j,
        {
            let x = read_u32_be(bytes, 25 + 8 * j);
            let y = read_u32_be(bytes, 25 + 8 * j + 4);
            shape.push((x, y));
            j = j + 1;
        }

        let base: usize = 25 + 8 * ss;
        let avail1: u128 = (n - base) as u128;

        // Every forest takes the same room; the division sidesteps any
        // overflow in the total.
        proof {
            assert(0 <= (sc as int) * (8 * (ss as int)) && (sc as int) * (8 * (ss as int))
                <= 0x1_0000_0000_0000_0000 * 0x8000_0000) by (nonlinear_arith)
                requires
                    0 <= 8 * (ss as int) && 8 * (ss as int) <= 0x1_0000_0000_0000_0000 && 0
                        <= (sc as int) && (sc as int) <= 0x8000_0000,
            ;
            assert((forest_size as int) * (10 * (nc as int) + (sc as int) * (8 * (ss as int)))
                <= 0x1_0000_0000 * (10 * 0x8000_0000 + 0x1_0000_0000_0000_0000
                * 0x8000_0000)) by (nonlinear_arith)
                requires
                    0 <= (forest_size as int) && (forest_size as int) < 0x1_0000_0000 && 0 <= (nc as int) && (nc as int) <= 0x8000_0000
                        && 0 <= (sc as int) <= 0x8000_0000 && 0 <= 8 * (ss as int)
                        <= 0x1_0000_0000_0000_0000 && 0 <= (sc as int) * (8 * (ss as int))
                        <= 0x1_0000_0000_0000_0000 * 0x8000_0000,
            ;
        }
        proof {
            assert((sc as int) * (8 * (ss as int)) <= 0x1_0000_0000 * (8
                * 0xFFFF_FFFF_FFFF_FFFF) && 0 <= (sc as int) * (8 * (ss as int)))
                by (nonlinear_arith)
                requires
                    0 <= (sc as int) && (sc as int) < 0x1_0000_0000 && 0 <= (ss as int) && (
                    ss as int) <= 0xFFFF_FFFF_FFFF_FFFF,
            ;
        }
        let tree_bytes128: u128 = 10u128 * (nc as u128) + (sc as u128) * (8u128 * (ss as u128));
        let per_forest: u128 = (forest_size as u128) * tree_bytes128 + 12u128 * (nfeatures as u128);

        if per_forest > 0 {
            if avail1 / per_forest < nforests as u128 {
                proof {
                    lemma_div_bound_exact(avail1 as int, per_forest as int, nforests as int);
                }
                return Err(FormatError::UnexpectedEof);
            }
            proof {
                lemma_div_bound_exact(avail1 as int, per_forest as int, nforests as int);
            }
        } else {
            proof {
                assert(nforests as int * 0 == 0) by (nonlinear_arith);
            }
        }

        let mut forests: Vec<ShaperForest> = Vec::new();
        let mut pos: usize = base;
        let mut f: usize = 0;
        while f < nforests as usize
            invariant
                0 <= f <= nforests as usize,
                n == bytes@.len(),
                base as int == 25 + 8 * ss as int,
                (base as int) <= n as int,
                tree_bytes128 as int == sp_sh_tree_bytes(nc as int, sc as int, ss as int),
                per_forest as int == sp_forest_bytes(
                    forest_size as int,
                    tree_bytes128 as int,
                    nfeatures as int,
                ),
                n as int - (base as int) >= nforests as int * per_forest as int,
                (sc as int) <= 0x8000_0000,
                (nc as int) <= 0x8000_0000,
                pos as int == base as int + f as int * per_forest as int,
                forests@.len() == f as int,
                forall|g: int|
                    0 <= g < f as int ==> sp_forest_matches(
                        bytes@,
                        base as int + g * per_forest as int,
                        forest_size as int,
                        nc as int,
                        sc as int,
                        ss as int,
                        nfeatures as int,
                        #[trigger] forests@[g],
                    ),
            decreases nforests as usize - f,
        {
            proof {
                lemma_mul_inequality(f as int + 1, nforests as int, per_forest as int);
                assert((f as int + 1) * per_forest as int == f as int * per_forest as int
                    + per_forest as int) by (nonlinear_arith);
            }
            let forest = load_forest(bytes, pos, forest_size, nc, sc, ss, nfeatures);
            forests.push(forest);
            pos = pos + (per_forest as usize);
            f = f + 1;
        }

        Ok(Shaper { depth, dsize: nc, shape, forests })
    }
}

/// Reads one forest of `fs` trees and `nf` feature descriptors at byte
/// offset `pos`.
fn load_forest(bytes: &[u8], pos: usize, fs: u32, nc: usize, sc: usize, ss: usize, nf: u32) -> (
    forest: ShaperForest)
    requires
        sp_forest_bytes(
            fs as int,
            sp_sh_tree_bytes(nc as int, sc as int, ss as int),
            nf as int,
        ) <= bytes@.len() - pos as int,
        0 <= sp_sh_tree_bytes(nc as int, sc as int, ss as int),
        (sc as int) <= 0x8000_0000,
        (nc as int) <= 0x8000_0000,
    ensures
        sp_forest_matches(
            bytes@,
            pos as int,
            fs as int,
            nc as int,
            sc as int,
            ss as int,
            nf as int,
            forest,
        ),
{
    let n: usize = bytes.len();
    let ghost tb = sp_sh_tree_bytes(nc as int, sc as int, ss as int);
    proof {
        assert(0 <= fs as int * tb) by (nonlinear_arith)
            requires
                0 <= fs as int && 0 <= tb,
        ;
        assert((sc as int) * (8 * (ss as int)) <= 0x1_0000_0000 * (8
            * 0xFFFF_FFFF_FFFF_FFFF)) by (nonlinear_arith)
            requires
                0 <= (sc as int) && (sc as int) < 0x1_0000_0000 && 0 <= (ss as int) && (
                ss as int) <= 0xFFFF_FFFF_FFFF_FFFF,
        ;
    }
    let tb128: u128 = 10u128 * (nc as u128) + (sc as u128) * (8u128 * (ss as u128));

    let mut trees: Vec<ShaperTree> = Vec::new();
    let mut pos_t: usize = pos;
    let mut t: usize = 0;
    while t < fs as usize
        invariant
            0 <= t <= fs as usize,
            n == bytes@.len(),
            tb == sp_sh_tree_bytes(nc as int, sc as int, ss as int),
            0 <= tb,
            n as int - (pos as int) >= sp_forest_bytes(fs as int, tb, nf as int),
            tb128 as int == tb,
            pos_t as int == pos as int + t as int * tb,
            trees@.len() == t as int,
            forall|u: int|
                0 <= u < t as int ==> sp_sh_tree_matches(
                    bytes@,
                    pos as int + u * tb,
                    nc as int,
                    sc as int,
                    ss as int,
                    #[trigger] trees@[u],
                ),
        decreases fs as usize - t,
    {
        proof {
            lemma_mul_inequality(t as int + 1, fs as int, tb);
            assert((t as int + 1) * tb == t as int * tb + tb) by (nonlinear_arith);
        }
        let tree = load_sh_tree(bytes, pos_t, nc, sc, ss);
        trees.push(tree);
        proof {
            lemma_mul_inequality(1, fs as int, tb);
        }
        let tree_bytes: usize = tb128 as usize;
        pos_t = pos_t + tree_bytes;
        t = t + 1;
    }

    let anchors_base: usize = pos_t;
    let deltas_base: usize = anchors_base + 4 * (nf as usize);
    let mut deltas: Vec<ShaperDelta> = Vec::new();
    let mut e: usize = 0;
    while e < nf as usize
        invariant
            0 <= e <= nf as usize,
            n == bytes@.len(),
            anchors_base as int == pos as int + fs as int * tb,
            deltas_base as int == anchors_base as int + 4 * nf as int,
            (n as int) >= deltas_base as int + 8 * nf as int,
            deltas@.len() == e as int,
            forall|u: int|
                0 <= u < e as int ==> (#[trigger] deltas@[u]).anchor as int == sp_be_u32(
                    bytes@,
                    anchors_base as int + 4 * u,
                ) && deltas@[u].x as int == sp_be_u32(bytes@, deltas_base as int + 8 * u)
                    && deltas@[u].y as int == sp_be_u32(bytes@, deltas_base as int + 8 * u + 4),
        decreases nf as usize - e,
    {
        let anchor = read_u32_be(bytes, anchors_base + 4 * e) as usize;
        let x = read_u32_be(bytes, deltas_base + 8 * e);
        let y = read_u32_be(bytes, deltas_base + 8 * e + 4);
        deltas.push(ShaperDelta { anchor, x, y });
        e = e + 1;
    }

    ShaperForest { trees, deltas }
}

impl ShaperTree {
    /// The threshold node at `index`.
    #[inline]
    pub fn node(&self, index: usize) -> (r: &ThresholdNode)
        requires
            index < self.nodes@.len(),
        ensures
            r == &self.nodes@[index as int],
    {
        &self.nodes[index]
    }

    /// The shift-vector set at `index`.
    #[inline]
    pub fn shift(&self, index: usize) -> (r: &Vec<(u32, u32)>)
        requires
            index < self.shifts@.len(),
        ensures
            r == &self.shifts@[index as int],
    {
        &self.shifts[index]
    }
}

impl ShaperForest {
    /// The forest's trees.
    #[inline]
    pub fn trees_slice(&self) -> (r: &Vec<ShaperTree>)
        ensures
            r == &self.trees,
    {
        &self.trees
    }
}

impl ShaperDelta {
    /// The anchor point index.
    #[inline]
    pub fn anchor(&self) -> (r: usize)
        ensures
            r == self.anchor,
    {
        self.anchor
    }

    /// The offset, as raw bit patterns.
    #[inline]
    pub fn value(&self) -> (r: (u32, u32))
        ensures
            r == (self.x, self.y),
    {
        (self.x, self.y)
    }
}

/// The slot reached from `idx` after `steps` more feature-test levels of
/// a root-at-zero tree: each level moves to `2 * idx + 1`, plus one more
/// when the feature test passes.
pub open spec fn sp_descend_features(
    nodes: Seq<ThresholdNode>,
    features: Seq<u8>,
    idx: int,
    steps: nat,
) -> int
    decreases steps,
{
    if steps == 0 {
        idx
    } else {
        let next = 2 * idx + 1 + if sp_threshold_bintest(nodes[idx], features) {
            1int
        } else {
            0int
        };
        sp_descend_features(nodes, features, next, (steps - 1) as nat)
    }
}

/// Every node of the tree points inside a feature vector of length
/// `flen`.
pub open spec fn sp_tree_features_valid(nodes: Seq<ThresholdNode>, flen: int) -> bool {
    forall|i: int|
        0 <= i < nodes.len() ==> (#[trigger] nodes[i]).idx.0 < flen && nodes[i].idx.1 < flen
}

impl Shaper {
    /// Runs tree `t` of forest `f` on a feature vector and returns the
    /// index of the selected shift-vector set, strictly below
    /// `dsize + 1`.
    pub fn leaf_slot(&self, f: usize, t: usize, features: &[u8]) -> (r: usize)
        requires
            self.wf(),
            f < self.forests@.len(),
            t < self.forests@[f as int].trees@.len(),
            sp_tree_features_valid(
                self.forests@[f as int].trees@[t as int].nodes@,
                features@.len() as int,
            ),
        ensures
            r as int == sp_descend_features(
                self.forests@[f as int].trees@[t as int].nodes@,
                features@,
                0,
                self.depth as nat,
            ) - self.dsize as int,
            r < self.dsize + 1,
    {
        let ghost nodes_view = self.forests@[f as int].trees@[t as int].nodes@;
        let mut idx: usize = 0;
        let mut k: usize = 0;
        proof {
            lemma2_to64();
        }
        while k < self.depth
            invariant
                self.wf(),
                f < self.forests@.len(),
                t < self.forests@[f as int].trees@.len(),
                sp_tree_features_valid(nodes_view, features@.len() as int),
                k <= self.depth,
                nodes_view == self.forests@[f as int].trees@[t as int].nodes@,
                pow2(k as nat) - 1 <= idx as int,
                (idx as int) < pow2((k + 1) as nat) - 1,
                sp_descend_features(
                    nodes_view,
                    features@,
                    idx as int,
                    (self.depth - k) as nat,
                ) == sp_descend_features(nodes_view, features@, 0, self.depth as nat),
            decreases self.depth - k,
        {
            proof {
                if k + 1 < self.depth as int {
                    lemma_pow2_strictly_increases((k + 1) as nat, self.depth as nat);
                }
                lemma_pow2_unfold((k + 1) as nat);
                lemma_pow2_unfold((k + 2) as nat);
                if k + 2 < 32 {
                    lemma_pow2_strictly_increases((k + 2) as nat, 32);
                }
                assert(pow2(32) == 0x1_0000_0000) by {
                    lemma2_to64();
                }
                assert(usize::MAX >= 0xFFFF_FFFF);
            }
            let node = self.forests[f].trees[t].nodes[idx];
            let b = node.bintest(features);
            idx = 2 * idx + 1 + if b {
                1
            } else {
                0
            };
            k = k + 1;
        }
        proof {
            if self.depth < 31 {
                lemma_pow2_strictly_increases(self.depth as nat, (self.depth + 1) as nat);
            }
            lemma_pow2_unfold((self.depth + 1) as nat);
            if self.depth as int + 1 < 32 {
                lemma_pow2_strictly_increases((self.depth + 1) as nat, 32);
            }
            assert(pow2(32) == 0x1_0000_0000) by {
                lemma2_to64();
            }
        }
        idx - self.dsize
    }
}

} // verus!
