use vstd::prelude::*;
use vstd::seq_lib::to_multiset_update;
use vstd::seq_lib::to_multiset_contains;
use vstd::seq_lib::group_to_multiset_ensures;
use vstd::multiset::group_multiset_axioms;
use vstd::multiset::group_multiset_properties;

use crate::iou::{sp_overlap, sp_inter_area, sp_union_area, sp_iou_fits, intersection_over_union};
use crate::square::Square;

verus! {

/// The bit patterns of strictly positive 32-bit float values (infinity
/// included): for these, numeric order is plain unsigned order on the
/// pattern.
pub open spec fn sp_score_positive(bits: u32) -> bool {
    0 < bits <= 0x7F80_0000
}

/// One detection: a window and its cascade score, the score kept as the
/// raw bit pattern of the stored 32-bit float.
#[derive(Clone, Copy, Debug)]
pub struct Detection {
    /// The detected window.
    pub region: Square,
    /// Raw bit pattern of the score; always a positive value.
    pub score: u32,
}

impl Detection {
    /// Builds a detection; the score pattern must stand for a positive
    /// value.
    #[inline]
    pub fn new(region: Square, score: u32) -> (r: Self)
        requires
            sp_score_positive(score),
        ensures
            r.region == region,
            r.score == score,
    {
        Self { region, score }
    }

    /// Detection score pattern.
    #[inline]
    pub fn score(&self) -> (r: u32)
        ensures
            r == self.score,
    {
        self.score
    }

    /// Detection rectangle.
    #[inline]
    pub fn region(&self) -> (r: &Square)
        ensures
            r == &self.region,
    {
        &self.region
    }
}

/// Whether detections `i` and `j` overlap strictly above the threshold
/// ratio `tn / td`: the exact comparison `inter / union > tn / td` over
/// the intersection-over-union ratio.
pub open spec fn sp_over(s: Seq<Detection>, i: int, j: int, tn: int, td: int) -> bool {
    sp_overlap(s[i].region, s[j].region) && sp_inter_area(s[i].region, s[j].region) * td > tn
        * sp_union_area(s[i].region, s[j].region)
}

/// The representative that greedy clustering assigns to detection `j` of
/// the score-sorted list: the first earlier representative whose window
/// overlaps `j` above the threshold, or `j` itself, which then starts its
/// own cluster.
pub open spec fn sp_rep(s: Seq<Detection>, tn: int, td: int, j: int) -> int
    decreases j, j + 1int,
{
    if j <= 0 {
        j
    } else {
        sp_rep_search(s, tn, td, j, 0)
    }
}

/// The first representative at or after `i` (and before `j`) that claims
/// `j`, or `j` itself.
pub open spec fn sp_rep_search(s: Seq<Detection>, tn: int, td: int, j: int, i: int) -> int
    decreases j, j - i,
{
    if i < 0 || i >= j {
        j
    } else if sp_rep(s, tn, td, i) == i && sp_over(s, i, j, tn, td) {
        i
    } else {
        sp_rep_search(s, tn, td, j, i + 1)
    }
}

/// What the search returns: a value between `i` and `j` that either is
/// `j` itself or a representative claiming `j`, and nothing before it
/// claims `j`.
proof fn lemma_rep_search_props(s: Seq<Detection>, tn: int, td: int, j: int, i: int)
    requires
        0 <= i,
    ensures
        i <= sp_rep_search(s, tn, td, j, i) || j <= i,
        sp_rep_search(s, tn, td, j, i) <= j || j <= i,
        sp_rep_search(s, tn, td, j, i) < j ==> sp_rep(s, tn, td, sp_rep_search(s, tn, td, j, i))
            == sp_rep_search(s, tn, td, j, i) && sp_over(s, sp_rep_search(s, tn, td, j, i), j, tn, td),
        forall|q: int|
            i <= q < sp_rep_search(s, tn, td, j, i) ==> !(sp_rep(s, tn, td, q) == q && sp_over(
                s,
                q,
                j,
                tn,
                td,
            )),
    decreases j - i,
{
    if i < j {
        if sp_rep(s, tn, td, i) == i && sp_over(s, i, j, tn, td) {
        } else {
            lemma_rep_search_props(s, tn, td, j, i + 1);
        }
    }
}

/// What the representative of `j` satisfies: it is at most `j`; when it
/// is not `j` it is a representative that overlaps `j` above the
/// threshold; and no earlier representative overlaps `j`.
pub proof fn lemma_rep_props(s: Seq<Detection>, tn: int, td: int, j: int)
    requires
        0 <= j,
    ensures
        0 <= sp_rep(s, tn, td, j) <= j,
        sp_rep(s, tn, td, j) < j ==> sp_rep(s, tn, td, sp_rep(s, tn, td, j)) == sp_rep(
            s,
            tn,
            td,
            j,
        ) && sp_over(s, sp_rep(s, tn, td, j), j, tn, td),
        forall|q: int|
            0 <= q < sp_rep(s, tn, td, j) ==> !(sp_rep(s, tn, td, q) == q && sp_over(
                s,
                q,
                j,
                tn,
                td,
            )),
{
    if j > 0 {
        lemma_rep_search_props(s, tn, td, j, 0);
    }
}

/// Sum of the left coordinates of the listed detections' windows.
pub open spec fn sp_sum_left(s: Seq<Detection>, ms: Seq<usize>) -> int
    decreases ms.len(),
{
    if ms.len() == 0 {
        0
    } else {
        sp_sum_left(s, ms.drop_last()) + s[ms.last() as int].region.left as int
    }
}

/// Sum of the top coordinates of the listed detections' windows.
pub open spec fn sp_sum_top(s: Seq<Detection>, ms: Seq<usize>) -> int
    decreases ms.len(),
{
    if ms.len() == 0 {
        0
    } else {
        sp_sum_top(s, ms.drop_last()) + s[ms.last() as int].region.top as int
    }
}

/// Sum of the sizes of the listed detections' windows.
pub open spec fn sp_sum_size(s: Seq<Detection>, ms: Seq<usize>) -> int
    decreases ms.len(),
{
    if ms.len() == 0 {
        0
    } else {
        sp_sum_size(s, ms.drop_last()) + s[ms.last() as int].region.size as int
    }
}

/// One cluster of overlapping detections from the score-sorted list:
/// its representative, the indices folded into it (ascending, the
/// representative first), and the unweighted integer sums of their
/// windows' corners and sizes, from which the mean window is derived.
#[derive(Clone, Debug)]
pub struct Cluster {
    /// Index of the cluster's representative in the sorted list.
    pub rep: usize,
    /// Indices of all detections folded into this cluster.
    pub members: Vec<usize>,
    /// Sum of the members' left coordinates.
    pub sum_left: i64,
    /// Sum of the members' top coordinates.
    pub sum_top: i64,
    /// Sum of the members' sizes.
    pub sum_size: u64,
    /// Number of members.
    pub count: usize,
}

/// How a cluster describes the sorted list `s`: its members are exactly
/// the detections the greedy pass assigns to its representative, in
/// ascending index order, and the sums fold their windows.
pub open spec fn sp_cluster_matches(
    s: Seq<Detection>,
    tn: int,
    td: int,
    c: Cluster,
) -> bool {
    &&& c.rep < s.len()
    &&& sp_rep(s, tn, td, c.rep as int) == c.rep as int
    &&& forall|m1: int, m2: int|
        0 <= m1 < m2 < c.members@.len() ==> (#[trigger] c.members@[m1]) < (
        #[trigger] c.members@[m2])
    &&& forall|m: int|
        0 <= m < c.members@.len() ==> (#[trigger] c.members@[m]) < s.len() && sp_rep(
            s,
            tn,
            td,
            c.members@[m] as int,
        ) == c.rep as int
    &&& forall|q: int|
        0 <= q < s.len() && sp_rep(s, tn, td, q) == c.rep as int ==> c.members@.contains(
            q as usize,
        )
    &&& c.count == c.members@.len()
    &&& c.sum_left as int == sp_sum_left(s, c.members@)
    &&& c.sum_top as int == sp_sum_top(s, c.members@)
    &&& c.sum_size as int == sp_sum_size(s, c.members@)
}

/// Clusterizes detections by overlap. The list is first sorted by
/// falling score — scores are positive, so unsigned order on the stored
/// patterns is exactly their numeric order — and then each detection is
/// folded into the first cluster whose representative overlaps it
/// strictly above the ratio `thr_num / thr_den`.
///
/// The returned clusters carry ascending representatives, and together
/// their members list every detection exactly once.
pub fn clusterize(data: &mut Vec<Detection>, thr_num: u64, thr_den: u64) -> (clusters: Vec<
    Cluster,
>)
    requires
        1 <= thr_den,
        old(data)@.len() <= u32::MAX as int,
        forall|k: int| 0 <= k < old(data)@.len() ==> sp_iou_fits((#[trigger] old(data)@[k]).region),
        forall|k: int|
            0 <= k < old(data)@.len() ==> sp_score_positive((#[trigger] old(data)@[k]).score),
    ensures
        final(data)@.len() == old(data)@.len(),
        final(data)@.to_multiset() == old(data)@.to_multiset(),
        forall|p: int, q: int|
            0 <= p < q < final(data)@.len() ==> (#[trigger] final(data)@[p]).score >= (
            #[trigger] final(data)@[q]).score,
        forall|c: int|
            0 <= c < clusters@.len() ==> sp_cluster_matches(
                final(data)@,
                thr_num as int,
                thr_den as int,
                #[trigger] clusters@[c],
            ),
        forall|c1: int, c2: int|
            0 <= c1 < c2 < clusters@.len() ==> (#[trigger] clusters@[c1]).rep < (
            #[trigger] clusters@[c2]).rep,
        forall|q: int|
            0 <= q < final(data)@.len() && sp_rep(final(data)@, thr_num as int, thr_den as int, q)
                == q ==> exists|c: int|
                0 <= c < clusters@.len() && (#[trigger] clusters@[c]).rep == q,
{
    sort_detections(data);
    let ghost s = data@;
    let ghost tn = thr_num as int;
    let ghost td = thr_den as int;
    let n: usize = data.len();

    let mut assigned: Vec<bool> = Vec::new();
    let mut q0: usize = 0;
    while q0 < n
        invariant
            q0 <= n,
            assigned@.len() == q0 as int,
            forall|q: int| 0 <= q < q0 as int ==> !(#[trigger] assigned@[q]),
        decreases n - q0,
    {
        assigned.push(false);
        q0 = q0 + 1;
    }

    proof {
        assert forall|q: int| 0 <= q < n as int implies !(sp_rep(s, tn, td, q) < 0) by {
            lemma_rep_props(s, tn, td, q);
        }
        assert forall|k: int| 0 <= k < s.len() implies sp_iou_fits(
            (#[trigger] s[k]).region,
        ) by {
            assert(old(data)@.contains(s[k]));
            let k0 = choose|k0: int| 0 <= k0 < old(data)@.len() && old(data)@[k0] == s[k];
            assert(sp_iou_fits(old(data)@[k0].region));
        }
    }
    let mut clusters: Vec<Cluster> = Vec::new();
    let mut i: usize = 0;
    while i < n
        invariant
            i <= n,
            n == s.len(),
            n <= u32::MAX as usize,
            s == data@,
            tn == thr_num as int,
            td == thr_den as int,
            1 <= td,
            forall|k: int| 0 <= k < s.len() ==> sp_iou_fits((#[trigger] s[k]).region),
            assigned@.len() == n as int,
            forall|q: int|
                0 <= q < n as int ==> (#[trigger] assigned@[q]) == (sp_rep(s, tn, td, q)
                    < i as int),
            forall|c: int|
                0 <= c < clusters@.len() ==> sp_cluster_matches(s, tn, td, #[trigger] clusters@[c])
                    && (#[trigger] clusters@[c]).rep < i,
            forall|c1: int, c2: int|
                0 <= c1 < c2 < clusters@.len() ==> (#[trigger] clusters@[c1]).rep < (
                #[trigger] clusters@[c2]).rep,
            forall|q: int|
                0 <= q < i as int && sp_rep(s, tn, td, q) == q ==> exists|c: int|
                    0 <= c < clusters@.len() && (#[trigger] clusters@[c]).rep == q,
        decreases n - i,
    {
        proof {
            lemma_rep_props(s, tn, td, i as int);
        }
        if assigned[i] {
            proof {
                assert forall|q: int|
                    0 <= q < n as int implies (assigned@[q]) == (sp_rep(s, tn, td, q) < i as int
                    + 1) by {
                    lemma_rep_props(s, tn, td, q);
                    if sp_rep(s, tn, td, q) == i as int {
                        assert(sp_rep(s, tn, td, i as int) == i as int);
                    }
                }
            }
            i = i + 1;
        } else {
        // `i` starts a new cluster.
        proof {
            assert(sp_rep(s, tn, td, i as int) == i as int);
        }
        assigned.set(i, true);
        let mut members: Vec<usize> = Vec::new();
        members.push(i);
        let d1 = data[i];
        let mut sum_left: i64 = d1.region.left as i64;
        let mut sum_top: i64 = d1.region.top as i64;
        let mut sum_size: u64 = d1.region.size as u64;
        proof {
            assert(members@.drop_last() =~= Seq::<usize>::empty());
            assert(sp_sum_left(s, Seq::<usize>::empty()) == 0);
            assert(sp_sum_top(s, Seq::<usize>::empty()) == 0);
            assert(sp_sum_size(s, Seq::<usize>::empty()) == 0);
            assert(members@.last() == i);
            assert(sp_sum_left(s, members@) == s[i as int].region.left as int);
            assert(sp_sum_top(s, members@) == s[i as int].region.top as int);
            assert(sp_sum_size(s, members@) == s[i as int].region.size as int);
            assert forall|q: int|
                0 <= q < n as int implies (assigned@[q]) == (sp_rep(s, tn, td, q) < i as int || (
                sp_rep(s, tn, td, q) == i as int && q < i as int + 1)) by {
                lemma_rep_props(s, tn, td, q);
            }
            assert forall|q: int|
                0 <= q < i as int + 1 && sp_rep(s, tn, td, q) == i as int implies members@.contains(
                q as usize,
            ) by {
                lemma_rep_props(s, tn, td, q);
                assert(q == i as int);
                assert(members@[0] == i);
            }
        }

        let mut j: usize = i + 1;
        while j < n
            invariant
                i < j <= n,
                n == s.len(),
                n <= u32::MAX as usize,
                s == data@,
                tn == thr_num as int,
                td == thr_den as int,
                1 <= td,
                forall|k: int| 0 <= k < s.len() ==> sp_iou_fits((#[trigger] s[k]).region),
                sp_rep(s, tn, td, i as int) == i as int,
                assigned@.len() == n as int,
                forall|q: int|
                    0 <= q < n as int ==> (#[trigger] assigned@[q]) == (sp_rep(s, tn, td, q)
                        < i as int || (sp_rep(s, tn, td, q) == i as int && q < j as int)),
                1 <= members@.len() <= j as int,
                members@[0] == i,
                forall|m1: int, m2: int|
                    0 <= m1 < m2 < members@.len() ==> (#[trigger] members@[m1]) < (
                    #[trigger] members@[m2]),
                forall|m: int|
                    0 <= m < members@.len() ==> (#[trigger] members@[m]) < j && sp_rep(
                        s,
                        tn,
                        td,
                        members@[m] as int,
                    ) == i as int,
                forall|q: int|
                    0 <= q < j as int && sp_rep(s, tn, td, q) == i as int ==> members@.contains(
                        q as usize,
                    ),
                sum_left as int == sp_sum_left(s, members@),
                sum_top as int == sp_sum_top(s, members@),
                sum_size as int == sp_sum_size(s, members@),
            decreases n - j,
        {
            proof {
                lemma_rep_props(s, tn, td, j as int);
                lemma_sum_bounds(s, members@);
            }
            let claimed: bool = if assigned[j] {
                false
            } else {
                match intersection_over_union(data[i].region, data[j].region) {
                    Some(ratio) => {
                        proof {
                            assert((ratio.0 as int) * (thr_den as int) <= 0xFFFF_FFFF_FFFF_FFFF
                                * 0xFFFF_FFFF_FFFF_FFFF && 0 <= (ratio.0 as int) * (
                            thr_den as int)) by (nonlinear_arith)
                                requires
                                    0 <= (ratio.0 as int) <= 0xFFFF_FFFF_FFFF_FFFF && 0 <= (
                                    thr_den as int) <= 0xFFFF_FFFF_FFFF_FFFF,
                            ;
                            assert((thr_num as int) * (ratio.1 as int) <= 0xFFFF_FFFF_FFFF_FFFF
                                * 0xFFFF_FFFF_FFFF_FFFF && 0 <= (thr_num as int) * (
                            ratio.1 as int)) by (nonlinear_arith)
                                requires
                                    0 <= (thr_num as int) <= 0xFFFF_FFFF_FFFF_FFFF && 0 <= (
                                    ratio.1 as int) <= 0xFFFF_FFFF_FFFF_FFFF,
                            ;
                        }
                        let lhs: u128 = (ratio.0 as u128) * (thr_den as u128);
                        let rhs: u128 = (thr_num as u128) * (ratio.1 as u128);
                        lhs > rhs
                    },
                    None => false,
                }
            };
            if claimed {
                proof {
                    assert(sp_rep_search(s, tn, td, j as int, 0) <= i as int) by {
                        lemma_rep_search_claims(s, tn, td, j as int, i as int);
                    }
                    assert(sp_rep(s, tn, td, j as int) == i as int);
                }
                assigned.set(j, true);
                let ghost old_members = members@;
                members.push(j);
                proof {
                    assert(members@.drop_last() =~= old_members);
                    assert(members@.last() == j);
                    assert forall|q: int|
                        0 <= q < j as int + 1 && sp_rep(s, tn, td, q) == i as int
                            implies members@.contains(q as usize) by {
                        if q < j as int {
                            assert(old_members.contains(q as usize));
                            let m = choose|m: int|
                                0 <= m < old_members.len() && old_members[m] == q as usize;
                            assert(members@[m] == q as usize);
                        } else {
                            assert(members@[members@.len() - 1] == j);
                        }
                    }
                }
                let d2 = data[j];
                sum_left = sum_left + d2.region.left as i64;
                sum_top = sum_top + d2.region.top as i64;
                sum_size = sum_size + d2.region.size as u64;
            } else {
                proof {
                    if sp_rep(s, tn, td, j as int) == i as int {
                        // The representative claims `j` exactly when `j`
                        // is unassigned and overlaps above the threshold.
                        assert(sp_over(s, i as int, j as int, tn, td));
                        assert(!assigned@[j as int]);
                        assert(false);
                    }
                    assert forall|q: int|
                        0 <= q < j as int + 1 && sp_rep(s, tn, td, q) == i as int
                            implies members@.contains(q as usize) by {
                    }
                }
            }
            j = j + 1;
        }

        let count: usize = members.len();
        let cluster = Cluster { rep: i, members, sum_left, sum_top, sum_size, count };
        let ghost old_clusters = clusters@;
        clusters.push(cluster);
        proof {
            assert forall|q: int|
                0 <= q < n as int implies (assigned@[q]) == (sp_rep(s, tn, td, q) < i as int
                + 1) by {
                lemma_rep_props(s, tn, td, q);
            }
            assert forall|q: int|
                0 <= q < i as int + 1 && sp_rep(s, tn, td, q) == q implies exists|c: int|
                    0 <= c < clusters@.len() && (#[trigger] clusters@[c]).rep == q by {
                if q < i as int {
                    let c = choose|c: int|
                        0 <= c < old_clusters.len() && (#[trigger] old_clusters[c]).rep == q;
                    assert(clusters@[c].rep == q);
                } else {
                    assert(clusters@[clusters@.len() - 1].rep == q);
                }
            }
        }
        i = i + 1;
        }
    }
    clusters
}

/// If `i` is a representative of the sorted list and overlaps `j` above
/// the threshold, the search from the start stops at or before `i`.
proof fn lemma_rep_search_claims(s: Seq<Detection>, tn: int, td: int, j: int, i: int)
    requires
        0 <= i < j,
        sp_rep(s, tn, td, i) == i,
        sp_over(s, i, j, tn, td),
    ensures
        sp_rep_search(s, tn, td, j, 0) <= i,
{
    lemma_rep_search_props(s, tn, td, j, 0);
    if sp_rep_search(s, tn, td, j, 0) > i {
        assert(!(sp_rep(s, tn, td, i) == i && sp_over(s, i, j, tn, td)));
    }
}

/// The window sums of a member list stay within the bounds the member
/// count and the coordinate ranges give.
proof fn lemma_sum_bounds(s: Seq<Detection>, ms: Seq<usize>)
    requires
        forall|k: int| 0 <= k < s.len() ==> sp_iou_fits((#[trigger] s[k]).region),
        forall|m: int| 0 <= m < ms.len() ==> (#[trigger] ms[m]) < s.len(),
    ensures
        -(ms.len() as int) * 0x8000_0000 <= sp_sum_left(s, ms),
        sp_sum_left(s, ms) <= ms.len() as int * 0x8000_0000,
        -(ms.len() as int) * 0x8000_0000 <= sp_sum_top(s, ms),
        sp_sum_top(s, ms) <= ms.len() as int * 0x8000_0000,
        0 <= sp_sum_size(s, ms),
        sp_sum_size(s, ms) <= ms.len() as int * 0x8000_0000,
    decreases ms.len(),
{
    if ms.len() > 0 {
        lemma_sum_bounds(s, ms.drop_last());
        assert((ms.len() as int - 1) * 0x8000_0000 + 0x8000_0000 == ms.len() as int
            * 0x8000_0000) by (nonlinear_arith);
        assert(-((ms.len() as int - 1) * 0x8000_0000) - 0x8000_0000 == -(ms.len() as int)
            * 0x8000_0000) by (nonlinear_arith);
    } else {
        assert(0 * 0x8000_0000 == 0) by (nonlinear_arith);
        assert(-(0int) * 0x8000_0000 == 0) by (nonlinear_arith);
    }
}

/// Sorts detections into falling score order. Scores are positive float
/// patterns, so unsigned order on the patterns is their numeric order.
pub fn sort_detections(data: &mut Vec<Detection>)
    ensures
        final(data)@.len() == old(data)@.len(),
        final(data)@.to_multiset() == old(data)@.to_multiset(),
        forall|p: int, q: int|
            0 <= p < q < final(data)@.len() ==> (#[trigger] final(data)@[p]).score >= (
            #[trigger] final(data)@[q]).score,
        forall|k: int|
            0 <= k < final(data)@.len() ==> old(data)@.contains(#[trigger] final(data)@[k]),
{
    let n: usize = data.len();
    let mut i: usize = 0;
    while i < n
        invariant
            i <= n,
            data@.len() == n as int,
            data@.to_multiset() == old(data)@.to_multiset(),
            forall|p: int, q: int|
                0 <= p < q < n as int && p < i as int ==> (#[trigger] data@[p]).score >= (
                #[trigger] data@[q]).score,
        decreases n - i,
    {
        let mut m: usize = i;
        let mut j: usize = i + 1;
        while j < n
            invariant
                i <= m < j <= n,
                data@.len() == n as int,
                forall|q: int|
                    i as int <= q < j as int ==> data@[m as int].score >= (
                    #[trigger] data@[q]).score,
            decreases n - j,
        {
            if data[j].score > data[m].score {
                m = j;
            }
            j = j + 1;
        }
        let a = data[i];
        let b = data[m];
        let ghost before = data@;
        data.set(i, b);
        data.set(m, a);
        proof {
            broadcast use group_multiset_axioms;
            broadcast use group_multiset_properties;
            broadcast use group_to_multiset_ensures;

            to_multiset_update(before, i as int, b);
            to_multiset_update(before.update(i as int, b), m as int, a);
            if i == m {
                assert(before.update(i as int, b).update(m as int, a) =~= before);
            } else {
                assert(before.update(i as int, b)[m as int] == b);
                assert(data@.to_multiset() =~= before.to_multiset());
            }
        }
        i = i + 1;
    }
    proof {
        assert forall|k: int|
            0 <= k < data@.len() implies old(data)@.contains(#[trigger] data@[k]) by {
            to_multiset_contains(data@, data@[k]);
            to_multiset_contains(old(data)@, data@[k]);
            assert(data@.contains(data@[k]));
        }
    }
}

/// Greedy clustering leaves a list of pairwise non-overlapping
/// detections untouched: every detection is its own representative, so
/// every cluster is a singleton carrying exactly that detection's
/// window.
pub proof fn lemma_clusterize_idempotent(s: Seq<Detection>, tn: int, td: int, j: int)
    requires
        0 <= j < s.len(),
        forall|p: int, q: int| 0 <= p < s.len() && 0 <= q < s.len() && p != q ==> !sp_over(s, p, q, tn, td),
    ensures
        sp_rep(s, tn, td, j) == j,
{
    lemma_rep_props(s, tn, td, j);
    if sp_rep(s, tn, td, j) < j {
        assert(sp_over(s, sp_rep(s, tn, td, j), j, tn, td));
    }
}

} // verus!
