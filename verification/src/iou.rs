use vstd::prelude::*;

use crate::region::Region;

verus! {

/// The larger of two integers.
pub open spec fn sp_max(a: int, b: int) -> int {
    if a >= b {
        a
    } else {
        b
    }
}

/// The smaller of two integers.
pub open spec fn sp_min(a: int, b: int) -> int {
    if a <= b {
        a
    } else {
        b
    }
}

/// Right edge (inclusive) of a region.
pub open spec fn sp_right<R: Region>(r: R) -> int {
    r.sp_left() + r.sp_width() - 1
}

/// Bottom edge (inclusive) of a region.
pub open spec fn sp_bottom<R: Region>(r: R) -> int {
    r.sp_top() + r.sp_height() - 1
}

/// Whether two regions share at least one pixel.
pub open spec fn sp_overlap<R: Region>(r1: R, r2: R) -> bool {
    sp_min(sp_right(r1), sp_right(r2)) >= sp_max(r1.sp_left(), r2.sp_left())
        && sp_min(sp_bottom(r1), sp_bottom(r2)) >= sp_max(r1.sp_top(), r2.sp_top())
}

/// Area of the intersection of two overlapping regions.
pub open spec fn sp_inter_area<R: Region>(r1: R, r2: R) -> int {
    (sp_min(sp_right(r1), sp_right(r2)) - sp_max(r1.sp_left(), r2.sp_left()) + 1) * (sp_min(
        sp_bottom(r1),
        sp_bottom(r2),
    ) - sp_max(r1.sp_top(), r2.sp_top()) + 1)
}

/// Area of the union of two overlapping regions.
pub open spec fn sp_union_area<R: Region>(r1: R, r2: R) -> int {
    r1.sp_width() * r1.sp_height() + r2.sp_width() * r2.sp_height() - sp_inter_area(r1, r2)
}

/// Bounds under which the intersection-over-union arithmetic stays exact
/// in 64 bits.
pub open spec fn sp_iou_fits<R: Region>(r: R) -> bool {
    &&& 1 <= r.sp_width() <= i32::MAX as int
    &&& 1 <= r.sp_height() <= i32::MAX as int
    &&& (i32::MIN as int) <= r.sp_left()
    &&& r.sp_left() + r.sp_width() - 1 <= i32::MAX as int
    &&& (i32::MIN as int) <= r.sp_top()
    &&& r.sp_top() + r.sp_height() - 1 <= i32::MAX as int
}

/// Intersection over union of two regions, as an exact ratio
/// `(intersection area, union area)`.
///
/// Returns `None` when the regions do not overlap at all; the caller
/// treats that as a zero ratio.
pub fn intersection_over_union<R: Region>(r1: R, r2: R) -> (r: Option<(u64, u64)>)
    requires
        sp_iou_fits(r1),
        sp_iou_fits(r2),
    ensures
        match r {
            Some(ratio) => sp_overlap(r1, r2) && ratio.0 as int == sp_inter_area(r1, r2)
                && ratio.1 as int == sp_union_area(r1, r2) && 1 <= ratio.0 <= ratio.1,
            None => !sp_overlap(r1, r2),
        },
{
    let l1 = r1.left();
    let l2 = r2.left();
    let t1 = r1.top();
    let t2 = r2.top();
    let left = if l1 >= l2 {
        l1
    } else {
        l2
    };
    let top = if t1 >= t2 {
        t1
    } else {
        t2
    };
    let rr1 = r1.right();
    let rr2 = r2.right();
    let b1 = r1.bottom();
    let b2 = r2.bottom();
    let right = if rr1 <= rr2 {
        rr1
    } else {
        rr2
    };
    let bottom = if b1 <= b2 {
        b1
    } else {
        b2
    };

    if right < left || bottom < top {
        return None;
    }

    let width = (right as i64 - left as i64 + 1) as u64;
    let height = (bottom as i64 - top as i64 + 1) as u64;
    let w1 = r1.width() as u64;
    let h1 = r1.height() as u64;
    let w2 = r2.width() as u64;
    let h2 = r2.height() as u64;

    proof {
        lemma_area_bounds(width as int, height as int, w1 as int, h1 as int);
        lemma_area_bounds(width as int, height as int, w2 as int, h2 as int);
    }

    let inter_square: u64 = width * height;
    let square1: u64 = w1 * h1;
    let square2: u64 = w2 * h2;
    let union_square: u64 = (square1 + square2) - inter_square;

    Some((inter_square, union_square))
}

/// An intersection no wider or taller than a region has an area between
/// one and that region's area, and both areas stay below `2^62`.
proof fn lemma_area_bounds(w: int, h: int, rw: int, rh: int)
    requires
        1 <= w <= rw,
        1 <= h <= rh,
        rw <= i32::MAX as int,
        rh <= i32::MAX as int,
    ensures
        1 <= w * h <= rw * rh,
        rw * rh < 0x4000_0000_0000_0000,
{
    assert(1 <= w * h && w * h <= rw * rh && rw * rh < 0x4000_0000_0000_0000)
        by (nonlinear_arith)
        requires
            1 <= w <= rw && 1 <= h <= rh && rw <= i32::MAX as int && rh <= i32::MAX as int,
    ;
}

/// A region fully overlaps itself and its intersection-over-union ratio
/// is exactly one: intersection and union both equal its own area.
pub proof fn lemma_iou_self<R: Region>(r: R)
    requires
        1 <= r.sp_width(),
        1 <= r.sp_height(),
    ensures
        sp_overlap(r, r),
        sp_inter_area(r, r) == r.sp_width() * r.sp_height(),
        sp_union_area(r, r) == sp_inter_area(r, r),
{
}

/// Intersection over union is symmetric: overlap, intersection area and
/// union area do not depend on the order of the two regions.
pub proof fn lemma_iou_symmetric<R: Region>(r1: R, r2: R)
    ensures
        sp_overlap(r1, r2) == sp_overlap(r2, r1),
        sp_inter_area(r1, r2) == sp_inter_area(r2, r1),
        sp_union_area(r1, r2) == sp_union_area(r2, r1),
{
}

/// Two distinct equal-size squares that overlap do so only partially:
/// their intersection-over-union ratio lies strictly between zero and
/// one.
pub proof fn lemma_iou_partial_overlap(a: crate::square::Square, b: crate::square::Square)
    requires
        sp_iou_fits(a),
        sp_iou_fits(b),
        a.size == b.size,
        a != b,
        sp_overlap(a, b),
    ensures
        1 <= sp_inter_area(a, b),
        sp_inter_area(a, b) < sp_union_area(a, b),
{
    let s = a.size as int;
    let w = sp_min(sp_right(a), sp_right(b)) - sp_max(a.sp_left(), b.sp_left()) + 1;
    let h = sp_min(sp_bottom(a), sp_bottom(b)) - sp_max(a.sp_top(), b.sp_top()) + 1;
    assert(1 <= w <= s);
    assert(1 <= h <= s);
    assert(w < s || h < s);
    assert(w * h < s * s) by (nonlinear_arith)
        requires
            1 <= w <= s && 1 <= h <= s && (w < s || h < s),
    ;
    assert(1 <= w * h) by (nonlinear_arith)
        requires
            1 <= w && 1 <= h,
    ;
}

} // verus!
