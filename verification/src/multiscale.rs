use vstd::prelude::*;
use vstd::arithmetic::div_mod::lemma_fundamental_div_mod_converse;

use crate::rect::Rect;
use crate::square::Square;

verus! {

/// Why multiscale scan parameters were rejected.
#[derive(Clone, Copy, Debug, PartialEq, Eq, Structural)]
pub enum MultiscalerError {
    /// `min_size` should be non zero.
    MinSizeIsZero,
    /// `max_size` should be greater than `min_size`.
    MaxSizeLessThanMinSize,
    /// `shift_factor` should be in the `(0, 1]` range.
    ShiftFactorOutOfRange,
    /// `scale_factor` should be greater than one.
    ScaleFactorLessThanOne,
}

/// How many grid positions the inclusive range `[start, end]` holds at
/// the given step.
pub open spec fn sp_grid_count(start: int, end: int, step: int) -> int {
    if end < start {
        0
    } else {
        (end - start) / step + 1
    }
}

/// The row-major sequence of windows of one scale inside `rect`: all
/// step-aligned positions whose square of the given size stays inside the
/// rectangle's right and bottom edge.
pub open spec fn sp_scan_seq(rect: Rect, size: u32, step: u32) -> Seq<Square> {
    let sx = rect.left as int;
    let sy = rect.top as int;
    let ex = sx + rect.width as int - size as int;
    let ey = sy + rect.height as int - size as int;
    let cx = sp_grid_count(sx, ex, step as int);
    let cy = sp_grid_count(sy, ey, step as int);
    Seq::new(
        (cy * cx) as nat,
        |m: int|
            Square {
                left: (sx + (m % cx) * step as int) as i32,
                top: (sy + (m / cx) * step as int) as i32,
                size,
            },
    )
}

/// The windows of a whole scan plan, scale after scale, each entry a
/// `(size, step)` pair.
pub open spec fn sp_plan_seq(plan: Seq<(u32, u32)>, rect: Rect) -> Seq<Square>
    decreases plan.len(),
{
    if plan.len() == 0 {
        Seq::empty()
    } else {
        sp_plan_seq(plan.drop_last(), rect) + sp_scan_seq(
            rect,
            plan.last().0,
            plan.last().1,
        )
    }
}

/// Conditions under which the scan arithmetic stays inside `i32`.
pub open spec fn sp_scan_fits(rect: Rect, size: u32) -> bool {
    &&& rect.width as int <= i32::MAX as int
    &&& rect.height as int <= i32::MAX as int
    &&& rect.left as int + (rect.width as int) <= i32::MAX as int
    &&& rect.top as int + (rect.height as int) <= i32::MAX as int
    &&& size <= i32::MAX as u32
}

/// Appends to `out` every window of one scale inside `rect`, in row-major
/// order: `x` advances by `step` within a row, rows advance by `step`.
pub fn scan_scale(rect: Rect, size: u32, step: u32, out: &mut Vec<Square>)
    requires
        1 <= step,
        sp_scan_fits(rect, size),
    ensures
        final(out)@ == old(out)@ + sp_scan_seq(rect, size, step),
{
    let sx: i64 = rect.left as i64;
    let sy: i64 = rect.top as i64;
    let ex: i64 = sx + rect.width as i64 - size as i64;
    let ey: i64 = sy + rect.height as i64 - size as i64;
    let stp: i64 = step as i64;

    let ghost cx = sp_grid_count(sx as int, ex as int, step as int);
    let ghost cy = sp_grid_count(sy as int, ey as int, step as int);
    let ghost base = out@.len() as int;
    proof {
        assert((ex as int) - (sx as int) < 0x8000_0000);
        assert((ey as int) - (sy as int) < 0x8000_0000);
        lemma_count_bound(sx as int, ex as int, stp as int);
        lemma_count_bound(sy as int, ey as int, stp as int);
    }

    let mut i: usize = 0;
    let mut y: i64 = sy;
    while y <= ey
        invariant
            1 <= stp,
            stp == step as int,
            sx == rect.left as int,
            sy == rect.top as int,
            ex == sx + rect.width as int - size as int,
            ey == sy + rect.height as int - size as int,
            sp_scan_fits(rect, size),
            cx == sp_grid_count(sx as int, ex as int, step as int),
            0 <= cx <= 0x8000_0000,
            cy == sp_grid_count(sy as int, ey as int, step as int),
            0 <= cy <= 0x8000_0000,
            base == old(out)@.len() as int,
            y as int == sy as int + i as int * stp as int,
            (i as int) <= cy,
            y > ey ==> i as int == cy,
            out@.len() as int == base + i as int * cx,
            forall|q: int| 0 <= q < base ==> out@[q] == old(out)@[q],
            forall|q: int|
                base <= q < base + i as int * cx ==> #[trigger] out@[q] == (Square {
                    left: (sx as int + ((q - base) % cx) * stp as int) as i32,
                    top: (sy as int + ((q - base) / cx) * stp as int) as i32,
                    size,
                }),
        decreases cy - i,
    {
        proof {
            lemma_count_step(sy as int, ey as int, stp as int, i as int, y as int);
            assert(0 <= i as int * cx) by (nonlinear_arith)
                requires
                    0 <= i as int && 0 <= cx,
            ;
        }
        let mut j: usize = 0;
        let mut x: i64 = sx;
        while x <= ex
            invariant
                1 <= stp,
                stp == step as int,
                sx == rect.left as int,
                sy == rect.top as int,
                ex == sx + rect.width as int - size as int,
                ey == sy + rect.height as int - size as int,
                sp_scan_fits(rect, size),
                cx == sp_grid_count(sx as int, ex as int, step as int),
                0 <= cx <= 0x8000_0000,
                cy == sp_grid_count(sy as int, ey as int, step as int),
                0 <= cy <= 0x8000_0000,
                base == old(out)@.len() as int,
                y as int == sy as int + i as int * stp as int,
                sy <= y && y <= ey,
                (i as int) < cy,
                0 <= i as int * cx,
                x as int == sx as int + j as int * stp as int,
                (j as int) <= cx,
                x > ex ==> j as int == cx,
                out@.len() as int == base + i as int * cx + j as int,
                forall|q: int| 0 <= q < base ==> out@[q] == old(out)@[q],
                forall|q: int|
                    base <= q < base + i as int * cx + j as int ==> #[trigger] out@[q] == (
                    Square {
                        left: (sx as int + ((q - base) % cx) * stp as int) as i32,
                        top: (sy as int + ((q - base) / cx) * stp as int) as i32,
                        size,
                    }),
            decreases cx - j,
        {
            proof {
                lemma_count_step(sx as int, ex as int, stp as int, j as int, x as int);
                lemma_fundamental_div_mod_converse(
                    i as int * cx + j as int,
                    cx,
                    i as int,
                    j as int,
                );
            }
            out.push(Square { left: x as i32, top: y as i32, size });
            proof {
                assert(x as int + stp as int == sx as int + (j as int + 1) * stp as int)
                    by (nonlinear_arith)
                    requires
                        x as int == sx as int + j as int * stp as int,
                ;
            }
            x = x + stp;
            j = j + 1;
        }
        proof {
            assert(i as int * cx + cx == (i as int + 1) * cx) by (nonlinear_arith);
            assert(y as int + stp as int == sy as int + (i as int + 1) * stp as int)
                by (nonlinear_arith)
                requires
                    y as int == sy as int + i as int * stp as int,
            ;
        }
        y = y + stp;
        i = i + 1;
    }
    proof {
        assert(i as int * cx == cy * cx);
        let target = old(out)@ + sp_scan_seq(rect, size, step);
        assert(out@.len() == target.len());
        assert forall|q: int| 0 <= q < out@.len() implies out@[q] == target[q] by {
            if q >= base {
                assert(target[q] == sp_scan_seq(rect, size, step)[q - base]);
            }
        }
        assert(out@ =~= target);
    }
}

/// A grid count is non-negative and, for spans that fit the scan, at most
/// `2^32`.
proof fn lemma_count_bound(start: int, end: int, step: int)
    requires
        1 <= step,
        end - start < 0x8000_0000,
    ensures
        0 <= sp_grid_count(start, end, step),
        sp_grid_count(start, end, step) <= 0x8000_0000,
{
    if start <= end {
        vstd::arithmetic::div_mod::lemma_div_pos_is_pos(end - start, step);
        vstd::arithmetic::div_mod::lemma_div_is_ordered_by_denominator(end - start, 1, step);
        vstd::arithmetic::div_mod::lemma_div_basics_1(end - start);
    }
}

/// While `pos = start + i * step` has not passed `end`, position `i`
/// counts into the grid, and stepping once more keeps the count exact.
proof fn lemma_count_step(start: int, end: int, step: int, i: int, pos: int)
    requires
        1 <= step,
        pos == start + i * step,
        0 <= i,
        pos <= end,
    ensures
        i < sp_grid_count(start, end, step),
        pos + step > end ==> i + 1 == sp_grid_count(start, end, step),
{
    lemma_fundamental_div_mod_converse_bounds(start, end, step, i, pos);
}

/// The division fact behind the grid count: if `start + i * step` lies in
/// `[start, end]`, then `i <= (end - start) / step`, with equality when
/// one more step leaves the range.
proof fn lemma_fundamental_div_mod_converse_bounds(
    start: int,
    end: int,
    step: int,
    i: int,
    pos: int,
)
    requires
        1 <= step,
        pos == start + i * step,
        0 <= i,
        pos <= end,
    ensures
        i <= (end - start) / step,
        pos + step > end ==> i == (end - start) / step,
{
    let d = end - start;
    assert(i * step <= d) by (nonlinear_arith)
        requires
            pos == start + i * step && pos <= end && d == end - start,
    ;
    assert(i <= d / step) by {
        vstd::arithmetic::div_mod::lemma_fundamental_div_mod(d, step);
        assert(i <= d / step) by (nonlinear_arith)
            requires
                i * step <= d && d == step * (d / step) + d % step && 0 <= d % step < step
                    && 1 <= step && 0 <= i,
        ;
    }
    if pos + step > end {
        assert(d < (i + 1) * step) by (nonlinear_arith)
            requires
                pos == start + i * step && pos + step > end && d == end - start,
        ;
        assert(i >= d / step) by {
            vstd::arithmetic::div_mod::lemma_fundamental_div_mod(d, step);
            assert(i >= d / step) by (nonlinear_arith)
                requires
                    d < (i + 1) * step && d == step * (d / step) + d % step && 0 <= d % step
                        < step && 1 <= step && 0 <= i,
            ;
        }
    }
}

/// Appends to `out` every window of a scan plan inside `rect`, scale
/// after scale.
pub fn multiscale(plan: &Vec<(u32, u32)>, rect: Rect, out: &mut Vec<Square>)
    requires
        forall|k: int| 0 <= k < plan@.len() ==> 1 <= (#[trigger] plan@[k]).1,
        forall|k: int| 0 <= k < plan@.len() ==> sp_scan_fits(rect, (#[trigger] plan@[k]).0),
    ensures
        final(out)@ == old(out)@ + sp_plan_seq(plan@, rect),
{
    let mut k: usize = 0;
    while k < plan.len()
        invariant
            k <= plan@.len(),
            forall|q: int| 0 <= q < plan@.len() ==> 1 <= (#[trigger] plan@[q]).1,
            forall|q: int| 0 <= q < plan@.len() ==> sp_scan_fits(rect, (#[trigger] plan@[q]).0),
            out@ == old(out)@ + sp_plan_seq(plan@.take(k as int), rect),
        decreases plan@.len() - k,
    {
        let (size, step) = plan[k];
        scan_scale(rect, size, step, out);
        proof {
            assert(plan@.take(k as int + 1).drop_last() =~= plan@.take(k as int));
            assert(plan@.take(k as int + 1).last() == plan@[k as int]);
        }
        k = k + 1;
    }
    proof {
        assert(plan@.take(plan@.len() as int) =~= plan@);
    }
}

/// The number of windows a scan plan yields inside `rect`.
pub fn multiscale_count(plan: &Vec<(u32, u32)>, rect: Rect) -> (r: usize)
    requires
        forall|k: int| 0 <= k < plan@.len() ==> 1 <= (#[trigger] plan@[k]).1,
        forall|k: int| 0 <= k < plan@.len() ==> sp_scan_fits(rect, (#[trigger] plan@[k]).0),
    ensures
        r as int == sp_plan_seq(plan@, rect).len(),
{
    let mut out: Vec<Square> = Vec::new();
    multiscale(plan, rect, &mut out);
    out.len()
}

} // verus!
