use vstd::prelude::*;
use vstd::seq_lib::to_multiset_update;
use vstd::seq_lib::group_to_multiset_ensures;
use vstd::multiset::group_multiset_axioms;
use vstd::multiset::group_multiset_properties;

verus! {

/// Magnitude bits of a stored 32-bit float pattern: the sign bit dropped.
pub open spec fn sp_fbits_mag(a: u32) -> int {
    a as int % 0x8000_0000
}

/// Whether a stored 32-bit float pattern carries the sign bit.
pub open spec fn sp_fbits_neg(a: u32) -> bool {
    a as int >= 0x8000_0000
}

/// The patterns that do not stand for a number: exponent all ones with a
/// non-zero mantissa.
pub open spec fn sp_fbits_nan(a: u32) -> bool {
    sp_fbits_mag(a) > 0x7F80_0000
}

/// The numeric order of two stored 32-bit float patterns that stand for
/// numbers: negatives in falling magnitude order below positives in
/// rising magnitude order, with the two zero patterns equal.
pub open spec fn sp_fbits_le(a: u32, b: u32) -> bool {
    if sp_fbits_mag(a) == 0 && sp_fbits_mag(b) == 0 {
        true
    } else if sp_fbits_neg(a) {
        if sp_fbits_neg(b) {
            sp_fbits_mag(b) <= sp_fbits_mag(a)
        } else {
            true
        }
    } else {
        if sp_fbits_neg(b) {
            false
        } else {
            sp_fbits_mag(a) <= sp_fbits_mag(b)
        }
    }
}

/// The numeric order is total: reflexive, transitive, and any two
/// patterns compare one way or the other.
pub proof fn lemma_fbits_order_total(a: u32, b: u32, c: u32)
    ensures
        sp_fbits_le(a, a),
        sp_fbits_le(a, b) || sp_fbits_le(b, a),
        sp_fbits_le(a, b) && sp_fbits_le(b, c) ==> sp_fbits_le(a, c),
{
}

/// Compares two stored 32-bit float patterns numerically.
pub fn le_bits(a: u32, b: u32) -> (r: bool)
    ensures
        r == sp_fbits_le(a, b),
{
    let ma: u32 = a & 0x7FFF_FFFF;
    let mb: u32 = b & 0x7FFF_FFFF;
    proof {
        assert(ma == a % 0x8000_0000 && mb == b % 0x8000_0000) by (bit_vector)
            requires
                ma == (a & 0x7FFF_FFFF) && mb == (b & 0x7FFF_FFFF),
        ;
    }
    let na: bool = a >= 0x8000_0000;
    let nb: bool = b >= 0x8000_0000;
    if ma == 0 && mb == 0 {
        true
    } else if na {
        if nb {
            mb <= ma
        } else {
            true
        }
    } else {
        if nb {
            false
        } else {
            ma <= mb
        }
    }
}

/// Sorts stored 32-bit float patterns into ascending numeric order and
/// returns the middle element: for an odd count, the exact median. The
/// values must stand for numbers, as the comparison the original sort
/// relies on has no order for the others.
pub fn odd_median_mut(numbers: &mut Vec<u32>) -> (r: u32)
    requires
        old(numbers)@.len() >= 1,
        forall|k: int| 0 <= k < old(numbers)@.len() ==> !sp_fbits_nan(#[trigger] old(numbers)@[k]),
    ensures
        final(numbers)@.len() == old(numbers)@.len(),
        final(numbers)@.to_multiset() == old(numbers)@.to_multiset(),
        forall|p: int, q: int|
            0 <= p < q < final(numbers)@.len() ==> sp_fbits_le(
                #[trigger] final(numbers)@[p],
                #[trigger] final(numbers)@[q],
            ),
        r == final(numbers)@[final(numbers)@.len() as int / 2],
{
    sort_bits(numbers);
    let mid: usize = numbers.len() / 2;
    numbers[mid]
}

/// Sorts stored 32-bit float patterns into ascending numeric order.
pub fn sort_bits(numbers: &mut Vec<u32>)
    ensures
        final(numbers)@.len() == old(numbers)@.len(),
        final(numbers)@.to_multiset() == old(numbers)@.to_multiset(),
        forall|p: int, q: int|
            0 <= p < q < final(numbers)@.len() ==> sp_fbits_le(
                #[trigger] final(numbers)@[p],
                #[trigger] final(numbers)@[q],
            ),
{
    let n: usize = numbers.len();
    let mut i: usize = 0;
    while i < n
        invariant
            i <= n,
            numbers@.len() == n as int,
            numbers@.to_multiset() == old(numbers)@.to_multiset(),
            forall|p: int, q: int|
                0 <= p < q < n as int && p < i as int ==> sp_fbits_le(
                    #[trigger] numbers@[p],
                    #[trigger] numbers@[q],
                ),
        decreases n - i,
    {
        let mut m: usize = i;
        let mut j: usize = i + 1;
        while j < n
            invariant
                i <= m < j <= n,
                numbers@.len() == n as int,
                forall|q: int|
                    i as int <= q < j as int ==> sp_fbits_le(
                        numbers@[m as int],
                        #[trigger] numbers@[q],
                    ),
            decreases n - j,
        {
            proof {
                lemma_fbits_order_total(numbers@[j as int], numbers@[m as int], numbers@[m as int]);
            }
            if !le_bits(numbers[m], numbers[j]) {
                proof {
                    assert forall|q: int| i as int <= q < j as int + 1 implies sp_fbits_le(
                        numbers@[j as int],
                        #[trigger] numbers@[q],
                    ) by {
                        lemma_fbits_order_total(
                            numbers@[j as int],
                            numbers@[m as int],
                            numbers@[q],
                        );
                    }
                }
                m = j;
            }
            j = j + 1;
        }
        let a: u32 = numbers[i];
        let b: u32 = numbers[m];
        swap_entries(numbers, i, m, a, b);
        proof {
            assert forall|p: int, q: int|
                0 <= p < q < n as int && p < i as int + 1 implies sp_fbits_le(
                #[trigger] numbers@[p],
                #[trigger] numbers@[q],
            ) by {
                if p < i as int {
                    assert(sp_fbits_le(numbers@[p], numbers@[q]));
                }
            }
        }
        i = i + 1;
    }
}

/// Swaps two entries of a vector, preserving its multiset of values.
fn swap_entries(numbers: &mut Vec<u32>, i: usize, m: usize, a: u32, b: u32)
    requires
        i <= m,
        m < old(numbers)@.len(),
        a == old(numbers)@[i as int],
        b == old(numbers)@[m as int],
    ensures
        final(numbers)@ == old(numbers)@.update(i as int, b).update(m as int, a),
        final(numbers)@.len() == old(numbers)@.len(),
        final(numbers)@.to_multiset() == old(numbers)@.to_multiset(),
{
    let ghost s = numbers@;
    numbers.set(i, b);
    numbers.set(m, a);
    proof {
        broadcast use group_multiset_axioms;
        broadcast use group_multiset_properties;
        broadcast use group_to_multiset_ensures;

        to_multiset_update(s, i as int, b);
        to_multiset_update(s.update(i as int, b), m as int, a);
        if i == m {
            assert(s.update(i as int, b).update(m as int, a) =~= s);
        } else {
            assert(s.update(i as int, b)[m as int] == b);
            assert(numbers@.to_multiset() =~= s.to_multiset());
        }
    }
}

} // verus!
