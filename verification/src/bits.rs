//! Sets of small numbers, kept as the bits of a `u128`.

use vstd::prelude::*;

verus! {

/// Whether bit `n` of `mask` is set.
pub open spec fn has_bit(mask: u128, n: int) -> bool {
    0 <= n < 128 && (mask >> (n as u128)) & 1 == 1
}

/// The position of the highest set bit of `mask`, or 0 for an empty mask.
pub open spec fn is_top_bit(mask: u128, n: int) -> bool {
    if mask == 0 {
        n == 0
    } else {
        &&& has_bit(mask, n)
        &&& forall|m: int| #[trigger] has_bit(mask, m) ==> m <= n
    }
}

/// `u128::leading_zeros`: how many zero bits stand above the highest set bit.
pub assume_specification[ u128::leading_zeros ](x: u128) -> (r: u32)
    ensures
        r <= 128,
        x == 0 <==> r == 128,
        r < 128 ==> has_bit(x, 127 - r),
        forall|m: int| #[trigger] has_bit(x, m) ==> m <= 127 - r,
;

pub proof fn lemma_empty_mask(mask: u128)
    ensures
        mask == 0 <==> (forall|m: int| !#[trigger] has_bit(mask, m)),
{
    assert forall|m: int| mask == 0 implies !#[trigger] has_bit(mask, m) by {
        let k = m as u128;
        assert((0u128 >> k) & 1 == 0) by (bit_vector);
    }
    if forall|m: int| !#[trigger] has_bit(mask, m) {
        lemma_clear_from(mask, 0);
    }
}

proof fn lemma_clear_from(mask: u128, n: u128)
    requires
        n <= 128,
        forall|m: int| n <= m ==> !#[trigger] has_bit(mask, m),
    ensures
        n < 128 ==> mask >> n == 0,
        n == 0 ==> mask == 0,
    decreases 128 - n,
{
    if n < 128 {
        let k = (n + 1) as u128;
        lemma_clear_from(mask, k);
        assert(!has_bit(mask, n as int));
        if n < 127 {
            assert(mask >> n == 0) by (bit_vector)
                requires
                    n < 127,
                    k == n + 1,
                    mask >> k == 0,
                    (mask >> n) & 1 != 1,
            ;
        } else {
            assert(mask >> n == 0) by (bit_vector)
                requires
                    n == 127,
                    (mask >> n) & 1 != 1,
            ;
        }
        assert(n == 0 ==> mask == 0) by (bit_vector)
            requires
                mask >> n == 0,
        ;
    }
}

pub proof fn lemma_set_bit(mask: u128, n: u128)
    requires
        n < 128,
    ensures
        forall|m: int| #[trigger] has_bit(mask | (1u128 << n), m) <==> m == n || has_bit(mask, m),
{
    assert forall|m: int| #[trigger] has_bit(mask | (1u128 << n), m) <==> m == n || has_bit(mask, m) by {
        if 0 <= m < 128 {
            let k = m as u128;
            assert(((mask | (1u128 << n)) >> k) & 1 == 1 <==> k == n || (mask >> k) & 1 == 1) by (bit_vector)
                requires
                    n < 128,
                    k < 128,
            ;
        }
    }
}

pub proof fn lemma_clear_bit(mask: u128, n: u128)
    requires
        n < 128,
    ensures
        forall|m: int| #[trigger] has_bit(mask & !(1u128 << n), m) <==> m != n && has_bit(mask, m),
{
    assert forall|m: int| #[trigger] has_bit(mask & !(1u128 << n), m) <==> m != n && has_bit(mask, m) by {
        if 0 <= m < 128 {
            let k = m as u128;
            assert(((mask & !(1u128 << n)) >> k) & 1 == 1 <==> k != n && (mask >> k) & 1 == 1) by (bit_vector)
                requires
                    n < 128,
                    k < 128,
            ;
        }
    }
}

pub proof fn lemma_low_bits(mask: u128, low: u128, n: u128)
    requires
        n < 128,
        low == (1u128 << n) - 1,
    ensures
        forall|m: int| #[trigger] has_bit(mask & low, m) <==> m < n && has_bit(mask, m),
{
    assert forall|m: int| #[trigger] has_bit(mask & low, m) <==> m < n && has_bit(mask, m) by {
        if 0 <= m < 128 {
            let k = m as u128;
            assert(((mask & low) >> k) & 1 == 1 <==> k < n && (mask >> k) & 1 == 1) by (bit_vector)
                requires
                    n < 128,
                    k < 128,
                    low == (1u128 << n) - 1,
            ;
        }
    }
}

pub proof fn lemma_same_bits(a: u128, b: u128)
    requires
        forall|m: int| #[trigger] has_bit(a, m) <==> has_bit(b, m),
    ensures
        a == b,
{
    let d = a ^ b;
    assert forall|m: int| !#[trigger] has_bit(d, m) by {
        if 0 <= m < 128 {
            let k = m as u128;
            assert(has_bit(a, m) <==> has_bit(b, m));
            assert((d >> k) & 1 != 1) by (bit_vector)
                requires
                    k < 128,
                    d == a ^ b,
                    (a >> k) & 1 == 1 <==> (b >> k) & 1 == 1,
            ;
        }
    }
    lemma_empty_mask(d);
    assert(a == b) by (bit_vector)
        requires
            d == a ^ b,
            d == 0,
    ;
}

/// The position of the highest set bit, or 0 when no bit is set.
pub fn top_bit(mask: u128) -> (r: u32)
    ensures
        r < 128,
        is_top_bit(mask, r as int),
{
    if mask == 0 {
        0
    } else {
        127 - mask.leading_zeros()
    }
}

} // verus!
