//! Single bits of a 64-bit word.
use vstd::prelude::*;

verus! {

/// Whether bit `i` of `x` is set.
pub open spec fn bit_set(x: u64, i: u64) -> bool {
    (x >> i) & 1u64 == 1u64
}

pub proof fn lemma_or_bit(x: u64, i: u64, j: u64)
    requires
        i < 64,
        j < 64,
    ensures
        bit_set(x | (1u64 << i), j) == (j == i || bit_set(x, j)),
{
    assert(bit_set(x | (1u64 << i), j) == (j == i || bit_set(x, j))) by (bit_vector)
        requires
            i < 64,
            j < 64,
    ;
}

pub proof fn lemma_clear_bit(x: u64, i: u64, j: u64)
    requires
        i < 64,
        j < 64,
    ensures
        bit_set(x & !(1u64 << i), j) == (j != i && bit_set(x, j)),
{
    assert(bit_set(x & !(1u64 << i), j) == (j != i && bit_set(x, j))) by (bit_vector)
        requires
            i < 64,
            j < 64,
    ;
}

pub proof fn lemma_test_bit(x: u64, i: u64)
    requires
        i < 64,
    ensures
        ((x & (1u64 << i)) != 0) == bit_set(x, i),
{
    assert(((x & (1u64 << i)) != 0) == bit_set(x, i)) by (bit_vector)
        requires
            i < 64,
    ;
}

pub proof fn lemma_zero_has_no_bits(i: u64)
    ensures
        !bit_set(0u64, i),
{
    assert(!bit_set(0u64, i)) by (bit_vector);
}

} // verus!
