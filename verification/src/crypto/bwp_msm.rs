//! Bit-Sliced Window-Parallel Multiscalar Accumulator (BWP-MSM).
//! Accelerates multiscalar multiplication via bit-slicing and parallel window
//! buckets: each scalar contributes its low `window_bits` bits as its window.
use vstd::prelude::*;

use vstd::arithmetic::power2::pow2;
use vstd::bits::{
    lemma_u64_low_bits_mask_is_mod, lemma_u64_pow2_no_overflow, lemma_u64_shl_is_mul,
    lemma_usize_pow2_no_overflow, lemma_usize_shl_is_mul, low_bits_mask,
};

verus! {

/// The window of a scalar: its value modulo 2^`window_bits`.
pub open spec fn scalar_window(scalar: u64, window_bits: nat) -> nat {
    scalar as nat % pow2(window_bits)
}

pub struct BwpMsmAccumulator {
    window_bits: usize,
    buckets_len: usize,
}

impl BwpMsmAccumulator {
    #[verifier::type_invariant]
    spec fn window_fits(&self) -> bool {
        &&& self.window_bits < usize::BITS
        &&& self.buckets_len == pow2(self.window_bits as nat)
    }

    /// The number of low bits of each scalar that make its window.
    pub closed spec fn window_bits_spec(&self) -> nat {
        self.window_bits as nat
    }

    /// The number of window buckets, 2^`window_bits`.
    pub closed spec fn buckets_len_spec(&self) -> nat {
        self.buckets_len as nat
    }

    pub fn new(window_bits: usize) -> (acc: Self)
        requires
            window_bits < usize::BITS,
        ensures
            acc.window_bits_spec() == window_bits,
            acc.buckets_len_spec() == pow2(window_bits as nat),
            acc.window_bits_spec() < 64,
    {
        proof {
            lemma_usize_pow2_no_overflow(window_bits as nat);
            lemma_usize_shl_is_mul(1, window_bits);
        }
        let buckets_len = 1usize << window_bits;
        Self { window_bits, buckets_len }
    }

    /// The window of each scalar, in order: the scalar masked to its low
    /// `window_bits` bits, as the accumulation weighs the points with.
    pub fn scalar_windows(&self, scalars: &[u64]) -> (windows: Vec<u64>)
        ensures
            windows@.len() == scalars@.len(),
            forall|i: int|
                0 <= i < scalars@.len() ==> windows@[i] as nat == scalar_window(
                    #[trigger] scalars@[i],
                    self.window_bits_spec(),
                ),
    {
        proof {
            use_type_invariant(self);
        }
        let wb = self.window_bits as u64;
        proof {
            lemma_u64_pow2_no_overflow(wb as nat);
            lemma_u64_shl_is_mul(1, wb);
            assert(low_bits_mask(wb as nat) == pow2(wb as nat) - 1);
        }
        let mask = (1u64 << wb) - 1;
        let mut windows: Vec<u64> = Vec::with_capacity(scalars.len());
        let mut i: usize = 0;
        while i < scalars.len()
            invariant
                wb < 64,
                wb == self.window_bits_spec(),
                mask == low_bits_mask(wb as nat),
                pow2(wb as nat) < u64::MAX,
                i <= scalars@.len(),
                windows@.len() == i,
                forall|j: int|
                    0 <= j < i ==> windows@[j] as nat == scalar_window(
                        #[trigger] scalars@[j],
                        self.window_bits_spec(),
                    ),
            decreases scalars@.len() - i,
        {
            let w = scalars[i] & mask;
            proof {
                lemma_u64_low_bits_mask_is_mod(scalars@[i as int], wb as nat);
            }
            windows.push(w);
            i += 1;
        }
        windows
    }
}

} // verus!
