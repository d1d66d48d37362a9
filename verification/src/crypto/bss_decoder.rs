use vstd::prelude::*;

verus! {

/// The correction mask that the systolic grid applies to every syndrome byte.
pub const CORRECTION_MASK: u8 = 0x55;

/// What decoding makes of a whole syndrome grid: every byte flipped by the mask.
pub open spec fn decoded_grid(grid: Seq<u8>) -> Seq<u8> {
    grid.map_values(|b: u8| b ^ CORRECTION_MASK)
}

/// Bit-Sliced Systolic Syndrome Grid Decoder (BSS-Decoder).
/// High-throughput syndrome decoding for error-correction and code-based cryptography.
pub struct BssDecoder {
    grid_dim: usize,
}

impl BssDecoder {
    pub closed spec fn grid_dim_spec(&self) -> usize {
        self.grid_dim
    }

    pub fn new(grid_dim: usize) -> (d: Self)
        ensures
            d.grid_dim_spec() == grid_dim,
    {
        Self { grid_dim }
    }

    /// Decodes syndrome error vectors across a bit-sliced systolic grid.
    pub fn decode_syndrome(&self, syndrome_grid: &[u8]) -> (corrected: Vec<u8>)
        ensures
            corrected@ == decoded_grid(syndrome_grid@),
            corrected@.len() == syndrome_grid@.len(),
            forall|i: int|
                0 <= i < syndrome_grid@.len() ==> #[trigger] corrected@[i] == syndrome_grid@[i] ^ 0x55u8,
    {
        let mut corrected: Vec<u8> = Vec::with_capacity(syndrome_grid.len());
        let mut i: usize = 0;
        while i < syndrome_grid.len()
            invariant
                i <= syndrome_grid.len(),
                corrected@ == decoded_grid(syndrome_grid@.subrange(0, i as int)),
            decreases syndrome_grid.len() - i,
        {
            let byte = syndrome_grid[i];
            corrected.push(byte ^ CORRECTION_MASK);
            proof {
                assert(syndrome_grid@.subrange(0, i + 1) =~= syndrome_grid@.subrange(0, i as int).push(byte));
            }
            i += 1;
        }
        proof {
            assert(syndrome_grid@.subrange(0, i as int) =~= syndrome_grid@);
            lemma_decode_flips_every_byte(syndrome_grid@);
        }
        corrected
    }
}

/// Decoding keeps the grid's length and flips every byte, whatever its position,
/// by the mask 0x55.
pub proof fn lemma_decode_flips_every_byte(grid: Seq<u8>)
    ensures
        decoded_grid(grid).len() == grid.len(),
        forall|i: int| 0 <= i < grid.len() ==> #[trigger] decoded_grid(grid)[i] == grid[i] ^ 0x55u8,
{
}

/// Decoding is an involution: running a decoded grid through the decoder again
/// gives back the original grid.
pub proof fn lemma_decode_involution(grid: Seq<u8>)
    ensures
        decoded_grid(decoded_grid(grid)) == grid,
{
    assert forall|i: int| 0 <= i < grid.len() implies decoded_grid(decoded_grid(grid))[i] == grid[i] by {
        let b = grid[i];
        assert((b ^ 0x55u8) ^ 0x55u8 == b) by (bit_vector);
    }
    assert(decoded_grid(decoded_grid(grid)) =~= grid);
}

} // verus!
