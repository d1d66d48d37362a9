//! Edge AI Hardware Pipeline
//! INT4 quantization and de-quantization: activations become 4-bit codes
//! (value + 8, in `0..16`), packed two per byte, low nibble first.
use vstd::prelude::*;

verus! {

/// The 4-bit code of the activation 0.0, which pads an odd trailing code.
pub const ZERO_CODE: u8 = 8;

/// The byte holding `lo` in its low nibble and `hi` in its high nibble (each
/// code taken modulo 16).
pub open spec fn packed_pair(lo: u8, hi: u8) -> u8 {
    ((hi % 16) * 16 + lo % 16) as u8
}

/// The packing of a sequence of codes: byte `j` holds codes `2j` and `2j + 1`,
/// the latter being `ZERO_CODE` past the end.
pub open spec fn packed_codes(codes: Seq<u8>) -> Seq<u8> {
    Seq::new(
        ((codes.len() + 1) / 2) as nat,
        |j: int|
            packed_pair(
                codes[2 * j],
                if 2 * j + 1 < codes.len() {
                    codes[2 * j + 1]
                } else {
                    ZERO_CODE
                },
            ),
    )
}

/// The codes held in packed bytes: two per byte, low nibble first.
pub open spec fn unpacked_codes(packed: Seq<u8>) -> Seq<u8> {
    Seq::new(
        2 * packed.len(),
        |k: int|
            if k % 2 == 0 {
                packed[k / 2] % 16
            } else {
                packed[k / 2] / 16
            },
    )
}

pub struct EdgeAIPipeline;

fn pack_two(lo: u8, hi: u8) -> (b: u8)
    ensures
        b == packed_pair(lo, hi),
{
    let l = lo & 0x0F;
    let h = hi & 0x0F;
    assert(l == lo % 16 && h == hi % 16 && ((h << 4u8) | l) == (h * 16 + l) as u8) by (bit_vector)
        requires
            l == lo & 0x0F,
            h == hi & 0x0F,
    ;
    (h << 4) | l
}

impl EdgeAIPipeline {
    /// Packs 4-bit codes two per byte (low nibble first); an odd trailing code
    /// is paired with the code of 0.0.
    pub fn pack_int4_codes(codes: &[u8]) -> (quantized: Vec<u8>)
        requires
            codes@.len() < usize::MAX,
        ensures
            quantized@ == packed_codes(codes@),
    {
        let len = codes.len();
        let mut quantized: Vec<u8> = Vec::with_capacity((len + 1) / 2);
        let mut i: usize = 0;
        while i < len
            invariant
                len == codes@.len(),
                len < usize::MAX,
                i <= len + 1,
                i % 2 == 0,
                quantized@.len() == i / 2,
                forall|j: int| 0 <= j < i / 2 ==> quantized@[j] == #[trigger] packed_codes(codes@)[j],
            decreases len + 1 - i,
        {
            let lo = codes[i];
            let hi = if i + 1 < len {
                codes[i + 1]
            } else {
                ZERO_CODE
            };
            quantized.push(pack_two(lo, hi));
            i += 2;
        }
        assert(quantized@ =~= packed_codes(codes@));
        quantized
    }

    /// Unpacks bytes into their two 4-bit codes each, low nibble first.
    pub fn unpack_int4_codes(packed: &[u8]) -> (codes: Vec<u8>)
        requires
            2 * packed@.len() <= usize::MAX,
        ensures
            codes@ == unpacked_codes(packed@),
    {
        let mut codes: Vec<u8> = Vec::with_capacity(packed.len() * 2);
        let mut i: usize = 0;
        while i < packed.len()
            invariant
                2 * packed@.len() <= usize::MAX,
                i <= packed@.len(),
                codes@.len() == 2 * i,
                forall|k: int| 0 <= k < 2 * i ==> codes@[k] == #[trigger] unpacked_codes(packed@)[k],
            decreases packed@.len() - i,
        {
            let byte = packed[i];
            let low = byte & 0x0F;
            let high = (byte >> 4) & 0x0F;
            assert(low == byte % 16 && high == byte / 16) by (bit_vector)
                requires
                    low == byte & 0x0F,
                    high == (byte >> 4) & 0x0F,
            ;
            codes.push(low);
            codes.push(high);
            i += 1;
        }
        assert(codes@ =~= unpacked_codes(packed@));
        codes
    }
}

/// Unpacking what was packed gives back the codes, followed, for an odd number
/// of codes, by the code of 0.0.
pub proof fn lemma_unpack_pack(codes: Seq<u8>)
    requires
        forall|i: int| 0 <= i < codes.len() ==> #[trigger] codes[i] < 16,
    ensures
        unpacked_codes(packed_codes(codes)) == if codes.len() % 2 == 0 {
            codes
        } else {
            codes.push(ZERO_CODE)
        },
{
    let full = if codes.len() % 2 == 0 {
        codes
    } else {
        codes.push(ZERO_CODE)
    };
    let out = unpacked_codes(packed_codes(codes));
    assert forall|k: int| 0 <= k < out.len() implies out[k] == full[k] by {
        let j = k / 2;
        let lo = codes[2 * j];
        let hi = if 2 * j + 1 < codes.len() {
            codes[2 * j + 1]
        } else {
            ZERO_CODE
        };
        assert(lo < 16 && hi < 16);
        let b = packed_pair(lo, hi);
        assert(b % 16 == lo && b / 16 == hi) by (nonlinear_arith)
            requires
                lo < 16,
                hi < 16,
                b == ((hi % 16) * 16 + lo % 16) as u8,
        ;
    }
    assert(out =~= full);
}

/// Packing what was unpacked gives back the bytes.
pub proof fn lemma_pack_unpack(packed: Seq<u8>)
    ensures
        packed_codes(unpacked_codes(packed)) == packed,
{
    let codes = unpacked_codes(packed);
    let out = packed_codes(codes);
    assert(out.len() == packed.len());
    assert forall|j: int| 0 <= j < packed.len() implies out[j] == packed[j] by {
        let b = packed[j];
        assert(codes[2 * j] == b % 16);
        assert(codes[2 * j + 1] == b / 16);
        assert(((b / 16) % 16) * 16 + (b % 16) % 16 == b) by (nonlinear_arith);
    }
    assert(out =~= packed);
}

} // verus!
