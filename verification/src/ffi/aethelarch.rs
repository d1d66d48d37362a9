//! The checks and buffer layouts around the Aethelarch ternary GEMV microkernel.
//!
//! Aethelarch provides dual-bitplane ternary GEMV (1.58-bit weights) in a
//! native library. This build does not link it: every operation that would
//! reach the native library answers `NativeUnavailable` (or
//! `EncodeFailed { reason: Unavailable }`) once its argument checks have passed.
use vstd::prelude::*;

verus! {

/// Why `encode_dense` / `from_ternary` failed after length checks passed.
#[derive(Debug, Clone, Copy, PartialEq, Eq, Structural)]
pub enum EncodeFailure {
    /// The native layer rejected the weights (a value outside {-1, 0, 1}).
    NativeReject,
    /// The native library is not available, or the matrix is invalid.
    Unavailable,
}

/// Structured errors of the Aethelarch layer.
#[derive(Debug, Clone, PartialEq, Eq, Structural)]
pub enum AethelarchError {
    /// `rows` or `cols` was zero, or `rows * cols` overflowed.
    InvalidDimensions { rows: usize, cols: usize },
    /// Native allocation failed (OOM or invalid request).
    AllocationFailed { rows: usize, cols: usize },
    /// `ternary.len()` does not equal `rows * cols`.
    WeightLengthMismatch { expected: usize, actual: usize },
    /// Encode rejected input (invalid ternary value or +1/-1 overlap).
    EncodeFailed { reason: EncodeFailure },
    /// Matrix handle is null / already freed.
    InvalidMatrix,
    /// Activation bit buffer shorter than `act_bytes(cols)`.
    ActivationBufferTooShort { required: usize, actual: usize },
    /// Output buffer shorter than `rows`.
    OutputBufferTooShort { required: usize, actual: usize },
    /// The native library is not linked into this build.
    NativeUnavailable,
    /// Native `gemv` returned failure (null inputs inside the native layer).
    GemvFailed,
}

pub type AethelarchResult<T> = Result<T, AethelarchError>;

/// Byte length of an activation mask of `dim` bits: one bit per activation,
/// rounded up to whole bytes and then to a multiple of 64 bytes.
pub open spec fn act_bytes_spec(dim: nat) -> nat {
    ((dim + 7) / 8 + 63) / 64 * 64
}

/// Byte length required for an activation mask of `dim` bits (64-byte padded).
pub fn act_bytes(dim: usize) -> (n: usize)
    requires
        dim + 7 <= usize::MAX,
    ensures
        n == act_bytes_spec(dim as nat),
{
    let raw = (dim + 7) / 8;
    let padded = raw + 63;
    assert(padded & !63usize == padded / 64 * 64) by (bit_vector);
    padded & !63
}

/// An activation mask of `dim` bits fits in `act_bytes(dim)` bytes, a multiple
/// of 64, with less than 64 bytes of padding.
pub proof fn lemma_act_bytes_padding(dim: nat)
    ensures
        act_bytes_spec(dim) % 64 == 0,
        8 * act_bytes_spec(dim) >= dim,
        act_bytes_spec(dim) < (dim + 7) / 8 + 64,
{
}

/// The number of weights of a `rows` x `cols` matrix, or the error for a zero
/// or overflowing dimension.
pub fn checked_elems(rows: usize, cols: usize) -> (r: AethelarchResult<usize>)
    ensures
        rows == 0 || cols == 0 || rows * cols > usize::MAX ==> (r is Err && r->Err_0 == (
            AethelarchError::InvalidDimensions { rows, cols })),
        rows > 0 && cols > 0 && rows * cols <= usize::MAX ==> (r is Ok && r->Ok_0 == (rows * cols) as usize),
{
    if rows == 0 || cols == 0 {
        return Err(AethelarchError::InvalidDimensions { rows, cols });
    }
    match rows.checked_mul(cols) {
        Some(n) => Ok(n),
        None => Err(AethelarchError::InvalidDimensions { rows, cols }),
    }
}

/// A dense ternary weight matrix of the native kernel.
pub struct AethelarchMatrix {
    rows: usize,
    cols: usize,
}

impl AethelarchMatrix {
    #[verifier::type_invariant]
    spec fn dims_ok(&self) -> bool {
        &&& self.rows > 0
        &&& self.cols > 0
        &&& self.rows * self.cols <= usize::MAX
    }

    pub closed spec fn rows_spec(&self) -> nat {
        self.rows as nat
    }

    pub closed spec fn cols_spec(&self) -> nat {
        self.cols as nat
    }

    /// Allocate an empty matrix (weights zeroed): the dimensions are checked,
    /// and then the allocation needs the native library.
    pub fn new(rows: usize, cols: usize) -> (r: AethelarchResult<Self>)
        ensures
            rows == 0 || cols == 0 || rows * cols > usize::MAX ==> (r is Err && r->Err_0 == (
                AethelarchError::InvalidDimensions { rows, cols })),
            rows > 0 && cols > 0 && rows * cols <= usize::MAX ==> (r is Err && r->Err_0 == AethelarchError::NativeUnavailable),
    {
        match checked_elems(rows, cols) {
            Err(e) => Err(e),
            Ok(_) => Err(AethelarchError::NativeUnavailable),
        }
    }

    /// Allocate and encode ternary weights (row-major, values in {-1, 0, 1}).
    pub fn from_ternary(rows: usize, cols: usize, ternary: &[i8]) -> (r: AethelarchResult<Self>)
        ensures
            rows == 0 || cols == 0 || rows * cols > usize::MAX ==> (r is Err && r->Err_0 == (
                AethelarchError::InvalidDimensions { rows, cols })),
            rows > 0 && cols > 0 && rows * cols <= usize::MAX && ternary@.len() != rows * cols
                ==> (r is Err && r->Err_0 == (
                AethelarchError::WeightLengthMismatch {
                    expected: (rows * cols) as usize,
                    actual: ternary@.len() as usize,
                })),
            rows > 0 && cols > 0 && rows * cols <= usize::MAX && ternary@.len() == rows * cols
                ==> (r is Err && r->Err_0 == AethelarchError::NativeUnavailable),
    {
        let expected = match checked_elems(rows, cols) {
            Ok(n) => n,
            Err(e) => {
                return Err(e);
            },
        };
        if ternary.len() != expected {
            return Err(AethelarchError::WeightLengthMismatch { expected, actual: ternary.len() });
        }
        let mat = match Self::new(rows, cols) {
            Ok(m) => m,
            Err(e) => {
                return Err(e);
            },
        };
        match mat.encode_dense(ternary) {
            Ok(()) => Ok(mat),
            Err(e) => Err(e),
        }
    }

    /// Encode ternary weights into dual bitplanes: the length is checked, and
    /// then the encoding needs the native library.
    pub fn encode_dense(&self, ternary: &[i8]) -> (r: AethelarchResult<()>)
        ensures
            ternary@.len() != self.rows_spec() * self.cols_spec() ==> (r is Err && r->Err_0 == (
                AethelarchError::WeightLengthMismatch {
                    expected: (self.rows_spec() * self.cols_spec()) as usize,
                    actual: ternary@.len() as usize,
                })),
            ternary@.len() == self.rows_spec() * self.cols_spec() ==> (r is Err && r->Err_0 == (
                AethelarchError::EncodeFailed { reason: EncodeFailure::Unavailable })),
    {
        proof {
            use_type_invariant(self);
        }
        let rows = self.rows();
        let cols = self.cols();
        let expected = rows * cols;
        if ternary.len() != expected {
            return Err(AethelarchError::WeightLengthMismatch { expected, actual: ternary.len() });
        }
        Err(AethelarchError::EncodeFailed { reason: EncodeFailure::Unavailable })
    }

    pub fn rows(&self) -> (n: usize)
        ensures
            n == self.rows_spec(),
    {
        self.rows
    }

    pub fn cols(&self) -> (n: usize)
        ensures
            n == self.cols_spec(),
    {
        self.cols
    }

    /// Whether the matrix still holds its native handle: a matrix that exists
    /// always does.
    pub fn is_valid(&self) -> (b: bool)
        ensures
            b,
    {
        true
    }
}

/// The outcome of a GEMV `out = scale * W * act_bits` on an output buffer of
/// `out_len` floats: the buffer sizes are checked, and then the product needs
/// the native library.
pub fn gemv(mat: &AethelarchMatrix, act_bits: &[u8], out_len: usize) -> (r: AethelarchResult<()>)
    requires
        mat.cols_spec() + 7 <= usize::MAX,
    ensures
        act_bits@.len() < act_bytes_spec(mat.cols_spec()) ==> (r is Err && r->Err_0 == (
            AethelarchError::ActivationBufferTooShort {
                required: act_bytes_spec(mat.cols_spec()) as usize,
                actual: act_bits@.len() as usize,
            })),
        act_bits@.len() >= act_bytes_spec(mat.cols_spec()) && out_len < mat.rows_spec() ==> (r is Err && r->Err_0 == (
            AethelarchError::OutputBufferTooShort { required: mat.rows_spec() as usize, actual: out_len })),
        act_bits@.len() >= act_bytes_spec(mat.cols_spec()) && out_len >= mat.rows_spec() ==> (r is Err && r->Err_0 == AethelarchError::NativeUnavailable),
{
    let rows = mat.rows();
    let cols = mat.cols();
    let need_act = act_bytes(cols);
    if act_bits.len() < need_act {
        return Err(AethelarchError::ActivationBufferTooShort { required: need_act, actual: act_bits.len() });
    }
    if out_len < rows {
        return Err(AethelarchError::OutputBufferTooShort { required: rows, actual: out_len });
    }
    Err(AethelarchError::NativeUnavailable)
}

/// Whether bit `b` of byte `x` is set.
pub open spec fn byte_bit(x: u8, b: int) -> bool {
    (x >> (b as u8)) & 1u8 == 1u8
}

proof fn lemma_byte_or_bit(x: u8, b: u8, c: u8)
    requires
        b < 8,
        c < 8,
    ensures
        byte_bit(x | (1u8 << b), c as int) == (c == b || byte_bit(x, c as int)),
{
    assert(((x | (1u8 << b)) >> c) & 1u8 == 1u8 <==> (c == b || (x >> c) & 1u8 == 1u8)) by (bit_vector)
        requires
            b < 8,
            c < 8,
    ;
}

/// Quantizes activations to a padded 1-bit mask: `positive[i]` tells whether
/// activation `i` is above zero, and sets bit `i % 8` of byte `i / 8`. The mask
/// has `act_bytes(n)` bytes and every other bit is clear.
pub fn quantize_activation_mask(positive: &[bool]) -> (bits: Vec<u8>)
    requires
        positive@.len() + 7 <= usize::MAX,
    ensures
        bits@.len() == act_bytes_spec(positive@.len()),
        forall|p: int|
            0 <= p < 8 * bits@.len() ==> #[trigger] byte_bit(bits@[p / 8], p % 8) == (p
                < positive@.len() && positive@[p]),
{
    let n = positive.len();
    let nbytes = act_bytes(n);
    let mut bits: Vec<u8> = vec![0u8; nbytes];
    proof {
        assert forall|p: int| 0 <= p < 8 * bits@.len() implies !#[trigger] byte_bit(bits@[p / 8], p % 8) by {
            let c = (p % 8) as u8;
            assert((0u8 >> c) & 1u8 == 0u8) by (bit_vector);
        }
    }
    let mut i: usize = 0;
    while i < n
        invariant
            n == positive@.len(),
            n + 7 <= usize::MAX,
            bits@.len() == nbytes,
            nbytes == act_bytes_spec(n as nat),
            i <= n,
            forall|p: int|
                0 <= p < 8 * bits@.len() ==> #[trigger] byte_bit(bits@[p / 8], p % 8) == (p < i
                    && positive@[p]),
        decreases n - i,
    {
        if positive[i] {
            let k = i / 8;
            let b = (i % 8) as u8;
            let ghost old_bits = bits@;
            let v = bits[k] | (1u8 << b);
            bits.set(k, v);
            proof {
                assert forall|p: int| 0 <= p < 8 * bits@.len() implies #[trigger] byte_bit(
                    bits@[p / 8],
                    p % 8,
                ) == (p < i + 1 && positive@[p]) by {
                    assert(byte_bit(old_bits[p / 8], p % 8) == (p < i && positive@[p]));
                    if p / 8 == k as int {
                        lemma_byte_or_bit(old_bits[k as int], b, (p % 8) as u8);
                    }
                }
            }
        }
        i += 1;
    }
    bits
}

/// The decimal digit character of `d`.
pub open spec fn digit_char(d: nat) -> char {
    if d == 0 {
        '0'
    } else if d == 1 {
        '1'
    } else if d == 2 {
        '2'
    } else if d == 3 {
        '3'
    } else if d == 4 {
        '4'
    } else if d == 5 {
        '5'
    } else if d == 6 {
        '6'
    } else if d == 7 {
        '7'
    } else if d == 8 {
        '8'
    } else {
        '9'
    }
}

/// The decimal writing of `n`, without leading zeros.
pub open spec fn decimal(n: nat) -> Seq<char>
    decreases n,
{
    if n < 10 {
        seq![digit_char(n)]
    } else {
        decimal(n / 10).push(digit_char(n % 10))
    }
}

/// The message of each error: its text with the numbers written in decimal.
pub open spec fn error_message(e: AethelarchError) -> Seq<char> {
    match e {
        AethelarchError::InvalidDimensions { rows, cols } => "invalid matrix dimensions "@ + decimal(
            rows as nat,
        ) + "x"@ + decimal(cols as nat),
        AethelarchError::AllocationFailed { rows, cols } => "failed to allocate "@ + decimal(
            rows as nat,
        ) + "x"@ + decimal(cols as nat) + " Aethelarch matrix"@,
        AethelarchError::WeightLengthMismatch { expected, actual } =>
            "ternary weight length mismatch: expected "@ + decimal(expected as nat) + ", got "@
                + decimal(actual as nat),
        AethelarchError::EncodeFailed { reason } => "encode failed: "@ + match reason {
            EncodeFailure::NativeReject => "NativeReject"@,
            EncodeFailure::Unavailable => "Unavailable"@,
        },
        AethelarchError::InvalidMatrix => "invalid or null matrix handle"@,
        AethelarchError::ActivationBufferTooShort { required, actual } =>
            "activation buffer too short: need "@ + decimal(required as nat) + " bytes, got "@
                + decimal(actual as nat),
        AethelarchError::OutputBufferTooShort { required, actual } =>
            "output buffer too short: need "@ + decimal(required as nat) + " floats, got "@ + decimal(
                actual as nat,
            ),
        AethelarchError::NativeUnavailable =>
            "Aethelarch native library unavailable (build with --features aethelarch and link libaethelarch)"@,
        AethelarchError::GemvFailed => "native gemv failed"@,
    }
}

fn digit_str(d: usize) -> (s: &'static str)
    requires
        d < 10,
    ensures
        s@ == seq![digit_char(d as nat)],
{
    if d == 0 {
        proof {
            reveal_strlit("0");
        }
        "0"
    } else if d == 1 {
        proof {
            reveal_strlit("1");
        }
        "1"
    } else if d == 2 {
        proof {
            reveal_strlit("2");
        }
        "2"
    } else if d == 3 {
        proof {
            reveal_strlit("3");
        }
        "3"
    } else if d == 4 {
        proof {
            reveal_strlit("4");
        }
        "4"
    } else if d == 5 {
        proof {
            reveal_strlit("5");
        }
        "5"
    } else if d == 6 {
        proof {
            reveal_strlit("6");
        }
        "6"
    } else if d == 7 {
        proof {
            reveal_strlit("7");
        }
        "7"
    } else if d == 8 {
        proof {
            reveal_strlit("8");
        }
        "8"
    } else {
        proof {
            reveal_strlit("9");
        }
        "9"
    }
}

/// Appends the decimal writing of `n` to `s`.
fn push_decimal(s: &mut String, n: usize)
    ensures
        final(s)@ == old(s)@ + decimal(n as nat),
    decreases n,
{
    if n >= 10 {
        push_decimal(s, n / 10);
    }
    s.append(digit_str(n % 10));
    proof {
        if n >= 10 {
            assert(old(s)@ + decimal((n / 10) as nat) + seq![digit_char((n % 10) as nat)] =~= old(s)@ + decimal(
                n as nat,
            ));
        } else {
            assert(old(s)@ + seq![digit_char((n % 10) as nat)] =~= old(s)@ + decimal(n as nat));
        }
    }
}

impl AethelarchError {
    /// The human-readable message of the error.
    pub fn message(&self) -> (m: String)
        ensures
            m@ == error_message(*self),
    {
        match self {
            AethelarchError::InvalidDimensions { rows, cols } => {
                let mut m = String::from_str("invalid matrix dimensions ");
                push_decimal(&mut m, *rows);
                m.append("x");
                push_decimal(&mut m, *cols);
                m
            },
            AethelarchError::AllocationFailed { rows, cols } => {
                let mut m = String::from_str("failed to allocate ");
                push_decimal(&mut m, *rows);
                m.append("x");
                push_decimal(&mut m, *cols);
                m.append(" Aethelarch matrix");
                m
            },
            AethelarchError::WeightLengthMismatch { expected, actual } => {
                let mut m = String::from_str("ternary weight length mismatch: expected ");
                push_decimal(&mut m, *expected);
                m.append(", got ");
                push_decimal(&mut m, *actual);
                m
            },
            AethelarchError::EncodeFailed { reason } => {
                let mut m = String::from_str("encode failed: ");
                match reason {
                    EncodeFailure::NativeReject => m.append("NativeReject"),
                    EncodeFailure::Unavailable => m.append("Unavailable"),
                }
                m
            },
            AethelarchError::InvalidMatrix => String::from_str("invalid or null matrix handle"),
            AethelarchError::ActivationBufferTooShort { required, actual } => {
                let mut m = String::from_str("activation buffer too short: need ");
                push_decimal(&mut m, *required);
                m.append(" bytes, got ");
                push_decimal(&mut m, *actual);
                m
            },
            AethelarchError::OutputBufferTooShort { required, actual } => {
                let mut m = String::from_str("output buffer too short: need ");
                push_decimal(&mut m, *required);
                m.append(" floats, got ");
                push_decimal(&mut m, *actual);
                m
            },
            AethelarchError::NativeUnavailable => String::from_str(
                "Aethelarch native library unavailable (build with --features aethelarch and link libaethelarch)",
            ),
            AethelarchError::GemvFailed => String::from_str("native gemv failed"),
        }
    }
}

} // verus!
