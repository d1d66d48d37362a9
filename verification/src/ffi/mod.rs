//! The Aethelarch ternary GEMV microkernel's interface: argument checks,
//! activation masks and errors.

pub mod aethelarch;

pub use aethelarch::{
    act_bytes, gemv, quantize_activation_mask, AethelarchError, AethelarchMatrix,
    AethelarchResult, EncodeFailure,
};
