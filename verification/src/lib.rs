mod bits;
pub mod cosmic_queue;
pub mod crypto;
pub mod edge_ai;
pub mod ffi;
pub mod gate;
pub mod primitives;

pub use cosmic_queue::PacketFrame;
pub use crypto::{BssDecoder, BwpMsmAccumulator};
pub use edge_ai::EdgeAIPipeline;
pub use ffi::{
    act_bytes, gemv, quantize_activation_mask, AethelarchError, AethelarchMatrix,
    AethelarchResult, EncodeFailure,
};
pub use gate::{OrderPacket, PredatorGate};
