pub mod predator_gate;

pub use predator_gate::{OrderPacket, PredatorGate};
