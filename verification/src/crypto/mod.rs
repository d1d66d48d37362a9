pub mod bss_decoder;
pub mod bwp_msm;

pub use bss_decoder::BssDecoder;
pub use bwp_msm::BwpMsmAccumulator;
