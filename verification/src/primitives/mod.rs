pub mod bcp_scheduler;
pub mod tsc_bedr;
pub mod zah_index;
pub mod zcss_ring;

pub use bcp_scheduler::BcpScheduler;
pub use tsc_bedr::TscBedr;
pub use zah_index::ZahIndex;
pub use zcss_ring::ZcssRing;
