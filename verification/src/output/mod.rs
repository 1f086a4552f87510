//! Frame sinks and metrics; DDP packetization and pixel packing.

pub mod ddp;
pub mod metrics;
pub mod sink;
