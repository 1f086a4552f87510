//! DDP (Distributed Display Protocol): packet format, pixel packing and the
//! pacing of packets across a frame interval.

pub mod packet;
pub mod pixel;
pub mod registry;
pub mod sender;
pub mod spreading;
