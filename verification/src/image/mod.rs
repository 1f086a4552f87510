//! Still and animated image processing.

pub mod gamma;
pub mod palette;
pub mod resize;
pub mod animated;
pub mod decode;
pub mod unsharp;
pub mod pipeline;
pub mod icc;
