//! The control protocol: its fields and messages.

pub mod fields;
pub mod protocol;
pub mod ws;
pub mod session;
