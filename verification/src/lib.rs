//! Media decoding and WebSocket-controlled DDP streaming: the verified core.

pub mod api;
pub mod config;
pub mod control;
pub mod error;
pub mod image;
pub mod num;
pub mod outcome;
pub mod output;
pub mod platform;
pub mod render;
pub mod resolver;
pub mod text;
pub mod viewer;

