//! Text rendering with bitmap fonts and BBCode markup.

pub mod bbcode;
pub mod bdf;
pub mod blit;
pub mod color;
pub mod fonts;
pub mod wrap;
