//! Pixel formats and stream identity of frame sinks.

use vstd::prelude::*;

use crate::text::chars_eq_str;
use crate::text::chars_of;
use crate::text::lower_seq;
use crate::text::lower_vec;
use crate::num::decimal;
use crate::num::push_decimal;
use crate::text::string_from_chars;

verus! {

#[derive(Debug, Clone, Copy, PartialEq, Eq, Structural)]
pub enum PixelFormat {
    Rgb888,
    Rgb565Be,
    Rgb565Le,
}

/// The names of the pixel formats, in any case; `rgbw` names RGB888 (the
/// receiver converts RGB input for its RGBW renderer).
pub open spec fn pixel_format_named(name: Seq<char>) -> Option<PixelFormat> {
    let s = lower_seq(name);
    if s == "rgb888"@ || s == "rgbw"@ {
        Some(PixelFormat::Rgb888)
    } else if s == "rgb565be"@ {
        Some(PixelFormat::Rgb565Be)
    } else if s == "rgb565le"@ {
        Some(PixelFormat::Rgb565Le)
    } else {
        None
    }
}

impl PixelFormat {
    pub fn from_str_canon(s: &str) -> (r: Option<PixelFormat>)
        ensures
            r == pixel_format_named(s@),
    {
        let v = lower_vec(&chars_of(s));
        if chars_eq_str(&v, "rgb888") || chars_eq_str(&v, "rgbw") {
            Some(PixelFormat::Rgb888)
        } else if chars_eq_str(&v, "rgb565be") {
            Some(PixelFormat::Rgb565Be)
        } else if chars_eq_str(&v, "rgb565le") {
            Some(PixelFormat::Rgb565Le)
        } else {
            None
        }
    }
}

/// Opaque identity of one stream.
#[derive(Debug, Clone, Copy, PartialEq, Eq, Hash, Structural)]
pub struct StreamId(pub u64);

impl StreamId {
    /// The id with the given number; the program draws them from a process
    /// wide counter starting at 1.
    pub fn new(raw: u64) -> (r: StreamId)
        ensures
            r.0 == raw,
    {
        StreamId(raw)
    }

    /// The display form of the id: `s` and its number.
    pub fn label(&self) -> (r: String)
        ensures
            r@ == seq!['s'] + decimal(self.0 as nat),
    {
        let mut v: Vec<char> = Vec::new();
        v.push('s');
        push_decimal(&mut v, self.0);
        string_from_chars(&v)
    }
}

} // verus!
