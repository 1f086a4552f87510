//! The three Spleen font sizes and the set of parsed fonts that rendering
//! draws with. The font texts are read where the program starts and parsed
//! once into a [`FontSet`].

use vstd::prelude::*;

use crate::error::RenderError;
use crate::render::bdf::bdf_font;
use crate::render::bdf::default_advance_for;
use crate::render::bdf::BdfFont;
use crate::text::chars_eq_str;
use crate::text::chars_of;

verus! {

#[derive(Debug, Clone, Copy, PartialEq, Eq, Structural)]
pub enum FontSize {
    S5x8,
    S6x12,
    S8x16,
}

/// The canonical names of the font sizes.
pub open spec fn font_size_named(s: Seq<char>) -> Option<FontSize> {
    if s == "5x8"@ {
        Some(FontSize::S5x8)
    } else if s == "6x12"@ {
        Some(FontSize::S6x12)
    } else if s == "8x16"@ {
        Some(FontSize::S8x16)
    } else {
        None
    }
}

impl FontSize {
    pub fn from_str_canon(s: &str) -> (r: Option<FontSize>)
        ensures
            r == font_size_named(s@),
    {
        let v = chars_of(s);
        FontSize::from_chars(&v)
    }

    /// [`FontSize::from_str_canon`] on a character sequence.
    pub fn from_chars(s: &[char]) -> (r: Option<FontSize>)
        ensures
            r == font_size_named(s@),
    {
        if chars_eq_str(s, "5x8") {
            Some(FontSize::S5x8)
        } else if chars_eq_str(s, "6x12") {
            Some(FontSize::S6x12)
        } else if chars_eq_str(s, "8x16") {
            Some(FontSize::S8x16)
        } else {
            None
        }
    }
}

/// The result of parsing each of the three fonts.
pub struct FontSet {
    pub s5x8: Result<BdfFont, RenderError>,
    pub s6x12: Result<BdfFont, RenderError>,
    pub s8x16: Result<BdfFont, RenderError>,
}

impl FontSet {
    /// The parse result for a size.
    pub open spec fn slot(&self, size: FontSize) -> Result<BdfFont, RenderError> {
        match size {
            FontSize::S5x8 => self.s5x8,
            FontSize::S6x12 => self.s6x12,
            FontSize::S8x16 => self.s8x16,
        }
    }

    /// Parses the three font texts.
    pub fn parse(t5x8: &str, t6x12: &str, t8x16: &str) -> (r: FontSet)
        requires
            bdf_font(t5x8@).is_normal(),
            bdf_font(t6x12@).is_normal(),
            bdf_font(t8x16@).is_normal(),
        ensures
            parsed_as(r.s5x8, t5x8@),
            parsed_as(r.s6x12, t6x12@),
            parsed_as(r.s8x16, t8x16@),
    {
        FontSet { s5x8: BdfFont::parse(t5x8), s6x12: BdfFont::parse(t6x12), s8x16: BdfFont::parse(t8x16) }
    }

    /// Parses the three font texts, or `None` where one of them makes the
    /// parse panic.
    pub fn try_parse(t5x8: &str, t6x12: &str, t8x16: &str) -> (r: Option<FontSet>)
        ensures
            match r {
                Some(set) => parsed_as(set.s5x8, t5x8@) && parsed_as(set.s6x12, t6x12@) && parsed_as(
                    set.s8x16,
                    t8x16@,
                ),
                None => !(bdf_font(t5x8@).is_normal() && bdf_font(t6x12@).is_normal() && bdf_font(
                    t8x16@,
                ).is_normal()),
            },
    {
        let a = match BdfFont::try_parse(t5x8) {
            Some(f) => f,
            None => {
                return None;
            },
        };
        let b = match BdfFont::try_parse(t6x12) {
            Some(f) => f,
            None => {
                return None;
            },
        };
        let c = match BdfFont::try_parse(t8x16) {
            Some(f) => f,
            None => {
                return None;
            },
        };
        Some(FontSet { s5x8: a, s6x12: b, s8x16: c })
    }
}

/// `r` is what [`BdfFont::parse`] gives for `text`.
pub open spec fn parsed_as(r: Result<BdfFont, RenderError>, text: Seq<char>) -> bool {
    match bdf_font(text).value() {
        Ok(f) => r matches Ok(font) && font@ == f && font.default_adv() == default_advance_for(f.fbb_w),
        Err(m) => r matches Err(RenderError::Parse(s)) && s@ == m,
    }
}

/// The parsed font of a size, or the error its text gave.
pub fn get(fonts: &FontSet, size: FontSize) -> (r: Result<&BdfFont, &RenderError>)
    ensures
        match fonts.slot(size) {
            Ok(f) => r matches Ok(g) && *g == f,
            Err(e) => r matches Err(e2) && *e2 == e,
        },
{
    let slot = match size {
        FontSize::S5x8 => &fonts.s5x8,
        FontSize::S6x12 => &fonts.s6x12,
        FontSize::S8x16 => &fonts.s8x16,
    };
    match slot {
        Ok(f) => Ok(f),
        Err(e) => Err(e),
    }
}

} // verus!
