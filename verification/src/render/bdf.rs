//! BDF (Bitmap Distribution Format) parser: just enough of the format to
//! render the Spleen bitmap fonts.
//!
//! Each glyph is a bitmap indexed by code point, one bit per pixel, rows
//! packed left to right and top to bottom. `dwidth` is the advance width
//! (pen movement after drawing); the BBX line gives the bounding box
//! `w h x_off y_off`, the offsets relative to the origin.

use std::collections::HashMap;
use vstd::prelude::*;

use crate::error::RenderError;
use crate::num::int_error_message;
use crate::num::int_error_text;
use crate::num::parse_i64;
use crate::num::parse_int_chars;
use crate::num::parse_int_result;
use crate::num::parse_hex_u8;
use crate::num::IntErrorKind;
use crate::num::lemma_parse_range;
use crate::outcome::Outcome;
use crate::render::color::byte_prefix;
use crate::render::color::byte_prefix_exec;
use crate::render::color::lemma_byte_prefix_len;
use crate::render::color::utf8_len_exec;
use crate::text::chars_of;
use crate::text::extend_chars;
use crate::text::has_prefix;
use crate::text::lines_vec;
use crate::text::raw_lines;
use crate::text::slice_to_vec;
use crate::text::starts_with_str;
use crate::text::chars_eq_str;
use crate::text::string_from_chars;
use crate::text::trim;
use crate::text::trim_vec;
use crate::text::utf8_len;
use crate::text::views;
use crate::text::lemma_views_push;
use crate::text::words;
use crate::text::words_vec;

verus! {

broadcast use vstd::std_specs::hash::group_hash_axioms;

// ---------------------------------------------------------------------------
// Data
// ---------------------------------------------------------------------------

#[derive(Debug, Clone)]
pub struct Glyph {
    /// Code point this glyph represents.
    pub code: u32,
    /// Advance width (how far the pen moves after drawing this glyph).
    pub dwidth: u16,
    /// Bounding box width in pixels.
    pub bbx_w: u16,
    /// Bounding box height in pixels.
    pub bbx_h: u16,
    /// X-offset of the bounding box from the origin.
    pub bbx_x: i16,
    /// Y-offset of the bounding box from the origin (baseline 0, ascenders above).
    pub bbx_y: i16,
    /// One byte per 8 columns of a row, most significant bit first, rows
    /// padded to whole bytes.
    pub bitmap: Vec<u8>,
}

/// A glyph as a mathematical value.
pub struct GlyphSpec {
    pub code: u32,
    pub dwidth: u16,
    pub bbx_w: u16,
    pub bbx_h: u16,
    pub bbx_x: i16,
    pub bbx_y: i16,
    pub bitmap: Seq<u8>,
}

impl View for Glyph {
    type V = GlyphSpec;

    open spec fn view(&self) -> GlyphSpec {
        GlyphSpec {
            code: self.code,
            dwidth: self.dwidth,
            bbx_w: self.bbx_w,
            bbx_h: self.bbx_h,
            bbx_x: self.bbx_x,
            bbx_y: self.bbx_y,
            bitmap: self.bitmap@,
        }
    }
}

#[derive(Debug)]
pub struct BdfFont {
    /// Font-wide bounding box width.
    pub fbb_w: u16,
    /// Font-wide bounding box height.
    pub fbb_h: u16,
    /// Ascent above the baseline: how far the top of the font bounding box
    /// lies above the origin (its height plus its vertical offset).
    pub fbb_y_off: i32,
    pub(crate) glyphs: HashMap<u32, Glyph>,
    pub(crate) default_advance: u16,
}

/// A font as a mathematical value: the bounding box and the glyphs by code.
pub struct FontSpec {
    pub fbb_w: u16,
    pub fbb_h: u16,
    pub fbb_y_off: i32,
    pub glyphs: Map<u32, GlyphSpec>,
}

impl View for BdfFont {
    type V = FontSpec;

    closed spec fn view(&self) -> FontSpec {
        FontSpec {
            fbb_w: self.fbb_w,
            fbb_h: self.fbb_h,
            fbb_y_off: self.fbb_y_off,
            glyphs: self.glyphs@.map_values(|g: Glyph| g@),
        }
    }
}

/// The box fields of a font's view are its public fields.
pub(crate) proof fn lemma_font_view_fields(f: &BdfFont)
    ensures
        #[trigger] f@.fbb_w == f.fbb_w,
        f@.fbb_h == f.fbb_h,
        f@.fbb_y_off == f.fbb_y_off,
{
}

/// The advance used for characters that the font has no glyph for.
pub open spec fn default_advance_for(fbb_w: u16) -> u16 {
    if fbb_w >= 1 {
        fbb_w
    } else {
        1
    }
}

// ---------------------------------------------------------------------------
// Specification of the parser
// ---------------------------------------------------------------------------

/// The lines of a BDF text, each trimmed of surrounding white space.
pub open spec fn bdf_lines(text: Seq<char>) -> Seq<Seq<char>> {
    raw_lines(text).map_values(|l: Seq<char>| trim(l))
}

/// The `Debug` rendering of a string (quoted and escaped).
pub uninterp spec fn str_debug(s: Seq<char>) -> Seq<char>;

/// Message of a field that is not a number of the expected type.
pub open spec fn field_message(s: Seq<char>, k: IntErrorKind) -> Seq<char> {
    "bdf field "@ + str_debug(s) + ": "@ + int_error_text(k)
}

/// A numeric field of type `[lo, hi]`, or the message of its parse error.
pub open spec fn field_value(s: Seq<char>, signed: bool, lo: int, hi: int) -> Result<int, Seq<char>> {
    match parse_int_result(s, 10, signed, lo, hi) {
        Ok(v) => Ok(v),
        Err(k) => Err(field_message(s, k)),
    }
}

/// What the header lines of a glyph have set so far.
#[derive(Clone, Copy)]
pub struct GlyphHeader {
    pub code: Option<u32>,
    pub dwidth: u16,
    pub bbx_w: u16,
    pub bbx_h: u16,
    pub bbx_x: i16,
    pub bbx_y: i16,
}

/// The header before any line was read.
pub open spec fn empty_header() -> GlyphHeader {
    GlyphHeader { code: None, dwidth: 0, bbx_w: 0, bbx_h: 0, bbx_x: 0, bbx_y: 0 }
}

/// The line is an `ENCODING`, `DWIDTH` or `BBX` line.
pub open spec fn is_header_line(line: Seq<char>) -> bool {
    has_prefix(line, "ENCODING"@) || has_prefix(line, "DWIDTH"@) || has_prefix(line, "BBX"@)
}

/// The effect of one header line. `ENCODING` takes a non-negative `i64`
/// (truncated to 32 bits) and ignores anything else; `DWIDTH` takes its
/// first word; `BBX` takes four words when there are at least four.
pub open spec fn header_step(line: Seq<char>, st: GlyphHeader) -> Result<GlyphHeader, Seq<char>> {
    if has_prefix(line, "ENCODING"@) {
        match parse_i64(trim(line.skip(8))) {
            Ok(c) => if c >= 0 {
                Ok(GlyphHeader { code: Some((c % 0x1_0000_0000) as u32), ..st })
            } else {
                Ok(st)
            },
            Err(_) => Ok(st),
        }
    } else if has_prefix(line, "DWIDTH"@) {
        let parts = words(line.skip(6), true);
        if parts.len() > 0 {
            match field_value(parts[0], false, 0, 0xFFFF) {
                Ok(v) => Ok(GlyphHeader { dwidth: v as u16, ..st }),
                Err(m) => Err(m),
            }
        } else {
            Ok(st)
        }
    } else {
        let parts = words(line.skip(3), true);
        if parts.len() >= 4 {
            match field_value(parts[0], false, 0, 0xFFFF) {
                Err(m) => Err(m),
                Ok(w) => match field_value(parts[1], false, 0, 0xFFFF) {
                    Err(m) => Err(m),
                    Ok(h) => match field_value(parts[2], true, -0x8000, 0x7FFF) {
                        Err(m) => Err(m),
                        Ok(x) => match field_value(parts[3], true, -0x8000, 0x7FFF) {
                            Err(m) => Err(m),
                            Ok(y) => Ok(
                                GlyphHeader {
                                    bbx_w: w as u16,
                                    bbx_h: h as u16,
                                    bbx_x: x as i16,
                                    bbx_y: y as i16,
                                    ..st
                                },
                            ),
                        },
                    },
                },
            }
        } else {
            Ok(st)
        }
    }
}

/// Reads header lines from `i` up to and including the `BITMAP` line (or to
/// the end); returns the header and the index after it.
pub open spec fn glyph_header(ls: Seq<Seq<char>>, i: nat, st: GlyphHeader) -> Result<(GlyphHeader, nat), Seq<char>>
    decreases ls.len() - i,
{
    if i >= ls.len() {
        Ok((st, i))
    } else if is_header_line(ls[i as int]) {
        match header_step(ls[i as int], st) {
            Err(m) => Err(m),
            Ok(st2) => glyph_header(ls, i + 1, st2),
        }
    } else if ls[i as int] == "BITMAP"@ {
        Ok((st, i + 1))
    } else {
        glyph_header(ls, i + 1, st)
    }
}

/// The index after the next `ENDCHAR` line at or after `i` (or the end).
pub open spec fn skip_glyph(ls: Seq<Seq<char>>, i: nat) -> nat
    decreases ls.len() - i,
{
    if i >= ls.len() {
        i
    } else if ls[i as int] == "ENDCHAR"@ {
        i + 1
    } else {
        skip_glyph(ls, i + 1)
    }
}

/// Message of a bitmap row that is not hexadecimal.
pub open spec fn row_message(k: IntErrorKind) -> Seq<char> {
    "bdf bitmap row: "@ + int_error_text(k)
}

/// Reads a bitmap row two bytes (of its UTF-8 text) at a time, each pair a
/// hexadecimal byte, while two bytes remain and the bitmap holds fewer than
/// `cap` bytes. A pair that ends inside a character panics.
pub open spec fn hex_row(t: Seq<char>, cap: nat, acc: Seq<u8>) -> Outcome<Result<Seq<u8>, Seq<char>>>
    decreases t.len(),
{
    if utf8_len(t) < 2 || acc.len() >= cap {
        Outcome::Returns(Ok(acc))
    } else {
        match byte_prefix(t, 2) {
            None => Outcome::Panics,
            Some(n) => match parse_hex_u8(t.take(n as int)) {
                Err(k) => Outcome::Returns(Err(row_message(k))),
                Ok(b) => {
                    proof {
                        lemma_byte_prefix_len(t, 2);
                    }
                    hex_row(t.skip(n as int), cap, acc.push(b as u8))
                },
            },
        }
    }
}

/// Reads bitmap rows from line `i` up to and including `ENDCHAR` (or to the
/// end); returns the bitmap and the index after it.
pub open spec fn bitmap_rows(ls: Seq<Seq<char>>, i: nat, cap: nat, acc: Seq<u8>) -> Outcome<Result<(Seq<u8>, nat), Seq<char>>>
    decreases ls.len() - i,
{
    if i >= ls.len() {
        Outcome::Returns(Ok((acc, i)))
    } else if ls[i as int] == "ENDCHAR"@ {
        Outcome::Returns(Ok((acc, i + 1)))
    } else {
        match hex_row(ls[i as int], cap, acc) {
            Outcome::Panics => Outcome::Panics,
            Outcome::Returns(Err(m)) => Outcome::Returns(Err(m)),
            Outcome::Returns(Ok(acc2)) => bitmap_rows(ls, i + 1, cap, acc2),
        }
    }
}

/// Bytes of one bitmap row of a glyph `w` pixels wide.
pub open spec fn bytes_per_row(w: u16) -> nat {
    ((w as nat) + 7) / 8
}

/// Reads one glyph whose `STARTCHAR` line precedes line `i`: the header,
/// then (when it had an encoding) the bitmap, up to `ENDCHAR`. A glyph
/// without an encoding is skipped. Returns the glyph and the next index.
pub open spec fn parse_glyph(ls: Seq<Seq<char>>, i: nat) -> Outcome<Result<(Option<GlyphSpec>, nat), Seq<char>>> {
    match glyph_header(ls, i, empty_header()) {
        Err(m) => Outcome::Returns(Err(m)),
        Ok((st, j)) => match st.code {
            None => Outcome::Returns(Ok((None, skip_glyph(ls, j)))),
            Some(code) => {
                let cap = bytes_per_row(st.bbx_w) * (st.bbx_h as nat);
                match bitmap_rows(ls, j, cap, seq![]) {
                    Outcome::Panics => Outcome::Panics,
                    Outcome::Returns(Err(m)) => Outcome::Returns(Err(m)),
                    Outcome::Returns(Ok((bm, k))) => Outcome::Returns(
                        Ok(
                            (
                                Some(
                                    GlyphSpec {
                                        code,
                                        dwidth: st.dwidth,
                                        bbx_w: st.bbx_w,
                                        bbx_h: st.bbx_h,
                                        bbx_x: st.bbx_x,
                                        bbx_y: st.bbx_y,
                                        bitmap: bm,
                                    },
                                ),
                                k,
                            ),
                        ),
                    ),
                }
            },
        },
    }
}

pub proof fn lemma_glyph_header_index(ls: Seq<Seq<char>>, i: nat, st: GlyphHeader)
    requires
        i <= ls.len(),
    ensures
        glyph_header(ls, i, st) matches Ok((_, j)) ==> i <= j <= ls.len(),
    decreases ls.len() - i,
{
    if i < ls.len() {
        if is_header_line(ls[i as int]) {
            if let Ok(st2) = header_step(ls[i as int], st) {
                lemma_glyph_header_index(ls, i + 1, st2);
            }
        } else if ls[i as int] != "BITMAP"@ {
            lemma_glyph_header_index(ls, i + 1, st);
        }
    }
}

pub proof fn lemma_skip_glyph_index(ls: Seq<Seq<char>>, i: nat)
    requires
        i <= ls.len(),
    ensures
        i <= skip_glyph(ls, i) <= ls.len(),
    decreases ls.len() - i,
{
    if i < ls.len() && ls[i as int] != "ENDCHAR"@ {
        lemma_skip_glyph_index(ls, i + 1);
    }
}

pub proof fn lemma_bitmap_rows_index(ls: Seq<Seq<char>>, i: nat, cap: nat, acc: Seq<u8>)
    requires
        i <= ls.len(),
    ensures
        bitmap_rows(ls, i, cap, acc) matches Outcome::Returns(Ok((_, k))) ==> i <= k <= ls.len(),
    decreases ls.len() - i,
{
    if i < ls.len() && ls[i as int] != "ENDCHAR"@ {
        if let Outcome::Returns(Ok(acc2)) = hex_row(ls[i as int], cap, acc) {
            lemma_bitmap_rows_index(ls, i + 1, cap, acc2);
        }
    }
}

pub proof fn lemma_parse_glyph_index(ls: Seq<Seq<char>>, i: nat)
    requires
        i <= ls.len(),
    ensures
        parse_glyph(ls, i) matches Outcome::Returns(Ok((_, k))) ==> i <= k <= ls.len(),
{
    lemma_glyph_header_index(ls, i, empty_header());
    if let Ok((st, j)) = glyph_header(ls, i, empty_header()) {
        lemma_skip_glyph_index(ls, j);
        let cap = bytes_per_row(st.bbx_w) * (st.bbx_h as nat);
        lemma_bitmap_rows_index(ls, j, cap, seq![]);
    }
}

/// The effect of the font-level lines from `i` on: `FONTBOUNDINGBOX` with at
/// least four words sets the box (width, height, and the ascent: the height
/// plus the fourth word, the offset of the box's bottom from the baseline); `STARTCHAR` reads a glyph, which replaces any glyph
/// with the same code.
pub open spec fn parse_font(ls: Seq<Seq<char>>, i: nat, st: FontSpec) -> Outcome<Result<FontSpec, Seq<char>>>
    decreases ls.len() - i,
{
    if i >= ls.len() {
        Outcome::Returns(Ok(st))
    } else if has_prefix(ls[i as int], "FONTBOUNDINGBOX"@) {
        let parts = words(ls[i as int].skip(15), true);
        if parts.len() >= 4 {
            match field_value(parts[0], false, 0, 0xFFFF) {
                Err(m) => Outcome::Returns(Err(m)),
                Ok(w) => match field_value(parts[1], false, 0, 0xFFFF) {
                    Err(m) => Outcome::Returns(Err(m)),
                    Ok(h) => match field_value(parts[3], true, -0x8000, 0x7FFF) {
                        Err(m) => Outcome::Returns(Err(m)),
                        Ok(y) => parse_font(
                            ls,
                            i + 1,
                            FontSpec { fbb_w: w as u16, fbb_h: h as u16, fbb_y_off: (h + y) as i32, ..st },
                        ),
                    },
                },
            }
        } else {
            parse_font(ls, i + 1, st)
        }
    } else if has_prefix(ls[i as int], "STARTCHAR"@) {
        proof {
            lemma_parse_glyph_index(ls, i + 1);
        }
        match parse_glyph(ls, i + 1) {
            Outcome::Panics => Outcome::Panics,
            Outcome::Returns(Err(m)) => Outcome::Returns(Err(m)),
            Outcome::Returns(Ok((None, k))) => parse_font(ls, k, st),
            Outcome::Returns(Ok((Some(g), k))) => parse_font(
                ls,
                k,
                FontSpec { glyphs: st.glyphs.insert(g.code, g), ..st },
            ),
        }
    } else {
        parse_font(ls, i + 1, st)
    }
}

/// What parsing a BDF text gives: the font, the message of the first field
/// that is not a number, or a panic (a bitmap pair that splits a character).
/// The box defaults to 8 by 16 with its bottom on the baseline (ascent 16).
pub open spec fn bdf_font(text: Seq<char>) -> Outcome<Result<FontSpec, Seq<char>>> {
    parse_font(
        bdf_lines(text),
        0,
        FontSpec { fbb_w: 8, fbb_h: 16, fbb_y_off: 16, glyphs: Map::empty() },
    )
}

// ---------------------------------------------------------------------------
// Parser
// ---------------------------------------------------------------------------

/// `format!("{:?}", s)`: the `Debug` rendering of the string `s`.
#[verifier::external_body]
fn debug_string(s: &[char]) -> (r: String)
    ensures
        r@ == str_debug(s@),
{
    let text: String = s.iter().collect();
    format!("{:?}", text)
}

/// Appends the characters of a string literal.
fn push_str(out: &mut Vec<char>, lit: &str)
    ensures
        final(out)@ == old(out)@ + lit@,
{
    let v = chars_of(lit);
    extend_chars(out, &v);
}

/// Parses a numeric field of type `[lo, hi]`.
fn parse_field(s: &[char], signed: bool, lo: i64, hi: i64) -> (r: Result<i64, RenderError>)
    requires
        lo <= 0 <= hi,
    ensures
        match field_value(s@, signed, lo as int, hi as int) {
            Ok(v) => r == Ok::<i64, RenderError>(v as i64),
            Err(m) => r matches Err(RenderError::Parse(t)) && t@ == m,
        },
        r matches Ok(v) ==> lo <= v <= hi,
        field_value(s@, signed, lo as int, hi as int) matches Ok(v) ==> lo <= v <= hi,
{
    proof {
        lemma_parse_range(s@, 10, signed, lo as int, hi as int);
    }
    match parse_int_chars(s, 10, signed, lo, hi) {
        Ok(v) => Ok(v),
        Err(k) => {
            let mut msg: Vec<char> = Vec::new();
            push_str(&mut msg, "bdf field ");
            let d = debug_string(s);
            let dv = chars_of(d.as_str());
            extend_chars(&mut msg, &dv);
            push_str(&mut msg, ": ");
            push_str(&mut msg, int_error_message(k));
            assert(msg@ =~= field_message(s@, k));
            Err(RenderError::Parse(string_from_chars(&msg)))
        },
    }
}

/// The trimmed lines of a text.
fn trimmed_lines(text: &[char]) -> (r: Vec<Vec<char>>)
    ensures
        views(r@) == bdf_lines(text@),
{
    let raw = lines_vec(text);
    let mut r: Vec<Vec<char>> = Vec::new();
    let mut i: usize = 0;
    while i < raw.len()
        invariant
            i <= raw.len(),
            views(raw@) == raw_lines(text@),
            views(r@) =~= bdf_lines(text@).take(i as int),
        decreases raw.len() - i,
    {
        let t = trim_vec(&raw[i]);
        proof {
            lemma_views_push(r@, t);
            assert(raw@[i as int]@ == raw_lines(text@)[i as int]);
        }
        r.push(t);
        i = i + 1;
    }
    r
}

/// Applies one header line (see [`header_step`]).
fn parse_header_line(line: &[char], st: GlyphHeader) -> (r: Result<GlyphHeader, RenderError>)
    requires
        is_header_line(line@),
    ensures
        match header_step(line@, st) {
            Ok(s2) => r == Ok::<GlyphHeader, RenderError>(s2),
            Err(m) => r matches Err(RenderError::Parse(t)) && t@ == m,
        },
{
    proof {
        reveal_strlit("ENCODING");
        reveal_strlit("DWIDTH");
        reveal_strlit("BBX");
    }
    if starts_with_str(line, "ENCODING") {
        let rest = slice_to_vec(line, 8, line.len());
        assert(rest@ =~= line@.skip(8));
        let t = trim_vec(&rest);
        proof {
            lemma_parse_range(t@, 10, true, i64::MIN as int, i64::MAX as int);
        }
        match parse_int_chars(&t, 10, true, i64::MIN, i64::MAX) {
            Ok(c) => {
                if c >= 0 {
                    let v: i64 = c % 0x1_0000_0000;
                    Ok(GlyphHeader { code: Some(v as u32), ..st })
                } else {
                    Ok(st)
                }
            },
            Err(_) => Ok(st),
        }
    } else if starts_with_str(line, "DWIDTH") {
        let rest = slice_to_vec(line, 6, line.len());
        assert(rest@ =~= line@.skip(6));
        let parts = words_vec(&rest, true);
        if parts.len() > 0 {
            assert(parts@[0]@ == words(line@.skip(6), true)[0]);
            match parse_field(&parts[0], false, 0, 0xFFFF) {
                Ok(v) => Ok(GlyphHeader { dwidth: v as u16, ..st }),
                Err(e) => Err(e),
            }
        } else {
            Ok(st)
        }
    } else {
        let rest = slice_to_vec(line, 3, line.len());
        assert(rest@ =~= line@.skip(3));
        let parts = words_vec(&rest, true);
        if parts.len() >= 4 {
            let ghost ws = words(line@.skip(3), true);
            assert(parts@[0]@ == ws[0] && parts@[1]@ == ws[1] && parts@[2]@ == ws[2] && parts@[3]@
                == ws[3]);
            let w = match parse_field(&parts[0], false, 0, 0xFFFF) {
                Ok(v) => v,
                Err(e) => {
                    return Err(e);
                },
            };
            let h = match parse_field(&parts[1], false, 0, 0xFFFF) {
                Ok(v) => v,
                Err(e) => {
                    return Err(e);
                },
            };
            let x = match parse_field(&parts[2], true, -0x8000, 0x7FFF) {
                Ok(v) => v,
                Err(e) => {
                    return Err(e);
                },
            };
            let y = match parse_field(&parts[3], true, -0x8000, 0x7FFF) {
                Ok(v) => v,
                Err(e) => {
                    return Err(e);
                },
            };
            Ok(
                GlyphHeader {
                    bbx_w: w as u16,
                    bbx_h: h as u16,
                    bbx_x: x as i16,
                    bbx_y: y as i16,
                    ..st
                },
            )
        } else {
            Ok(st)
        }
    }
}

/// Reads the header of a glyph from line `i` (see [`glyph_header`]).
fn read_header(ls: &Vec<Vec<char>>, i: usize) -> (r: Result<(GlyphHeader, usize), RenderError>)
    requires
        i <= ls.len(),
    ensures
        match glyph_header(views(ls@), i as nat, empty_header()) {
            Ok((st, j)) => r == Ok::<(GlyphHeader, usize), RenderError>((st, j as usize)),
            Err(m) => r matches Err(RenderError::Parse(t)) && t@ == m,
        },
{
    let ghost l = views(ls@);
    let mut st = GlyphHeader { code: None, dwidth: 0, bbx_w: 0, bbx_h: 0, bbx_x: 0, bbx_y: 0 };
    let mut k: usize = i;
    proof {
        reveal_strlit("BITMAP");
    }
    while k < ls.len()
        invariant
            i <= k <= ls.len(),
            l == views(ls@),
            glyph_header(l, i as nat, empty_header()) == glyph_header(l, k as nat, st),
        decreases ls.len() - k,
    {
        let line = &ls[k];
        assert(line@ == l[k as int]);
        if starts_with_str(line, "ENCODING") || starts_with_str(line, "DWIDTH") || starts_with_str(
            line,
            "BBX",
        ) {
            match parse_header_line(line, st) {
                Ok(s2) => {
                    st = s2;
                },
                Err(e) => {
                    return Err(e);
                },
            }
        } else if chars_eq_str(line, "BITMAP") {
            return Ok((st, k + 1));
        }
        k = k + 1;
    }
    Ok((st, k))
}

/// The index after the next `ENDCHAR` line (see [`skip_glyph`]).
fn skip_to_endchar(ls: &Vec<Vec<char>>, i: usize) -> (r: usize)
    requires
        i <= ls.len(),
    ensures
        r == skip_glyph(views(ls@), i as nat),
{
    let ghost l = views(ls@);
    let mut k: usize = i;
    while k < ls.len()
        invariant
            i <= k <= ls.len(),
            l == views(ls@),
            skip_glyph(l, i as nat) == skip_glyph(l, k as nat),
        decreases ls.len() - k,
    {
        assert(ls@[k as int]@ == l[k as int]);
        if chars_eq_str(&ls[k], "ENDCHAR") {
            return k + 1;
        }
        k = k + 1;
    }
    k
}

/// Reads the hexadecimal pairs of one bitmap row into `bm` (see
/// [`hex_row`]); `None` where a pair ends inside a character.
fn read_hex_row(t: &[char], cap: usize, bm: &mut Vec<u8>) -> (r: Option<Result<(), RenderError>>)
    ensures
        match hex_row(t@, cap as nat, old(bm)@) {
            Outcome::Panics => r is None,
            Outcome::Returns(Ok(a)) => r matches Some(Ok(())) && final(bm)@ == a,
            Outcome::Returns(Err(m)) => r matches Some(Err(RenderError::Parse(s))) && s@ == m,
        },
{
    let ghost whole = hex_row(t@, cap as nat, bm@);
    let mut p: usize = 0;
    assert(t@.skip(0) =~= t@);
    while utf8_len_exec(t, p) >= 2 && bm.len() < cap
        invariant
            p <= t.len(),
            whole == hex_row(t@, cap as nat, old(bm)@),
            whole == hex_row(t@.skip(p as int), cap as nat, bm@),
        decreases t.len() - p,
    {
        let ghost rest = t@.skip(p as int);
        proof {
            lemma_byte_prefix_len(rest, 2);
        }
        match byte_prefix_exec(t, p, 2) {
            None => {
                return None;
            },
            Some(n) => {
                let digits = slice_to_vec(t, p, p + n);
                assert(digits@ =~= rest.take(n as int));
                proof {
                    lemma_parse_range(digits@, 16, false, 0, 255);
                }
                match parse_int_chars(&digits, 16, false, 0, 255) {
                    Ok(b) => {
                        assert(rest.skip(n as int) =~= t@.skip(p + n));
                        bm.push(b as u8);
                        p = p + n;
                    },
                    Err(k) => {
                        let mut msg: Vec<char> = Vec::new();
                        push_str(&mut msg, "bdf bitmap row: ");
                        push_str(&mut msg, int_error_message(k));
                        assert(msg@ =~= row_message(k));
                        return Some(Err(RenderError::Parse(string_from_chars(&msg))));
                    },
                }
            },
        }
    }
    Some(Ok(()))
}

/// Reads the bitmap rows of a glyph from line `i` (see [`bitmap_rows`]);
/// `None` where reading a row panics.
fn read_bitmap(ls: &Vec<Vec<char>>, i: usize, cap: usize) -> (r: Option<Result<(Vec<u8>, usize), RenderError>>)
    requires
        i <= ls.len(),
    ensures
        match bitmap_rows(views(ls@), i as nat, cap as nat, seq![]) {
            Outcome::Panics => r is None,
            Outcome::Returns(Ok((bm, k))) => r matches Some(Ok((b, k2))) && b@ == bm && k2 == k,
            Outcome::Returns(Err(m)) => r matches Some(Err(RenderError::Parse(s))) && s@ == m,
        },
{
    let ghost l = views(ls@);
    let ghost whole = bitmap_rows(l, i as nat, cap as nat, seq![]);
    let mut bm: Vec<u8> = Vec::new();
    let mut k: usize = i;
    proof {
        reveal_strlit("ENDCHAR");
    }
    while k < ls.len()
        invariant
            i <= k <= ls.len(),
            l == views(ls@),
            whole == bitmap_rows(views(ls@), i as nat, cap as nat, seq![]),
            whole == bitmap_rows(l, k as nat, cap as nat, bm@),
        decreases ls.len() - k,
    {
        assert(ls@[k as int]@ == l[k as int]);
        if chars_eq_str(&ls[k], "ENDCHAR") {
            return Some(Ok((bm, k + 1)));
        }
        match read_hex_row(&ls[k], cap, &mut bm) {
            None => {
                return None;
            },
            Some(Ok(())) => {},
            Some(Err(e)) => {
                return Some(Err(e));
            },
        }
        k = k + 1;
    }
    Some(Ok((bm, k)))
}

/// Reads the glyph whose `STARTCHAR` precedes line `i` (see
/// [`parse_glyph`]); `None` where reading its bitmap panics.
fn parse_glyph_at(ls: &Vec<Vec<char>>, i: usize) -> (r: Option<Result<(Option<Glyph>, usize), RenderError>>)
    requires
        i <= ls.len(),
    ensures
        match parse_glyph(views(ls@), i as nat) {
            Outcome::Panics => r is None,
            Outcome::Returns(Ok((None, k))) => r matches Some(Ok((None, k2))) && k2 == k,
            Outcome::Returns(Ok((Some(g), k))) => r matches Some(Ok((Some(g2), k2))) && g2@ == g && k2
                == k,
            Outcome::Returns(Err(m)) => r matches Some(Err(RenderError::Parse(s))) && s@ == m,
        },
{
    let ghost l = views(ls@);
    proof {
        lemma_glyph_header_index(l, i as nat, empty_header());
    }
    let (st, j) = match read_header(ls, i) {
        Ok(v) => v,
        Err(e) => {
            return Some(Err(e));
        },
    };
    match st.code {
        None => Some(Ok((None, skip_to_endchar(ls, j)))),
        Some(code) => {
            let bpr: usize = ((st.bbx_w as usize) + 7) / 8;
            assert(bpr * (st.bbx_h as usize) <= 8192 * 65535) by (nonlinear_arith)
                requires
                    bpr <= 8192,
                    st.bbx_h <= 65535,
            ;
            let cap: usize = bpr * (st.bbx_h as usize);
            assert(cap as nat == bytes_per_row(st.bbx_w) * (st.bbx_h as nat));
            let (bitmap, k) = match read_bitmap(ls, j, cap) {
                None => {
                    return None;
                },
                Some(Ok(v)) => v,
                Some(Err(e)) => {
                    return Some(Err(e));
                },
            };
            Some(Ok(
                (
                    Some(
                        Glyph {
                            code,
                            dwidth: st.dwidth,
                            bbx_w: st.bbx_w,
                            bbx_h: st.bbx_h,
                            bbx_x: st.bbx_x,
                            bbx_y: st.bbx_y,
                            bitmap,
                        },
                    ),
                    k,
                ),
            ))
        },
    }
}

// ---------------------------------------------------------------------------
// Font and glyph queries
// ---------------------------------------------------------------------------

/// The advance of character `c`: its glyph's `dwidth`, or `default` when the
/// font has no glyph for it.
pub open spec fn advance_of(f: FontSpec, default: u16, c: char) -> u16 {
    if f.glyphs.contains_key(c as u32) {
        f.glyphs[c as u32].dwidth
    } else {
        default
    }
}

/// The sum of the advances of the characters of `s`.
pub open spec fn text_width(f: FontSpec, default: u16, s: Seq<char>) -> nat
    decreases s.len(),
{
    if s.len() == 0 {
        0
    } else {
        text_width(f, default, s.drop_last()) + (advance_of(f, default, s.last()) as nat)
    }
}

pub proof fn lemma_text_width_prefix(f: FontSpec, default: u16, s: Seq<char>, i: int, j: int)
    requires
        0 <= i <= j <= s.len(),
    ensures
        text_width(f, default, s.take(i)) <= text_width(f, default, s.take(j)),
    decreases j - i,
{
    if i < j {
        assert(s.take(j).drop_last() =~= s.take(j - 1));
        lemma_text_width_prefix(f, default, s, i, j - 1);
    }
}

/// Whether bit `(col, row)` of a glyph's box is set: rows are
/// `ceil(bbx_w / 8)` bytes, most significant bit first; positions outside
/// the box, or past the end of the bitmap, are unset.
pub open spec fn glyph_pixel(g: GlyphSpec, col: u16, row: u16) -> bool {
    if col >= g.bbx_w || row >= g.bbx_h {
        false
    } else {
        let idx = (row as nat) * bytes_per_row(g.bbx_w) + (col as nat) / 8;
        let bit = 7 - (col as nat) % 8;
        idx < g.bitmap.len() && (g.bitmap[idx as int] >> (bit as u8)) & 1 == 1
    }
}

impl BdfFont {
    /// The advance for characters without a glyph.
    pub closed spec fn default_adv(&self) -> u16 {
        self.default_advance
    }

    /// Parses a BDF font from its text (see [`bdf_font`]).
    pub fn parse(text: &str) -> (r: Result<Self, RenderError>)
        requires
            bdf_font(text@).is_normal(),
        ensures
            match bdf_font(text@).value() {
                Ok(f) => r matches Ok(font) && font@ == f && font.default_adv()
                    == default_advance_for(f.fbb_w),
                Err(m) => r matches Err(RenderError::Parse(s)) && s@ == m,
            },
    {
        match Self::try_parse(text) {
            Some(r) => r,
            None => {
                assert(false);
                Err(RenderError::Parse(String::new()))
            },
        }
    }

    /// Parses a BDF font from its text (see [`bdf_font`]), or `None` where
    /// a bitmap row makes the parse panic.
    pub fn try_parse(text: &str) -> (r: Option<Result<Self, RenderError>>)
        ensures
            match bdf_font(text@) {
                Outcome::Panics => r is None,
                Outcome::Returns(Ok(f)) => r matches Some(Ok(font)) && font@ == f && font.default_adv()
                    == default_advance_for(f.fbb_w),
                Outcome::Returns(Err(m)) => r matches Some(Err(RenderError::Parse(s))) && s@ == m,
            },
    {
        let chars = chars_of(text);
        let ls = trimmed_lines(&chars);
        let ghost l = views(ls@);
        let mut fbb_w: u16 = 8;
        let mut fbb_h: u16 = 16;
        let mut fbb_y_off: i32 = 16;
        let mut glyphs: HashMap<u32, Glyph> = HashMap::new();
        let mut i: usize = 0;
        assert(glyphs@.map_values(|g: Glyph| g@) =~= Map::<u32, GlyphSpec>::empty());
        while i < ls.len()
            invariant
                i <= ls.len(),
                l == views(ls@),
                l == bdf_lines(text@),
                bdf_font(text@) == parse_font(
                    l,
                    i as nat,
                    FontSpec {
                        fbb_w,
                        fbb_h,
                        fbb_y_off,
                        glyphs: glyphs@.map_values(|g: Glyph| g@),
                    },
                ),
            decreases ls.len() - i,
        {
            let line = &ls[i];
            assert(line@ == l[i as int]);
            proof {
                reveal_strlit("FONTBOUNDINGBOX");
            }
            if starts_with_str(line, "FONTBOUNDINGBOX") {
                let rest = slice_to_vec(line, 15, line.len());
                assert(rest@ =~= line@.skip(15));
                let parts = words_vec(&rest, true);
                if parts.len() >= 4 {
                    let ghost ws = words(line@.skip(15), true);
                    assert(parts@[0]@ == ws[0] && parts@[1]@ == ws[1] && parts@[3]@ == ws[3]);
                    let w = match parse_field(&parts[0], false, 0, 0xFFFF) {
                        Ok(v) => v,
                        Err(e) => {
                            return Some(Err(e));
                        },
                    };
                    let h = match parse_field(&parts[1], false, 0, 0xFFFF) {
                        Ok(v) => v,
                        Err(e) => {
                            return Some(Err(e));
                        },
                    };
                    let y = match parse_field(&parts[3], true, -0x8000, 0x7FFF) {
                        Ok(v) => v,
                        Err(e) => {
                            return Some(Err(e));
                        },
                    };
                    fbb_w = w as u16;
                    fbb_h = h as u16;
                    fbb_y_off = (h + y) as i32;
                }
                i = i + 1;
            } else if starts_with_str(line, "STARTCHAR") {
                proof {
                    lemma_parse_glyph_index(l, (i + 1) as nat);
                }
                let (g, k) = match parse_glyph_at(&ls, i + 1) {
                    None => {
                        return None;
                    },
                    Some(Ok(v)) => v,
                    Some(Err(e)) => {
                        return Some(Err(e));
                    },
                };
                if let Some(g) = g {
                    let ghost before = glyphs@;
                    let ghost gv = g@;
                    glyphs.insert(g.code, g);
                    assert(glyphs@.map_values(|g: Glyph| g@) =~= before.map_values(
                        |g: Glyph| g@,
                    ).insert(gv.code, gv));
                }
                i = k;
            } else {
                i = i + 1;
            }
        }
        let default_advance = if fbb_w >= 1 {
            fbb_w
        } else {
            1
        };
        Some(Ok(BdfFont { fbb_w, fbb_h, fbb_y_off, glyphs, default_advance }))
    }

    /// The glyph for a code point, if the font has one.
    pub fn glyph(&self, code: u32) -> (r: Option<&Glyph>)
        ensures
            match r {
                Some(g) => self@.glyphs.contains_key(code) && g@ == self@.glyphs[code],
                None => !self@.glyphs.contains_key(code),
            },
    {
        self.glyphs.get(&code)
    }

    /// The advance width of a character (see [`advance_of`]).
    pub fn advance_for(&self, c: char) -> (r: u16)
        ensures
            r == advance_of(self@, self.default_adv(), c),
    {
        match self.glyph(c as u32) {
            Some(g) => g.dwidth,
            None => self.default_advance,
        }
    }

    /// Advance width of a whole string (see [`text_width`]); the sum must fit
    /// in 32 bits.
    pub fn measure(&self, text: &str) -> (r: u32)
        requires
            text_width(self@, self.default_adv(), text@) <= u32::MAX,
        ensures
            r == text_width(self@, self.default_adv(), text@),
    {
        let chars = chars_of(text);
        self.measure_chars(&chars)
    }

    /// Advance width of a character sequence (see [`text_width`]), or
    /// `None` where it does not fit in 32 bits.
    pub fn try_measure_chars(&self, chars: &[char]) -> (r: Option<u32>)
        ensures
            match r {
                Some(v) => v == text_width(self@, self.default_adv(), chars@),
                None => text_width(self@, self.default_adv(), chars@) > u32::MAX,
            },
    {
        let mut total: u32 = 0;
        let mut i: usize = 0;
        while i < chars.len()
            invariant
                i <= chars.len(),
                total == text_width(self@, self.default_adv(), chars@.take(i as int)),
            decreases chars.len() - i,
        {
            assert(chars@.take(i + 1).drop_last() =~= chars@.take(i as int));
            let a = self.advance_for(chars[i]);
            if (total as u64) + (a as u64) > 0xFFFF_FFFF {
                proof {
                    lemma_text_width_prefix(self@, self.default_adv(), chars@, i + 1, chars@.len() as int);
                    assert(chars@.take(chars@.len() as int) =~= chars@);
                }
                return None;
            }
            total = total + (a as u32);
            i = i + 1;
        }
        assert(chars@.take(i as int) =~= chars@);
        Some(total)
    }

    /// Advance width of a character sequence (see [`text_width`]).
    pub fn measure_chars(&self, chars: &[char]) -> (r: u32)
        requires
            text_width(self@, self.default_adv(), chars@) <= u32::MAX,
        ensures
            r == text_width(self@, self.default_adv(), chars@),
    {
        let mut total: u32 = 0;
        let mut i: usize = 0;
        while i < chars.len()
            invariant
                i <= chars.len(),
                text_width(self@, self.default_adv(), chars@) <= u32::MAX,
                total == text_width(self@, self.default_adv(), chars@.take(i as int)),
            decreases chars.len() - i,
        {
            proof {
                lemma_text_width_prefix(self@, self.default_adv(), chars@, i + 1, chars@.len() as int);
                assert(chars@.take(chars@.len() as int) =~= chars@);
                assert(chars@.take(i + 1).drop_last() =~= chars@.take(i as int));
            }
            let a = self.advance_for(chars[i]);
            total = total + (a as u32);
            i = i + 1;
        }
        assert(chars@.take(i as int) =~= chars@);
        total
    }
}

impl Glyph {
    /// Whether bit `(col, row)` of the glyph's box is set (see [`glyph_pixel`]).
    pub fn pixel(&self, col: u16, row: u16) -> (r: bool)
        ensures
            r == glyph_pixel(self@, col, row),
    {
        if col >= self.bbx_w || row >= self.bbx_h {
            return false;
        }
        let bytes_per_row: usize = ((self.bbx_w as usize) + 7) / 8;
        assert((row as nat) * (bytes_per_row as nat) <= 65535 * 8192) by (nonlinear_arith)
            requires
                row <= 65535,
                bytes_per_row <= 8192,
        ;
        let byte_idx: usize = (row as usize) * bytes_per_row + (col as usize) / 8;
        let bit: u8 = (7 - (col % 8)) as u8;
        if byte_idx < self.bitmap.len() {
            (self.bitmap[byte_idx] >> bit) & 1 == 1
        } else {
            false
        }
    }
}

} // verus!
