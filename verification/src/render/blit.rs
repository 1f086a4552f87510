//! Drawing BDF glyphs onto RGB888 canvases.

use vstd::prelude::*;

use crate::outcome::Outcome;
use crate::render::bdf::glyph_pixel;
use crate::render::bdf::lemma_font_view_fields;
use crate::render::bdf::BdfFont;
use crate::render::bdf::FontSpec;
use crate::render::bdf::Glyph;
use crate::render::bdf::GlyphSpec;

verus! {

/// RGB888 pixels (three bytes per pixel, rows top to bottom) and the
/// dimensions that glyph drawing uses to address them.
pub struct Canvas {
    pub pixels: Vec<u8>,
    pub width: u32,
    pub height: u32,
}

/// The pixel bytes with the three bytes at `idx` set to `color`, when they
/// lie inside the buffer.
pub open spec fn paint(px: Seq<u8>, idx: int, color: [u8; 3]) -> Seq<u8> {
    if 0 <= idx && idx + 3 <= px.len() {
        px.update(idx, color[0]).update(idx + 1, color[1]).update(idx + 2, color[2])
    } else {
        px
    }
}

/// Cell `(col, row)` of a glyph whose box has its top-left corner at
/// `(left, top)` lands inside a `w` by `h` canvas and is set.
pub open spec fn cell_drawn(w: u32, h: u32, g: GlyphSpec, left: int, top: int, col: int, row: int) -> bool {
    let x = left + col;
    let y = top + row;
    &&& 0 <= y < h
    &&& 0 <= col < g.bbx_w
    &&& 0 <= row < g.bbx_h
    &&& glyph_pixel(g, col as u16, row as u16)
    &&& 0 <= x < w
}

/// The effect of drawing cell `(col, row)`.
pub open spec fn blit_cell(px: Seq<u8>, w: u32, h: u32, g: GlyphSpec, left: int, top: int, col: int, row: int, color: [u8; 3]) -> Seq<u8> {
    if cell_drawn(w, h, g, left, top, col, row) {
        paint(px, ((top + row) * w + (left + col)) * 3, color)
    } else {
        px
    }
}

/// The effect of drawing the first `ncols` cells of row `row`.
pub open spec fn blit_row(px: Seq<u8>, w: u32, h: u32, g: GlyphSpec, left: int, top: int, row: int, ncols: int, color: [u8; 3]) -> Seq<u8>
    decreases ncols,
{
    if ncols <= 0 {
        px
    } else {
        blit_cell(
            blit_row(px, w, h, g, left, top, row, ncols - 1, color),
            w,
            h,
            g,
            left,
            top,
            ncols - 1,
            row,
            color,
        )
    }
}

/// The effect of drawing the first `nrows` rows of the glyph box, each row
/// left to right.
pub open spec fn blit_rows(px: Seq<u8>, w: u32, h: u32, g: GlyphSpec, left: int, top: int, nrows: int, color: [u8; 3]) -> Seq<u8>
    decreases nrows,
{
    if nrows <= 0 {
        px
    } else {
        blit_row(
            blit_rows(px, w, h, g, left, top, nrows - 1, color),
            w,
            h,
            g,
            left,
            top,
            nrows - 1,
            g.bbx_w as int,
            color,
        )
    }
}

/// A value of the type `i32`.
pub open spec fn fits_i32(v: int) -> bool {
    -0x8000_0000 <= v <= 0x7FFF_FFFF
}

/// The arithmetic of drawing a glyph stays in range: the baseline, the box
/// corner, and, for each set cell on a canvas row, its column and (when it
/// lands inside the canvas) its byte offset as a `u32`.
pub open spec fn glyph_blit_fits(w: u32, h: u32, g: GlyphSpec, pen_x: int, pen_y: int, ascent: int) -> bool {
    let baseline = pen_y + ascent;
    let top = baseline - g.bbx_y - g.bbx_h;
    let left = pen_x + g.bbx_x;
    &&& fits_i32(baseline)
    &&& fits_i32(baseline - g.bbx_y)
    &&& fits_i32(top)
    &&& fits_i32(left)
    &&& forall|col: u16, row: u16|
        col < g.bbx_w && row < g.bbx_h && 0 <= top + row < h && #[trigger] glyph_pixel(g, col, row)
            ==> fits_i32(left + col) && (0 <= left + col < w ==> ((top + row) * w + (left + col)) * 3
            <= u32::MAX)
}

/// Drawing a glyph with its pen at `(pen_x, pen_y)` and the baseline
/// `ascent` rows below the pen: the box's offsets place its bitmap, every set
/// cell that lands on the canvas is painted `color`; panics where the
/// arithmetic overflows.
pub open spec fn glyph_blit(px: Seq<u8>, w: u32, h: u32, g: GlyphSpec, pen_x: int, pen_y: int, color: [u8; 3], ascent: int) -> Outcome<Seq<u8>> {
    if glyph_blit_fits(w, h, g, pen_x, pen_y, ascent) {
        let top = pen_y + ascent - g.bbx_y - g.bbx_h;
        let left = pen_x + g.bbx_x;
        Outcome::Returns(blit_rows(px, w, h, g, left, top, g.bbx_h as int, color))
    } else {
        Outcome::Panics
    }
}

proof fn lemma_row_outside(px: Seq<u8>, w: u32, h: u32, g: GlyphSpec, left: int, top: int, row: int, ncols: int, color: [u8; 3])
    requires
        !(0 <= top + row < h),
    ensures
        blit_row(px, w, h, g, left, top, row, ncols, color) == px,
    decreases ncols,
{
    if ncols > 0 {
        lemma_row_outside(px, w, h, g, left, top, row, ncols - 1, color);
    }
}

/// The arithmetic of one cell stays in range (see [`glyph_blit_fits`]).
pub open spec fn cell_fits(w: u32, g: GlyphSpec, left: int, top: int, col: int, row: int) -> bool {
    &&& fits_i32(left + col)
    &&& (0 <= left + col < w ==> ((top + row) * w + (left + col)) * 3 <= u32::MAX)
}

/// Checks [`glyph_blit_fits`].
pub fn glyph_fits(w: u32, h: u32, glyph: &Glyph, pen_x: i32, pen_y: i32, ascent: i32) -> (r: bool)
    ensures
        r == glyph_blit_fits(w, h, glyph@, pen_x as int, pen_y as int, ascent as int),
{
    let ghost g = glyph@;
    let baseline: i64 = (pen_y as i64) + (ascent as i64);
    let mid: i64 = baseline - (glyph.bbx_y as i64);
    let top: i64 = mid - (glyph.bbx_h as i64);
    let left: i64 = (pen_x as i64) + (glyph.bbx_x as i64);
    let lo: i64 = -0x8000_0000;
    let hi: i64 = 0x7FFF_FFFF;
    if !(lo <= baseline && baseline <= hi && lo <= mid && mid <= hi && lo <= top && top <= hi && lo
        <= left && left <= hi) {
        return false;
    }
    let mut row: u16 = 0;
    while row < glyph.bbx_h
        invariant
            g == glyph@,
            row <= g.bbx_h,
            top == pen_y + ascent - g.bbx_y - g.bbx_h,
            left == pen_x + g.bbx_x,
            -0x8000_0000 <= top <= 0x7FFF_FFFF,
            -0x8000_0000 <= left <= 0x7FFF_FFFF,
            forall|col: u16, r2: u16|
                col < g.bbx_w && r2 < row && 0 <= top + r2 < h && #[trigger] glyph_pixel(g, col, r2)
                    ==> cell_fits(w, g, left as int, top as int, col as int, r2 as int),
        decreases glyph.bbx_h - row,
    {
        let y: i64 = top + (row as i64);
        if 0 <= y && y < (h as i64) {
            let mut col: u16 = 0;
            while col < glyph.bbx_w
                invariant
                    g == glyph@,
                    row < g.bbx_h,
                    y == top + row,
                    0 <= y < h,
                    top == pen_y + ascent - g.bbx_y - g.bbx_h,
                    left == pen_x + g.bbx_x,
                    -0x8000_0000 <= left <= 0x7FFF_FFFF,
                    col <= g.bbx_w,
                    forall|c: u16|
                        c < col && #[trigger] glyph_pixel(g, c, row) ==> cell_fits(
                            w,
                            g,
                            left as int,
                            top as int,
                            c as int,
                            row as int,
                        ),
                decreases glyph.bbx_w - col,
            {
                if glyph.pixel(col, row) {
                    let x: i64 = left + (col as i64);
                    if x > 0x7FFF_FFFF {
                        assert(!cell_fits(w, g, left as int, top as int, col as int, row as int));
                        return false;
                    }
                    if 0 <= x && x < (w as i64) {
                        assert((y as u128) * (w as u128) <= 0xFFFF_FFFF * 0xFFFF_FFFFu128) by (nonlinear_arith)
                            requires
                                0 <= y <= 0xFFFF_FFFF,
                                w <= 0xFFFF_FFFF,
                        ;
                        let off: u128 = ((y as u128) * (w as u128) + (x as u128)) * 3;
                        if off > 0xFFFF_FFFF {
                            assert(!cell_fits(w, g, left as int, top as int, col as int, row as int));
                            return false;
                        }
                    }
                }
                col = col + 1;
            }
        }
        row = row + 1;
    }
    true
}

/// Draws one glyph (see [`glyph_blit`]).
pub fn blit_glyph(canvas: &mut Canvas, glyph: &Glyph, pen_x: i32, pen_y: i32, color: [u8; 3], font_ascent: i32)
    requires
        glyph_blit(
            old(canvas).pixels@,
            old(canvas).width,
            old(canvas).height,
            glyph@,
            pen_x as int,
            pen_y as int,
            color,
            font_ascent as int,
        ).is_normal(),
    ensures
        final(canvas).width == old(canvas).width,
        final(canvas).height == old(canvas).height,
        final(canvas).pixels@ == glyph_blit(
            old(canvas).pixels@,
            old(canvas).width,
            old(canvas).height,
            glyph@,
            pen_x as int,
            pen_y as int,
            color,
            font_ascent as int,
        ).value(),
{
    let ghost px0 = canvas.pixels@;
    let ghost g = glyph@;
    let w = canvas.width;
    let h = canvas.height;
    let baseline_y = pen_y + font_ascent;
    let top_y = baseline_y - (glyph.bbx_y as i32) - (glyph.bbx_h as i32);
    let left_x = pen_x + (glyph.bbx_x as i32);
    let mut row: u16 = 0;
    while row < glyph.bbx_h
        invariant
            g == glyph@,
            canvas.width == w,
            canvas.height == h,
            row <= glyph.bbx_h,
            glyph_blit_fits(w, h, g, pen_x as int, pen_y as int, font_ascent as int),
            top_y == pen_y + font_ascent - g.bbx_y - g.bbx_h,
            left_x == pen_x + g.bbx_x,
            canvas.pixels@ == blit_rows(px0, w, h, g, left_x as int, top_y as int, row as int, color),
        decreases glyph.bbx_h - row,
    {
        let ghost before = canvas.pixels@;
        let y = top_y + (row as i32);
        if y < 0 || y as u32 >= h {
            proof {
                lemma_row_outside(before, w, h, g, left_x as int, top_y as int, row as int, g.bbx_w as int, color);
            }
        } else {
            let mut col: u16 = 0;
            while col < glyph.bbx_w
                invariant
                    g == glyph@,
                    canvas.width == w,
                    canvas.height == h,
                    col <= glyph.bbx_w,
                    row < glyph.bbx_h,
                    y == top_y + row,
                    0 <= y < h,
                    glyph_blit_fits(w, h, g, pen_x as int, pen_y as int, font_ascent as int),
                    top_y == pen_y + font_ascent - g.bbx_y - g.bbx_h,
                    left_x == pen_x + g.bbx_x,
                    canvas.pixels@ == blit_row(before, w, h, g, left_x as int, top_y as int, row as int, col as int, color),
                decreases glyph.bbx_w - col,
            {
                if glyph.pixel(col, row) {
                    assert(fits_i32(left_x + col));
                    let x = left_x + (col as i32);
                    if x >= 0 && (x as u32) < w {
                        assert((y * w + x) * 3 <= u32::MAX);
                        assert(0 <= y * w) by (nonlinear_arith)
                            requires
                                0 <= y,
                        ;
                        let idx = (((y as u32) * w + (x as u32)) * 3) as usize;
                        let len = canvas.pixels.len();
                        if len >= 3 && idx <= len - 3 {
                            canvas.pixels.set(idx, color[0]);
                            canvas.pixels.set(idx + 1, color[1]);
                            canvas.pixels.set(idx + 2, color[2]);
                        }
                    }
                }
                col = col + 1;
            }
        }
        row = row + 1;
    }
}

/// Drawing the characters of `s` from pen `(pen_x, pen_y)`: each character
/// with a glyph is drawn and advances the pen by its `dwidth`; one without
/// advances it by the font box width. Returns the pixels and the final pen
/// column; panics where a glyph's arithmetic or the pen overflows.
pub open spec fn text_blit(px: Seq<u8>, w: u32, h: u32, f: FontSpec, s: Seq<char>, pen_x: int, pen_y: int, color: [u8; 3], ascent: int) -> Outcome<(Seq<u8>, int)>
    decreases s.len(),
{
    if s.len() == 0 {
        Outcome::Returns((px, pen_x))
    } else if f.glyphs.contains_key(s[0] as u32) {
        let g = f.glyphs[s[0] as u32];
        match glyph_blit(px, w, h, g, pen_x, pen_y, color, ascent) {
            Outcome::Panics => Outcome::Panics,
            Outcome::Returns(px2) => if fits_i32(pen_x + g.dwidth) {
                text_blit(px2, w, h, f, s.drop_first(), pen_x + g.dwidth, pen_y, color, ascent)
            } else {
                Outcome::Panics
            },
        }
    } else if fits_i32(pen_x + f.fbb_w) {
        text_blit(px, w, h, f, s.drop_first(), pen_x + f.fbb_w, pen_y, color, ascent)
    } else {
        Outcome::Panics
    }
}

/// [`text_blit`] with the baseline the font's ascent below the pen.
pub open spec fn string_blit(px: Seq<u8>, w: u32, h: u32, f: FontSpec, s: Seq<char>, pen_x: int, pen_y: int, color: [u8; 3]) -> Outcome<(Seq<u8>, int)> {
    text_blit(px, w, h, f, s, pen_x, pen_y, color, f.fbb_y_off as int)
}

/// Draws a string and returns the final pen column (see [`string_blit`]).
pub fn blit_string(canvas: &mut Canvas, font: &BdfFont, text: &str, pen_x: i32, pen_y: i32, color: [u8; 3]) -> (r: i32)
    requires
        string_blit(
            old(canvas).pixels@,
            old(canvas).width,
            old(canvas).height,
            font@,
            text@,
            pen_x as int,
            pen_y as int,
            color,
        ).is_normal(),
    ensures
        final(canvas).width == old(canvas).width,
        final(canvas).height == old(canvas).height,
        (final(canvas).pixels@, r as int) == string_blit(
            old(canvas).pixels@,
            old(canvas).width,
            old(canvas).height,
            font@,
            text@,
            pen_x as int,
            pen_y as int,
            color,
        ).value(),
{
    let chars = crate::text::chars_of(text);
    blit_chars(canvas, font, &chars, pen_x, pen_y, color)
}

/// [`blit_string`] on a character sequence.
pub fn blit_chars(canvas: &mut Canvas, font: &BdfFont, text: &[char], pen_x: i32, pen_y: i32, color: [u8; 3]) -> (r: i32)
    requires
        string_blit(
            old(canvas).pixels@,
            old(canvas).width,
            old(canvas).height,
            font@,
            text@,
            pen_x as int,
            pen_y as int,
            color,
        ).is_normal(),
    ensures
        final(canvas).width == old(canvas).width,
        final(canvas).height == old(canvas).height,
        (final(canvas).pixels@, r as int) == string_blit(
            old(canvas).pixels@,
            old(canvas).width,
            old(canvas).height,
            font@,
            text@,
            pen_x as int,
            pen_y as int,
            color,
        ).value(),
{
    match try_blit_chars(canvas, font, text, pen_x, pen_y, color) {
        Some(pen) => pen,
        None => {
            assert(false);
            0
        },
    }
}

/// [`blit_chars`], or `None` where the arithmetic of a glyph or of the pen
/// overflows (the canvas is then partly drawn).
pub fn try_blit_chars(canvas: &mut Canvas, font: &BdfFont, text: &[char], pen_x: i32, pen_y: i32, color: [u8; 3]) -> (r: Option<i32>)
    ensures
        final(canvas).width == old(canvas).width,
        final(canvas).height == old(canvas).height,
        match string_blit(
            old(canvas).pixels@,
            old(canvas).width,
            old(canvas).height,
            font@,
            text@,
            pen_x as int,
            pen_y as int,
            color,
        ) {
            Outcome::Panics => r is None,
            Outcome::Returns((px, pen)) => r matches Some(p) && p == pen && final(canvas).pixels@ == px,
        },
{
    proof {
        lemma_font_view_fields(font);
    }
    let ghost whole = string_blit(canvas.pixels@, canvas.width, canvas.height, font@, text@, pen_x as int, pen_y as int, color);
    let font_ascent: i32 = font.fbb_y_off;
    let mut pen: i32 = pen_x;
    let mut i: usize = 0;
    assert(text@.skip(0) =~= text@);
    while i < text.len()
        invariant
            i <= text.len(),
            canvas.width == old(canvas).width,
            canvas.height == old(canvas).height,
            font_ascent == font@.fbb_y_off,
            font@.fbb_w == font.fbb_w,
            whole == string_blit(old(canvas).pixels@, old(canvas).width, old(canvas).height, font@, text@, pen_x as int, pen_y as int, color),
            whole == text_blit(canvas.pixels@, canvas.width, canvas.height, font@, text@.skip(i as int), pen as int, pen_y as int, color, font_ascent as int),
        decreases text.len() - i,
    {
        let c = text[i];
        let ghost rest = text@.skip(i as int);
        assert(rest[0] == c);
        assert(rest.drop_first() =~= text@.skip(i + 1));
        match font.glyph(c as u32) {
            Some(glyph) => {
                if !glyph_fits(canvas.width, canvas.height, glyph, pen, pen_y, font_ascent) {
                    return None;
                }
                blit_glyph(canvas, glyph, pen, pen_y, color, font_ascent);
                if (pen as i64) + (glyph.dwidth as i64) > 0x7FFF_FFFF {
                    return None;
                }
                pen = pen + (glyph.dwidth as i32);
            },
            None => {
                if (pen as i64) + (font.fbb_w as i64) > 0x7FFF_FFFF {
                    return None;
                }
                pen = pen + (font.fbb_w as i32);
            },
        }
        i = i + 1;
    }
    assert(text@.skip(i as int).len() == 0);
    Some(pen)
}

} // verus!
