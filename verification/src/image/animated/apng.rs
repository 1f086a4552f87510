//! The APNG compositor. The PNG decoder hands over each sub-frame with its
//! frame control (region, disposal and blending); the canvas is composited
//! here.
//!
//! Disposal, applied after a frame is shown:
//! - keep: the frame stays on the canvas for the next one;
//! - background: its region is cleared to transparent black;
//! - previous: the canvas returns to its state before the frame.
//!
//! Blending: source replaces the region's pixels; over alpha-blends the
//! sub-frame onto them.

use vstd::prelude::*;
use vstd::arithmetic::div_mod::lemma_fundamental_div_mod_converse;
use vstd::arithmetic::div_mod::lemma_fundamental_div_mod;

use crate::error::ImageError;
use crate::image::animated::blend_channel;
use crate::image::decode::MAX_DECODE_DIM;
use crate::num::decimal;
use crate::num::push_decimal;
use crate::text::chars_of;
use crate::text::extend_chars;
use crate::text::string_from_chars;

verus! {

/// The color types of PNG sub-frames.
#[derive(Debug, Clone, Copy, PartialEq, Eq, Structural)]
pub enum ColorKind {
    Grayscale,
    Rgb,
    Indexed,
    GrayscaleAlpha,
    Rgba,
}

/// What happens to a frame's region after it is shown.
#[derive(Debug, Clone, Copy, PartialEq, Eq, Structural)]
pub enum DisposeOp {
    Keep,
    Background,
    Previous,
}

/// How a sub-frame meets the canvas.
#[derive(Debug, Clone, Copy, PartialEq, Eq, Structural)]
pub enum BlendOp {
    Source,
    Over,
}

/// The frame control of one APNG frame.
#[derive(Debug, Clone, Copy, PartialEq, Eq, Structural)]
pub struct FrameControl {
    pub width: u32,
    pub height: u32,
    pub x_offset: u32,
    pub y_offset: u32,
    pub delay_num: u16,
    pub delay_den: u16,
    pub dispose_op: DisposeOp,
    pub blend_op: BlendOp,
}

// ---------------------------------------------------------------------------
// Expansion of sub-frames to RGBA8
// ---------------------------------------------------------------------------

/// `old` cut or zero-extended to `len` bytes.
pub open spec fn resized(old: Seq<u8>, len: nat) -> Seq<u8> {
    Seq::new(len, |j: int| if j < old.len() { old[j] } else { 0u8 })
}

pub open spec fn min_nat(a: int, b: int) -> int {
    if a < b {
        a
    } else {
        b
    }
}

/// The RGBA8 bytes of `n` pixels expanded from a sub-frame of the given
/// color type, over the previous contents `old` of the buffer: pixels the
/// sub-frame's bytes cover are expanded (gray to three equal channels, a
/// missing alpha to opaque); the rest keep what the buffer held.
pub open spec fn expanded(old: Seq<u8>, buf: Seq<u8>, color: ColorKind, n: nat) -> Seq<u8> {
    let r = resized(old, n * 4);
    match color {
        ColorKind::Rgba => buf.take((n * 4) as int),
        ColorKind::Rgb => Seq::new(
            n * 4,
            |j: int|
                if j / 4 < min_nat((buf.len() / 3) as int, n as int) {
                    if j % 4 < 3 {
                        buf[(j / 4) * 3 + j % 4]
                    } else {
                        255u8
                    }
                } else {
                    r[j]
                },
        ),
        ColorKind::GrayscaleAlpha => Seq::new(
            n * 4,
            |j: int|
                if j / 4 < min_nat((buf.len() / 2) as int, n as int) {
                    if j % 4 < 3 {
                        buf[(j / 4) * 2]
                    } else {
                        buf[(j / 4) * 2 + 1]
                    }
                } else {
                    r[j]
                },
        ),
        ColorKind::Grayscale => Seq::new(
            n * 4,
            |j: int|
                if j / 4 < min_nat(buf.len() as int, n as int) {
                    if j % 4 < 3 {
                        buf[j / 4]
                    } else {
                        255u8
                    }
                } else {
                    r[j]
                },
        ),
        ColorKind::Indexed => r,
    }
}

/// The message of an indexed sub-frame, which the PNG decoder is asked to
/// expand itself.
pub open spec fn indexed_message() -> Seq<char> {
    "apng: indexed color not supported (png crate should expand)"@
}

/// Expands a sub-frame of `n_pixels` pixels to RGBA8 in `out` (see
/// [`expanded`]); an indexed sub-frame is an error, with `out` resized.
pub fn expand_to_rgba8(buf: &[u8], color: ColorKind, n_pixels: usize, out: &mut Vec<u8>) -> (r: Result<
    (),
    ImageError,
>)
    requires
        n_pixels * 4 <= usize::MAX,
        color == ColorKind::Rgba ==> buf@.len() >= n_pixels * 4,
    ensures
        final(out)@ == expanded(old(out)@, buf@, color, n_pixels as nat),
        match r {
            Ok(()) => color != ColorKind::Indexed,
            Err(e) => color == ColorKind::Indexed && (e matches ImageError::Decode(m) && m@ == indexed_message()),
        },
{
    let ghost o0 = out@;
    let len: usize = n_pixels * 4;
    out.resize(len, 0u8);
    proof {
        assert forall|j: int| 0 <= j < len implies #[trigger] out@[j] == resized(o0, len as nat)[j] by {
            if j < o0.len() {
                if len <= o0.len() {
                    assert(out@ == o0.subrange(0, len as int));
                } else {
                    assert(out@.subrange(0, o0.len() as int)[j] == out@[j]);
                }
            }
        }
        assert(out@ =~= resized(o0, len as nat));
    }
    let ghost r0 = out@;
    match color {
        ColorKind::Rgba => {
            let mut j: usize = 0;
            while j < len
                invariant
                    len == n_pixels * 4,
                    buf@.len() >= len,
                    out@.len() == len,
                    forall|k: int| 0 <= k < j ==> #[trigger] out@[k] == buf@[k],
                    j <= len,
                decreases len - j,
            {
                out.set(j, buf[j]);
                j = j + 1;
            }
            assert(out@ =~= buf@.take(len as int));
            Ok(())
        },
        ColorKind::Rgb => {
            let k: usize = if buf.len() / 3 < n_pixels {
                buf.len() / 3
            } else {
                n_pixels
            };
            let mut i: usize = 0;
            while i < k
                invariant
                    k <= n_pixels,
                    k <= buf@.len() / 3,
                    len == n_pixels * 4,
                    out@.len() == len,
                    r0.len() == len,
                    i <= k,
                    forall|j: int|
                        0 <= j < len ==> #[trigger] out@[j] == (if j / 4 < i {
                            if j % 4 < 3 {
                                buf@[(j / 4) * 3 + j % 4]
                            } else {
                                255u8
                            }
                        } else {
                            r0[j]
                        }),
                decreases k - i,
            {
                out.set(4 * i, buf[3 * i]);
                out.set(4 * i + 1, buf[3 * i + 1]);
                out.set(4 * i + 2, buf[3 * i + 2]);
                out.set(4 * i + 3, 255u8);
                i = i + 1;
            }
            assert(out@ =~= expanded(o0, buf@, color, n_pixels as nat));
            Ok(())
        },
        ColorKind::GrayscaleAlpha => {
            let k: usize = if buf.len() / 2 < n_pixels {
                buf.len() / 2
            } else {
                n_pixels
            };
            let mut i: usize = 0;
            while i < k
                invariant
                    k <= n_pixels,
                    k <= buf@.len() / 2,
                    len == n_pixels * 4,
                    out@.len() == len,
                    r0.len() == len,
                    i <= k,
                    forall|j: int|
                        0 <= j < len ==> #[trigger] out@[j] == (if j / 4 < i {
                            if j % 4 < 3 {
                                buf@[(j / 4) * 2]
                            } else {
                                buf@[(j / 4) * 2 + 1]
                            }
                        } else {
                            r0[j]
                        }),
                decreases k - i,
            {
                let g = buf[2 * i];
                let a = buf[2 * i + 1];
                out.set(4 * i, g);
                out.set(4 * i + 1, g);
                out.set(4 * i + 2, g);
                out.set(4 * i + 3, a);
                i = i + 1;
            }
            assert(out@ =~= expanded(o0, buf@, color, n_pixels as nat));
            Ok(())
        },
        ColorKind::Grayscale => {
            let k: usize = if buf.len() < n_pixels {
                buf.len()
            } else {
                n_pixels
            };
            let mut i: usize = 0;
            while i < k
                invariant
                    k <= n_pixels,
                    k <= buf@.len(),
                    len == n_pixels * 4,
                    out@.len() == len,
                    r0.len() == len,
                    i <= k,
                    forall|j: int|
                        0 <= j < len ==> #[trigger] out@[j] == (if j / 4 < i {
                            if j % 4 < 3 {
                                buf@[j / 4]
                            } else {
                                255u8
                            }
                        } else {
                            r0[j]
                        }),
                decreases k - i,
            {
                let g = buf[i];
                out.set(4 * i, g);
                out.set(4 * i + 1, g);
                out.set(4 * i + 2, g);
                out.set(4 * i + 3, 255u8);
                i = i + 1;
            }
            assert(out@ =~= expanded(o0, buf@, color, n_pixels as nat));
            Ok(())
        },
        ColorKind::Indexed => {
            let m = string_from_chars(&chars_of("apng: indexed color not supported (png crate should expand)"));
            Err(ImageError::Decode(m))
        },
    }
}

// ---------------------------------------------------------------------------
// The canvas
// ---------------------------------------------------------------------------

/// Column of the pixel that byte `q` of an RGBA canvas `cw` pixels wide
/// belongs to.
pub open spec fn pix_x(q: int, cw: int) -> int {
    (q / 4) % cw
}

/// Row of the pixel that byte `q` belongs to.
pub open spec fn pix_y(q: int, cw: int) -> int {
    (q / 4) / cw
}

/// `len` from `off`, clipped to `limit`: `min(len, limit - off)`, or zero
/// from `limit` on.
pub open spec fn clip(len: int, off: int, limit: int) -> int {
    if off >= limit {
        0
    } else if len < limit - off {
        len
    } else {
        limit - off
    }
}

/// Whether byte `q` of a `cw` by `ch` canvas lies in the frame's region,
/// clipped to the canvas.
pub open spec fn in_rect(q: int, cw: int, ch: int, fc: FrameControl) -> bool {
    let x = fc.x_offset as int;
    let y = fc.y_offset as int;
    &&& x <= pix_x(q, cw) < x + clip(fc.width as int, x, cw)
    &&& y <= pix_y(q, cw) < y + clip(fc.height as int, y, ch)
}

/// The first byte, in the sub-frame, of the pixel over canvas byte `q`.
pub open spec fn sub_pixel(q: int, cw: int, fc: FrameControl) -> int {
    ((pix_y(q, cw) - fc.y_offset) * fc.width + (pix_x(q, cw) - fc.x_offset)) * 4
}

/// A canvas byte `d` under a sub-frame byte `s` whose pixel has alpha `sa`,
/// blended over: an opaque pixel replaces, a transparent one leaves, any
/// other blends by its alpha (the alpha channel too).
pub open spec fn over_value(d: u8, s: u8, sa: u8, alpha: bool) -> u8 {
    if sa == 255 {
        s
    } else if sa == 0 {
        d
    } else if alpha {
        ((sa * 255 + d * (255 - sa)) / 255) as u8
    } else {
        blend_channel(s, d, sa)
    }
}

/// Canvas byte `q` inside the region after the sub-frame is drawn.
pub open spec fn composited_byte(canvas: Seq<u8>, cw: int, fc: FrameControl, sub: Seq<u8>, q: int) -> u8 {
    let s = sub_pixel(q, cw, fc);
    let c = q % 4;
    match fc.blend_op {
        BlendOp::Source => sub[s + c],
        BlendOp::Over => over_value(canvas[q], sub[s + c], sub[s + 3], c == 3),
    }
}

/// The canvas after the sub-frame is drawn in its region.
pub open spec fn composited(canvas: Seq<u8>, cw: int, ch: int, fc: FrameControl, sub: Seq<u8>) -> Seq<u8> {
    Seq::new(
        canvas.len(),
        |q: int|
            if in_rect(q, cw, ch, fc) {
                composited_byte(canvas, cw, fc, sub, q)
            } else {
                canvas[q]
            },
    )
}

/// The canvas after a frame's disposal: unchanged, its region cleared, or
/// the canvas saved before it.
pub open spec fn disposed(canvas: Seq<u8>, previous: Seq<u8>, cw: int, ch: int, fc: FrameControl) -> Seq<u8> {
    match fc.dispose_op {
        DisposeOp::Keep => canvas,
        DisposeOp::Background => Seq::new(
            canvas.len(),
            |q: int|
                if in_rect(q, cw, ch, fc) {
                    0u8
                } else {
                    canvas[q]
                },
        ),
        DisposeOp::Previous => previous,
    }
}

/// Byte `c` of pixel (`px`, `py`) is byte `(py * cw + px) * 4 + c`.
pub proof fn lemma_pixel_coords(q: int, cw: int, px: int, py: int, c: int)
    requires
        0 <= px < cw,
        0 <= py,
        0 <= c < 4,
        q == (py * cw + px) * 4 + c,
    ensures
        pix_x(q, cw) == px,
        pix_y(q, cw) == py,
        q % 4 == c,
{
    lemma_fundamental_div_mod_converse(q, 4, py * cw + px, c);
    lemma_fundamental_div_mod_converse(py * cw + px, cw, py, px);
}

/// Every byte of a canvas belongs to a pixel.
pub proof fn lemma_pixel_of(q: int, cw: int)
    requires
        0 <= q,
        0 < cw,
    ensures
        0 <= pix_x(q, cw) < cw,
        0 <= pix_y(q, cw),
        0 <= q % 4 < 4,
        q == (pix_y(q, cw) * cw + pix_x(q, cw)) * 4 + q % 4,
{
    lemma_fundamental_div_mod(q, 4);
    lemma_fundamental_div_mod(q / 4, cw);
    assert((q / 4) / cw >= 0) by (nonlinear_arith)
        requires
            q >= 0,
            cw > 0,
    ;
    let a = q / 4;
    let b = a / cw;
    assert(cw * b == b * cw) by (nonlinear_arith);
}

/// Draws the sub-frame pixel at `so` onto the canvas pixel at `co`.
fn draw_pixel(canvas: &mut Vec<u8>, co: usize, sub: &[u8], so: usize, blend: BlendOp)
    requires
        co + 4 <= old(canvas)@.len(),
        so + 4 <= sub@.len(),
        old(canvas)@.len() <= u32::MAX,
        sub@.len() <= u32::MAX,
    ensures
        final(canvas)@.len() == old(canvas)@.len(),
        forall|k: int| 0 <= k < old(canvas)@.len() && !(co <= k < co + 4) ==> #[trigger] final(canvas)@[k] == old(canvas)@[k],
        forall|c: int|
            0 <= c < 4 ==> #[trigger] final(canvas)@[co + c] == (match blend {
                BlendOp::Source => sub@[so + c],
                BlendOp::Over => over_value(old(canvas)@[co + c], sub@[so + c], sub@[so + 3], c == 3),
            }),
{
    let sa = sub[so + 3];
    match blend {
        BlendOp::Source => {
            canvas.set(co, sub[so]);
            canvas.set(co + 1, sub[so + 1]);
            canvas.set(co + 2, sub[so + 2]);
            canvas.set(co + 3, sa);
        },
        BlendOp::Over => {
            if sa == 255 {
                canvas.set(co, sub[so]);
                canvas.set(co + 1, sub[so + 1]);
                canvas.set(co + 2, sub[so + 2]);
                canvas.set(co + 3, sa);
            } else if sa != 0 {
                let sa_u = sa as u16;
                let inv: u16 = 255 - sa_u;
                let s0 = sub[so] as u16;
                let s1 = sub[so + 1] as u16;
                let s2 = sub[so + 2] as u16;
                let d0 = canvas[co] as u16;
                let d1 = canvas[co + 1] as u16;
                let d2 = canvas[co + 2] as u16;
                let d3 = canvas[co + 3] as u16;
                assert(s0 * sa_u + d0 * inv <= 65025 && s1 * sa_u + d1 * inv <= 65025 && s2 * sa_u + d2 * inv
                    <= 65025 && sa_u * 255 + d3 * inv <= 65025) by (nonlinear_arith)
                    requires
                        sa_u + inv == 255,
                        s0 <= 255,
                        s1 <= 255,
                        s2 <= 255,
                        d0 <= 255,
                        d1 <= 255,
                        d2 <= 255,
                        d3 <= 255,
                ;
                canvas.set(co, ((s0 * sa_u + d0 * inv) / 255) as u8);
                canvas.set(co + 1, ((s1 * sa_u + d1 * inv) / 255) as u8);
                canvas.set(co + 2, ((s2 * sa_u + d2 * inv) / 255) as u8);
                canvas.set(co + 3, ((sa_u * 255 + d3 * inv) / 255) as u8);
            }
        },
    }
}

/// The region's extent: `min(len, limit - off)`, or zero from `limit` on.
fn clip_u32(len: u32, off: u32, limit: u32) -> (r: u32)
    ensures
        r == clip(len as int, off as int, limit as int),
{
    if off >= limit {
        0
    } else if len < limit - off {
        len
    } else {
        limit - off
    }
}

/// Draws a sub-frame of `fc.width` by `fc.height` RGBA pixels onto the
/// canvas in its region, clipped to the canvas (see [`composited`]).
fn composite_frame(canvas: &mut Vec<u8>, cw: u32, ch: u32, fc: FrameControl, sub: &[u8])
    requires
        old(canvas)@.len() == cw * ch * 4,
        cw * ch * 4 <= u32::MAX,
        sub@.len() == fc.width * fc.height * 4,
        fc.width * fc.height * 4 <= u32::MAX,
    ensures
        final(canvas)@ == composited(old(canvas)@, cw as int, ch as int, fc, sub@),
{
    let ghost c0 = canvas@;
    let x = fc.x_offset;
    let y = fc.y_offset;
    let w = fc.width;
    let copy_h = clip_u32(fc.height, y, ch);
    let copy_w = clip_u32(w, x, cw);
    if copy_h == 0 || copy_w == 0 {
        assert(canvas@ =~= composited(c0, cw as int, ch as int, fc, sub@));
        return;
    }
    proof {
        assert((y + copy_h) * (cw as int) * 4 <= cw * ch * 4) by (nonlinear_arith)
            requires
                y + copy_h <= ch,
                cw >= 0,
        ;
        assert(copy_h * (w as int) * 4 <= w * fc.height * 4) by (nonlinear_arith)
            requires
                copy_h <= fc.height,
                w >= 0,
        ;
    }
    let mut row: u32 = 0;
    while row < copy_h
        invariant
            c0.len() == cw * ch * 4,
            cw * ch * 4 <= u32::MAX,
            sub@.len() == fc.width * fc.height * 4,
            fc.width * fc.height * 4 <= u32::MAX,
            x == fc.x_offset,
            y == fc.y_offset,
            w == fc.width,
            copy_h == clip(fc.height as int, y as int, ch as int),
            copy_w == clip(w as int, x as int, cw as int),
            copy_h > 0,
            copy_w > 0,
            (y + copy_h) * (cw as int) * 4 <= cw * ch * 4,
            copy_h * (w as int) * 4 <= w * fc.height * 4,
            row <= copy_h,
            canvas@.len() == c0.len(),
            forall|q: int|
                0 <= q < c0.len() ==> #[trigger] canvas@[q] == (if in_rect(q, cw as int, ch as int, fc) && pix_y(
                    q,
                    cw as int,
                ) - y < row {
                    composited_byte(c0, cw as int, fc, sub@, q)
                } else {
                    c0[q]
                }),
        decreases copy_h - row,
    {
        proof {
            assert((row + 1) * (w as int) * 4 <= copy_h * (w as int) * 4) by (nonlinear_arith)
                requires
                    row < copy_h,
                    w >= 0,
            ;
            assert((y + row + 1) * (cw as int) * 4 <= (y + copy_h) * (cw as int) * 4) by (nonlinear_arith)
                requires
                    row < copy_h,
                    cw >= 0,
            ;
            assert((row + 1) * (w as int) * 4 == row * (w as int) * 4 + w * 4) by (nonlinear_arith);
            assert((y + row + 1) * (cw as int) * 4 == (y + row) * (cw as int) * 4 + cw * 4) by (nonlinear_arith);
        }
        let sub_off: usize = (row as usize) * (w as usize) * 4;
        let a: usize = ((y + row) as usize) * (cw as usize);
        let canvas_off: usize = (a + x as usize) * 4;
        let mut i: usize = 0;
        while i < copy_w as usize
            invariant
                c0.len() == cw * ch * 4,
                cw * ch * 4 <= u32::MAX,
                sub@.len() == fc.width * fc.height * 4,
                fc.width * fc.height * 4 <= u32::MAX,
                copy_w <= w,
                x + copy_w <= cw,
                x == fc.x_offset,
                y == fc.y_offset,
                w == fc.width,
                copy_h == clip(fc.height as int, y as int, ch as int),
                copy_w == clip(w as int, x as int, cw as int),
                copy_w > 0,
                row < copy_h,
                a == (y + row) * (cw as int),
                sub_off == row * (w as int) * 4,
                canvas_off == (a + x) * 4,
                (row + 1) * (w as int) * 4 <= w * fc.height * 4,
                (row + 1) * (w as int) * 4 == row * (w as int) * 4 + w * 4,
                (y + row + 1) * (cw as int) * 4 == (y + row) * (cw as int) * 4 + cw * 4,
                (y + row + 1) * (cw as int) * 4 <= cw * ch * 4,
                i <= copy_w,
                canvas@.len() == c0.len(),
                forall|q: int|
                    0 <= q < c0.len() ==> #[trigger] canvas@[q] == (if in_rect(q, cw as int, ch as int, fc) && (
                    pix_y(q, cw as int) - y < row || (pix_y(q, cw as int) - y == row && pix_x(q, cw as int) - x
                        < i)) {
                        composited_byte(c0, cw as int, fc, sub@, q)
                    } else {
                        c0[q]
                    }),
            decreases copy_w - i,
        {
            let so: usize = sub_off + 4 * i;
            let co: usize = canvas_off + 4 * i;
            let ghost before = canvas@;
            proof {
                assert(x + i < cw);
                assert(co + 4 <= c0.len());
                assert(so + 4 <= sub@.len());
                assert forall|c: int| 0 <= c < 4 implies #[trigger] before[co + c] == c0[co + c] by {
                    lemma_pixel_coords(co + c, cw as int, x + i, y + row, c);
                }
            }
            draw_pixel(canvas, co, sub, so, fc.blend_op);
            proof {
                assert forall|q: int| 0 <= q < c0.len() implies #[trigger] canvas@[q] == (if in_rect(
                    q,
                    cw as int,
                    ch as int,
                    fc,
                ) && (pix_y(q, cw as int) - y < row || (pix_y(q, cw as int) - y == row && pix_x(q, cw as int)
                    - x < i + 1)) {
                    composited_byte(c0, cw as int, fc, sub@, q)
                } else {
                    c0[q]
                }) by {
                    lemma_pixel_of(q, cw as int);
                    if co <= q < co + 4 {
                        let c = q - co;
                        lemma_pixel_coords(q, cw as int, x + i, y + row, c);
                        assert(canvas@[co + c] == canvas@[q]);
                        assert(sub_pixel(q, cw as int, fc) == so);
                    } else {
                        if pix_y(q, cw as int) == y + row && pix_x(q, cw as int) == x + i {
                            assert(q == co + q % 4);
                        }
                    }
                }
            }
            i = i + 1;
        }
        proof {
            assert forall|q: int| 0 <= q < c0.len() && in_rect(q, cw as int, ch as int, fc) && pix_y(q, cw as int)
                - y == row implies pix_x(q, cw as int) - x < i by {}
        }
        row = row + 1;
    }
    assert(canvas@ =~= composited(c0, cw as int, ch as int, fc, sub@));
}

/// Clears the frame's region, clipped to the canvas, to transparent black.
fn clear_region(canvas: &mut Vec<u8>, cw: u32, ch: u32, fc: FrameControl)
    requires
        old(canvas)@.len() == cw * ch * 4,
        cw * ch * 4 <= u32::MAX,
    ensures
        final(canvas)@ == disposed(old(canvas)@, old(canvas)@, cw as int, ch as int, FrameControl {
            dispose_op: DisposeOp::Background,
            ..fc
        }),
{
    let ghost c0 = canvas@;
    let ghost fb = FrameControl { dispose_op: DisposeOp::Background, ..fc };
    let x = fc.x_offset;
    let y = fc.y_offset;
    let copy_h = clip_u32(fc.height, y, ch);
    let copy_w = clip_u32(fc.width, x, cw);
    if copy_h == 0 || copy_w == 0 {
        assert(canvas@ =~= disposed(c0, c0, cw as int, ch as int, fb));
        return;
    }
    proof {
        assert((y + copy_h) * (cw as int) * 4 <= cw * ch * 4) by (nonlinear_arith)
            requires
                y + copy_h <= ch,
                cw >= 0,
        ;
    }
    let mut row: u32 = 0;
    while row < copy_h
        invariant
            c0.len() == cw * ch * 4,
            cw * ch * 4 <= u32::MAX,
            x == fc.x_offset,
            y == fc.y_offset,
            copy_h == clip(fc.height as int, y as int, ch as int),
            copy_w == clip(fc.width as int, x as int, cw as int),
            copy_h > 0,
            copy_w > 0,
            (y + copy_h) * (cw as int) * 4 <= cw * ch * 4,
            row <= copy_h,
            canvas@.len() == c0.len(),
            forall|q: int|
                0 <= q < c0.len() ==> #[trigger] canvas@[q] == (if in_rect(q, cw as int, ch as int, fc) && pix_y(
                    q,
                    cw as int,
                ) - y < row {
                    0u8
                } else {
                    c0[q]
                }),
        decreases copy_h - row,
    {
        proof {
            assert((y + row + 1) * (cw as int) * 4 <= (y + copy_h) * (cw as int) * 4) by (nonlinear_arith)
                requires
                    row < copy_h,
                    cw >= 0,
            ;
            assert((y + row + 1) * (cw as int) * 4 == (y + row) * (cw as int) * 4 + cw * 4) by (nonlinear_arith);
        }
        let a: usize = ((y + row) as usize) * (cw as usize);
        let start: usize = (a + x as usize) * 4;
        let mut i: usize = 0;
        while i < copy_w as usize
            invariant
                c0.len() == cw * ch * 4,
                cw * ch * 4 <= u32::MAX,
                copy_w <= fc.width,
                x + copy_w <= cw,
                x == fc.x_offset,
                y == fc.y_offset,
                copy_h == clip(fc.height as int, y as int, ch as int),
                copy_w == clip(fc.width as int, x as int, cw as int),
                copy_w > 0,
                row < copy_h,
                a == (y + row) * (cw as int),
                start == (a + x) * 4,
                (y + row + 1) * (cw as int) * 4 == (y + row) * (cw as int) * 4 + cw * 4,
                (y + row + 1) * (cw as int) * 4 <= cw * ch * 4,
                i <= copy_w,
                canvas@.len() == c0.len(),
                forall|q: int|
                    0 <= q < c0.len() ==> #[trigger] canvas@[q] == (if in_rect(q, cw as int, ch as int, fc) && (
                    pix_y(q, cw as int) - y < row || (pix_y(q, cw as int) - y == row && pix_x(q, cw as int) - x
                        < i)) {
                        0u8
                    } else {
                        c0[q]
                    }),
            decreases copy_w - i,
        {
            let co: usize = start + 4 * i;
            proof {
                assert(x + i < cw);
                assert(co + 4 <= c0.len());
            }
            canvas.set(co, 0u8);
            canvas.set(co + 1, 0u8);
            canvas.set(co + 2, 0u8);
            canvas.set(co + 3, 0u8);
            proof {
                assert forall|q: int| 0 <= q < c0.len() implies #[trigger] canvas@[q] == (if in_rect(
                    q,
                    cw as int,
                    ch as int,
                    fc,
                ) && (pix_y(q, cw as int) - y < row || (pix_y(q, cw as int) - y == row && pix_x(q, cw as int)
                    - x < i + 1)) {
                    0u8
                } else {
                    c0[q]
                }) by {
                    lemma_pixel_of(q, cw as int);
                    if co <= q < co + 4 {
                        let c = q - co;
                        lemma_pixel_coords(q, cw as int, x + i, y + row, c);
                    } else {
                        if pix_y(q, cw as int) == y + row && pix_x(q, cw as int) == x + i {
                            assert(q == co + q % 4);
                        }
                    }
                }
            }
            i = i + 1;
        }
        row = row + 1;
    }
    assert(canvas@ =~= disposed(c0, c0, cw as int, ch as int, fb));
}

/// Applies a frame's disposal to the canvas (see [`disposed`]).
fn apply_dispose(canvas: &mut Vec<u8>, previous: &Vec<u8>, cw: u32, ch: u32, fc: FrameControl)
    requires
        old(canvas)@.len() == cw * ch * 4,
        previous@.len() == cw * ch * 4,
        cw * ch * 4 <= u32::MAX,
    ensures
        final(canvas)@ == disposed(old(canvas)@, previous@, cw as int, ch as int, fc),
{
    match fc.dispose_op {
        DisposeOp::Keep => {},
        DisposeOp::Background => {
            clear_region(canvas, cw, ch, fc);
        },
        DisposeOp::Previous => {
            let n = canvas.len();
            let mut j: usize = 0;
            while j < n
                invariant
                    n == canvas@.len(),
                    n == previous@.len(),
                    j <= n,
                    forall|k: int| 0 <= k < j ==> #[trigger] canvas@[k] == previous@[k],
                decreases n - j,
            {
                canvas.set(j, previous[j]);
                j = j + 1;
            }
            assert(canvas@ =~= previous@);
        },
    }
}

// ---------------------------------------------------------------------------
// The decoder's canvas
// ---------------------------------------------------------------------------

/// The bit depths of PNG samples.
#[derive(Debug, Clone, Copy, PartialEq, Eq, Structural)]
pub enum BitDepth {
    One,
    Two,
    Four,
    Eight,
    Sixteen,
}

/// The name of a bit depth, as the decoder's debug output writes it.
pub open spec fn bit_depth_name(d: BitDepth) -> Seq<char> {
    match d {
        BitDepth::One => "One"@,
        BitDepth::Two => "Two"@,
        BitDepth::Four => "Four"@,
        BitDepth::Eight => "Eight"@,
        BitDepth::Sixteen => "Sixteen"@,
    }
}

fn bit_depth_str(d: BitDepth) -> (r: &'static str)
    ensures
        r@ == bit_depth_name(d),
{
    proof {
        reveal_strlit("One");
        reveal_strlit("Two");
        reveal_strlit("Four");
        reveal_strlit("Eight");
        reveal_strlit("Sixteen");
    }
    match d {
        BitDepth::One => "One",
        BitDepth::Two => "Two",
        BitDepth::Four => "Four",
        BitDepth::Eight => "Eight",
        BitDepth::Sixteen => "Sixteen",
    }
}

/// The largest canvas, in pixels (128 Mi, 512 MiB of RGBA).
pub const MAX_CANVAS_PIXELS: u64 = 134_217_728;

/// Why a canvas of `width` by `height` is refused by the decoder named
/// `kind`, if it is: a dimension above the decoding cap, or too many pixels.
pub open spec fn canvas_refusal(kind: Seq<char>, width: u32, height: u32) -> Option<Seq<char>> {
    if width > MAX_DECODE_DIM || height > MAX_DECODE_DIM {
        Some(kind + ": dimensions "@ + decimal(width as nat) + "x"@ + decimal(height as nat) + " exceed cap"@)
    } else if width * height > MAX_CANVAS_PIXELS {
        Some(kind + ": canvas too large"@)
    } else {
        None
    }
}

/// Checks the size of a canvas for the decoder named `kind` (see
/// [`canvas_refusal`]).
pub fn check_canvas(kind: &str, width: u32, height: u32) -> (r: Result<(), ImageError>)
    ensures
        match canvas_refusal(kind@, width, height) {
            Some(m) => r matches Err(ImageError::Decode(s)) && s@ == m,
            None => r is Ok,
        },
{
    if width > MAX_DECODE_DIM || height > MAX_DECODE_DIM {
        let mut v = chars_of(kind);
        let mid = chars_of(": dimensions ");
        extend_chars(&mut v, &mid);
        push_decimal(&mut v, width as u64);
        v.push('x');
        push_decimal(&mut v, height as u64);
        let tail = chars_of(" exceed cap");
        extend_chars(&mut v, &tail);
        proof {
            reveal_strlit("x");
            assert(v@ =~= kind@ + ": dimensions "@ + decimal(width as nat) + "x"@ + decimal(height as nat)
                + " exceed cap"@);
        }
        return Err(ImageError::Decode(string_from_chars(&v)));
    }
    assert((width as int) * (height as int) <= 8192 * 8192) by (nonlinear_arith)
        requires
            width <= 8192,
            height <= 8192,
    ;
    let pixels: u64 = (width as u64) * (height as u64);
    if pixels > MAX_CANVAS_PIXELS {
        let mut v = chars_of(kind);
        let tail = chars_of(": canvas too large");
        extend_chars(&mut v, &tail);
        return Err(ImageError::Decode(string_from_chars(&v)));
    }
    Ok(())
}

/// The compositing state of an APNG decoder: the canvas, the canvas saved
/// for a frame that restores it, the frames decoded so far out of the
/// number announced, and the scratch buffer of expanded sub-frames.
pub struct ApngCanvas {
    pub canvas: Vec<u8>,
    pub previous_canvas: Vec<u8>,
    pub width: u32,
    pub height: u32,
    pub frames_read: u32,
    pub frame_count: Option<u32>,
    pub rgba_sub: Vec<u8>,
}

/// The canvas and the previous data after showing a frame, and the frame
/// shown: the saved canvas is taken before drawing when the frame's
/// disposal restores it.
pub open spec fn frame_step(
    canvas: Seq<u8>,
    previous: Seq<u8>,
    cw: int,
    ch: int,
    fc: FrameControl,
    sub: Seq<u8>,
) -> (Seq<u8>, Seq<u8>, Seq<u8>) {
    let prev = if fc.dispose_op == DisposeOp::Previous {
        canvas
    } else {
        previous
    };
    let shown = composited(canvas, cw, ch, fc, sub);
    (shown, disposed(shown, prev, cw, ch, fc), prev)
}

/// Showing a frame takes canvas `c0` to `c1` with result `r` (see
/// [`ApngCanvas::next_frame`]).
pub open spec fn canvas_shows(
    c0: ApngCanvas,
    c1: ApngCanvas,
    fc: FrameControl,
    color: ColorKind,
    depth: BitDepth,
    buf: Seq<u8>,
    r: Result<Vec<u8>, ImageError>,
) -> bool {
    &&& c1.width == c0.width
    &&& c1.height == c0.height
    &&& c1.frame_count == c0.frame_count
    &&& depth != BitDepth::Eight ==> {
            &&& r matches Err(ImageError::Decode(m)) && m@ == "apng: unsupported bit depth "@ + bit_depth_name(depth)
            &&& c1.canvas@ == c0.canvas@
            &&& c1.previous_canvas@ == c0.previous_canvas@
            &&& c1.frames_read == c0.frames_read
            &&& c1.rgba_sub@ == c0.rgba_sub@
        }
    &&& depth == BitDepth::Eight ==> {
            let sub = expanded(c0.rgba_sub@, buf, color, (fc.width * fc.height) as nat);
            let step = frame_step(
                c0.canvas@,
                c0.previous_canvas@,
                c0.width as int,
                c0.height as int,
                fc,
                sub,
            );
            &&& c1.rgba_sub@ == sub
            &&& color == ColorKind::Indexed ==> {
                &&& r matches Err(ImageError::Decode(m)) && m@ == indexed_message()
                &&& c1.canvas@ == c0.canvas@
                &&& c1.previous_canvas@ == c0.previous_canvas@
                &&& c1.frames_read == c0.frames_read
            }
            &&& color != ColorKind::Indexed ==> {
                &&& r matches Ok(frame) && frame@ == step.0
                &&& c1.canvas@ == step.1
                &&& c1.previous_canvas@ == step.2
                &&& c1.frames_read == c0.frames_read + 1
            }
        }
}

impl ApngCanvas {
    /// The buffers have the canvas's size, which fits 32 bits.
    pub open spec fn wf(&self) -> bool {
        &&& self.canvas@.len() == self.width * self.height * 4
        &&& self.previous_canvas@.len() == self.width * self.height * 4
        &&& self.width * self.height * 4 <= u32::MAX
    }

    /// Whether another frame is due: the animation announced a frame count
    /// and fewer frames than that were decoded.
    pub open spec fn frame_due(&self) -> bool {
        match self.frame_count {
            Some(limit) => self.frames_read < limit,
            None => false,
        }
    }

    /// A transparent canvas of `width` by `height`, refused (see
    /// [`canvas_refusal`]) when too large.
    pub fn new(width: u32, height: u32, frame_count: Option<u32>) -> (r: Result<ApngCanvas, ImageError>)
        ensures
            match canvas_refusal("apng"@, width, height) {
                Some(m) => r matches Err(ImageError::Decode(s)) && s@ == m,
                None => r matches Ok(c) && c.wf() && c.width == width && c.height == height && c.frames_read == 0
                    && c.frame_count == frame_count && c.rgba_sub@.len() == 0 && c.canvas@ == Seq::new(
                    (width * height * 4) as nat,
                    |j: int| 0u8,
                ) && c.previous_canvas@ == c.canvas@,
            },
    {
        match check_canvas("apng", width, height) {
            Ok(()) => {},
            Err(e) => {
                return Err(e);
            },
        }
        assert((width as int) * (height as int) <= MAX_CANVAS_PIXELS);
        let n: usize = (width as usize) * (height as usize) * 4;
        let mut canvas: Vec<u8> = Vec::new();
        let mut j: usize = 0;
        while j < n
            invariant
                j <= n,
                canvas@.len() == j,
                forall|k: int| 0 <= k < j ==> #[trigger] canvas@[k] == 0u8,
            decreases n - j,
        {
            canvas.push(0u8);
            j = j + 1;
        }
        let previous_canvas = canvas.clone();
        let r = ApngCanvas {
            canvas,
            previous_canvas,
            width,
            height,
            frames_read: 0,
            frame_count,
            rgba_sub: Vec::new(),
        };
        assert(r.canvas@ =~= Seq::new((width * height * 4) as nat, |j: int| 0u8));
        Ok(r)
    }

    /// Whether another frame is due (see [`ApngCanvas::frame_due`]).
    pub fn wants_frame(&self) -> (r: bool)
        ensures
            r == self.frame_due(),
    {
        match self.frame_count {
            Some(limit) => self.frames_read < limit,
            None => false,
        }
    }

    /// Shows the next frame, decoded by the PNG decoder into `buf` with its
    /// frame control, color type and bit depth: only 8-bit samples are
    /// taken; the sub-frame is expanded to RGBA8 (an indexed one is an
    /// error), drawn onto the canvas and the result returned, and the
    /// frame's disposal prepares the canvas for the next one (see
    /// [`frame_step`]).
    pub fn next_frame(&mut self, fc: FrameControl, color: ColorKind, depth: BitDepth, buf: &[u8]) -> (r: Result<
        Vec<u8>,
        ImageError,
    >)
        requires
            old(self).wf(),
            old(self).frame_due(),
            fc.width * fc.height * 4 <= u32::MAX,
            color == ColorKind::Rgba ==> buf@.len() >= fc.width * fc.height * 4,
        ensures
            final(self).wf(),
            canvas_shows(*old(self), *final(self), fc, color, depth, buf@, r),
    {
        if depth != BitDepth::Eight {
            let mut v = chars_of("apng: unsupported bit depth ");
            let name = chars_of(bit_depth_str(depth));
            extend_chars(&mut v, &name);
            return Err(ImageError::Decode(string_from_chars(&v)));
        }
        let n_pixels: usize = (fc.width as usize) * (fc.height as usize);
        match expand_to_rgba8(buf, color, n_pixels, &mut self.rgba_sub) {
            Ok(()) => {},
            Err(e) => {
                return Err(e);
            },
        }
        if fc.dispose_op == DisposeOp::Previous {
            self.previous_canvas = self.canvas.clone();
        }
        composite_frame(&mut self.canvas, self.width, self.height, fc, self.rgba_sub.as_slice());
        let frame = self.canvas.clone();
        apply_dispose(&mut self.canvas, &self.previous_canvas, self.width, self.height, fc);
        self.frames_read = self.frames_read + 1;
        Ok(frame)
    }
}

/// A frame that disposes to the previous state leaves the canvas as it was
/// before the frame was drawn.
pub proof fn lemma_previous_restores(
    canvas: Seq<u8>,
    previous: Seq<u8>,
    cw: int,
    ch: int,
    fc: FrameControl,
    sub: Seq<u8>,
)
    requires
        fc.dispose_op == DisposeOp::Previous,
    ensures
        frame_step(canvas, previous, cw, ch, fc, sub).1 == canvas,
{
}

/// A frame that disposes to the background leaves its region transparent
/// black for the next frame and the rest of the shown canvas as it was.
pub proof fn lemma_background_clears(
    canvas: Seq<u8>,
    previous: Seq<u8>,
    cw: int,
    ch: int,
    fc: FrameControl,
    sub: Seq<u8>,
)
    requires
        fc.dispose_op == DisposeOp::Background,
    ensures
        frame_step(canvas, previous, cw, ch, fc, sub).1.len() == canvas.len(),
        forall|q: int|
            0 <= q < canvas.len() ==> #[trigger] frame_step(canvas, previous, cw, ch, fc, sub).1[q] == (if in_rect(
                q,
                cw,
                ch,
                fc,
            ) {
                0u8
            } else {
                frame_step(canvas, previous, cw, ch, fc, sub).0[q]
            }),
{
}

/// A frame that keeps its pixels leaves the shown canvas for the next frame.
pub proof fn lemma_keep_leaves_frame(
    canvas: Seq<u8>,
    previous: Seq<u8>,
    cw: int,
    ch: int,
    fc: FrameControl,
    sub: Seq<u8>,
)
    requires
        fc.dispose_op == DisposeOp::Keep,
    ensures
        frame_step(canvas, previous, cw, ch, fc, sub).1 == frame_step(canvas, previous, cw, ch, fc, sub).0,
{
}

/// Blending a fully opaque sub-frame over the canvas gives the same canvas
/// as replacing the region with it.
pub proof fn lemma_opaque_over_is_source(canvas: Seq<u8>, cw: int, ch: int, fc: FrameControl, sub: Seq<u8>)
    requires
        cw > 0,
        forall|q: int|
            0 <= q < canvas.len() && in_rect(q, cw, ch, fc) ==> #[trigger] sub[sub_pixel(q, cw, fc) + 3] == 255u8,
    ensures
        composited(canvas, cw, ch, FrameControl { blend_op: BlendOp::Over, ..fc }, sub) == composited(
            canvas,
            cw,
            ch,
            FrameControl { blend_op: BlendOp::Source, ..fc },
            sub,
        ),
{
    let fo = FrameControl { blend_op: BlendOp::Over, ..fc };
    let fs = FrameControl { blend_op: BlendOp::Source, ..fc };
    assert forall|q: int| 0 <= q < canvas.len() implies #[trigger] composited(canvas, cw, ch, fo, sub)[q]
        == composited(canvas, cw, ch, fs, sub)[q] by {
        if in_rect(q, cw, ch, fc) {
            assert(in_rect(q, cw, ch, fo) && in_rect(q, cw, ch, fs));
            assert(sub_pixel(q, cw, fo) == sub_pixel(q, cw, fc));
            assert(sub[sub_pixel(q, cw, fc) + 3] == 255u8);
        }
    }
    assert(composited(canvas, cw, ch, fo, sub) =~= composited(canvas, cw, ch, fs, sub));
}


// ---------------------------------------------------------------------------
// Reading an animated PNG
// ---------------------------------------------------------------------------

/// An open `png::Reader` over the bytes of an animated PNG. Verus does not
/// take a declaration of `png::Reader`, whose parameter is bound by std's
/// `BufRead` and `Seek`, so the reader is held opaque here.
#[verifier::external_body]
pub struct PngStream {
    reader: png::Reader<std::io::Cursor<Vec<u8>>>,
}

/// What `png::Decoder::read_info` reads from `data`: the width, the height,
/// the frame count of its animation control chunk, and the size of the
/// output buffer (none when unknown); or the text of the error.
pub uninterp spec fn png_opened(data: Seq<u8>) -> Result<(u32, u32, Option<u32>, Option<usize>), Seq<char>>;

/// What the `png::Reader::next_frame` call, on the reader opened from
/// `data` after `k` earlier such calls, gives: the bytes of the frame (the
/// output buffer cut to the frame's `buffer_size`), its color type and bit
/// depth as PNG codes, and the reader's frame control (size, offsets, delay,
/// and disposal and blending as PNG codes); or the text of the error.
pub uninterp spec fn png_frame(data: Seq<u8>, k: nat) -> Result<
    (Seq<u8>, u8, u8, Option<(u32, u32, u32, u32, u16, u16, u8, u8)>),
    Seq<char>,
>;

/// `png::Decoder::new` over the bytes and `read_info`, with the header's
/// size, the animation control's `num_frames` and `output_buffer_size`.
#[verifier::external_body]
fn png_open(data: Vec<u8>) -> (r: Result<
    (PngStream, (u32, u32, Option<u32>, Option<usize>)),
    String,
>)
    ensures
        match png_opened(data@) {
            Ok(info) => r matches Ok((_, i)) && i == info,
            Err(m) => r matches Err(s) && s@ == m,
        },
{
    let reader = png::Decoder::new(std::io::Cursor::new(data)).read_info().map_err(|e| e.to_string())?;
    let info = reader.info();
    let head = (info.width, info.height, info.animation_control.map(|a| a.num_frames), reader.output_buffer_size());
    Ok((PngStream { reader }, head))
}

/// `png::Reader::next_frame` into a buffer of the output size, cut to the
/// frame's `buffer_size`, with `info().frame_control`.
#[verifier::external_body]
fn png_read_frame(f: &mut ApngFrames) -> (r: Result<
    (Vec<u8>, u8, u8, Option<(u32, u32, u32, u32, u16, u16, u8, u8)>),
    String,
>)
    ensures
        *final(f) == (ApngFrames { stream: final(f).stream, ..*old(f) }),
        match png_frame(old(f).data@, old(f).reads@) {
            Ok((px, c, d, fc)) => r matches Ok((v, rc, rd, rfc)) && v@ == px && rc == c && rd == d && rfc == fc,
            Err(m) => r matches Err(s) && s@ == m,
        },
{
    let mut buf = vec![0u8; f.buf_len];
    let out = f.stream.reader.next_frame(&mut buf).map_err(|e| e.to_string())?;
    buf.truncate(out.buffer_size());
    let fc = f.stream.reader.info().frame_control.map(|c| {
        (c.width, c.height, c.x_offset, c.y_offset, c.delay_num, c.delay_den, c.dispose_op as u8, c.blend_op as u8)
    });
    Ok((buf, out.color_type as u8, out.bit_depth as u8, fc))
}

/// The color type a PNG code names.
pub open spec fn png_color(code: u8) -> Option<ColorKind> {
    if code == 0 {
        Some(ColorKind::Grayscale)
    } else if code == 2 {
        Some(ColorKind::Rgb)
    } else if code == 3 {
        Some(ColorKind::Indexed)
    } else if code == 4 {
        Some(ColorKind::GrayscaleAlpha)
    } else if code == 6 {
        Some(ColorKind::Rgba)
    } else {
        None
    }
}

/// The bit depth a PNG code names.
pub open spec fn png_depth(code: u8) -> Option<BitDepth> {
    if code == 1 {
        Some(BitDepth::One)
    } else if code == 2 {
        Some(BitDepth::Two)
    } else if code == 4 {
        Some(BitDepth::Four)
    } else if code == 8 {
        Some(BitDepth::Eight)
    } else if code == 16 {
        Some(BitDepth::Sixteen)
    } else {
        None
    }
}

/// The frame control of the PNG codes: disposal 0 keep, 1 background,
/// 2 previous; blending 0 source, 1 over.
pub open spec fn png_control(c: (u32, u32, u32, u32, u16, u16, u8, u8)) -> Option<FrameControl> {
    let dispose = if c.6 == 0 {
        Some(DisposeOp::Keep)
    } else if c.6 == 1 {
        Some(DisposeOp::Background)
    } else if c.6 == 2 {
        Some(DisposeOp::Previous)
    } else {
        None
    };
    let blend = if c.7 == 0 {
        Some(BlendOp::Source)
    } else if c.7 == 1 {
        Some(BlendOp::Over)
    } else {
        None
    };
    match (dispose, blend) {
        (Some(d), Some(b)) => Some(
            FrameControl {
                width: c.0,
                height: c.1,
                x_offset: c.2,
                y_offset: c.3,
                delay_num: c.4,
                delay_den: c.5,
                dispose_op: d,
                blend_op: b,
            },
        ),
        _ => None,
    }
}

fn png_color_exec(code: u8) -> (r: Option<ColorKind>)
    ensures
        r == png_color(code),
{
    match code {
        0 => Some(ColorKind::Grayscale),
        2 => Some(ColorKind::Rgb),
        3 => Some(ColorKind::Indexed),
        4 => Some(ColorKind::GrayscaleAlpha),
        6 => Some(ColorKind::Rgba),
        _ => None,
    }
}

fn png_depth_exec(code: u8) -> (r: Option<BitDepth>)
    ensures
        r == png_depth(code),
{
    match code {
        1 => Some(BitDepth::One),
        2 => Some(BitDepth::Two),
        4 => Some(BitDepth::Four),
        8 => Some(BitDepth::Eight),
        16 => Some(BitDepth::Sixteen),
        _ => None,
    }
}

fn png_control_exec(c: (u32, u32, u32, u32, u16, u16, u8, u8)) -> (r: Option<FrameControl>)
    ensures
        r == png_control(c),
{
    let dispose = match c.6 {
        0 => DisposeOp::Keep,
        1 => DisposeOp::Background,
        2 => DisposeOp::Previous,
        _ => {
            return None;
        },
    };
    let blend = match c.7 {
        0 => BlendOp::Source,
        1 => BlendOp::Over,
        _ => {
            return None;
        },
    };
    Some(
        FrameControl {
            width: c.0,
            height: c.1,
            x_offset: c.2,
            y_offset: c.3,
            delay_num: c.4,
            delay_den: c.5,
            dispose_op: dispose,
            blend_op: blend,
        },
    )
}

/// A decoded frame's PNG codes as the canvas takes them, or the refusal:
/// a missing frame control, or a code outside the PNG set.
pub open spec fn frame_codes(c: u8, d: u8, fc: Option<(u32, u32, u32, u32, u16, u16, u8, u8)>) -> Result<
    (ColorKind, BitDepth, FrameControl),
    Seq<char>,
> {
    match fc {
        None => Err("apng: missing frame control"@),
        Some(raw) => match (png_color(c), png_depth(d), png_control(raw)) {
            (Some(color), Some(depth), Some(control)) => Ok((color, depth, control)),
            _ => Err("apng: unknown frame codes"@),
        },
    }
}

/// The sub-frame's bytes fit `u32` and, for RGBA, the decoded buffer.
pub open spec fn sub_frame_fits(fc: FrameControl, color: ColorKind, buf: Seq<u8>) -> bool {
    &&& fc.width * fc.height * 4 <= u32::MAX
    &&& (color == ColorKind::Rgba ==> buf.len() >= fc.width * fc.height * 4)
}

fn apng_error(prefix: &str, m: String) -> (r: ImageError)
    ensures
        r matches ImageError::Decode(s) && s@ == prefix@ + m@,
{
    let mut v = chars_of(prefix);
    extend_chars(&mut v, &chars_of(m.as_str()));
    ImageError::Decode(string_from_chars(&v))
}

/// An animated PNG read frame by frame onto its canvas, with the bytes it
/// was opened from and the number of `next_frame` calls made on its reader.
pub struct ApngFrames {
    stream: PngStream,
    data: Ghost<Seq<u8>>,
    reads: Ghost<nat>,
    canvas: ApngCanvas,
    buf_len: usize,
}

impl ApngFrames {
    pub closed spec fn data(&self) -> Seq<u8> {
        self.data@
    }

    pub closed spec fn reads(&self) -> nat {
        self.reads@
    }

    pub closed spec fn canvas(&self) -> ApngCanvas {
        self.canvas
    }

    pub closed spec fn wf(&self) -> bool {
        self.canvas.wf()
    }

    /// The canvas width and height.
    pub fn size(&self) -> (r: (u32, u32))
        ensures
            r == (self.canvas().width, self.canvas().height),
    {
        (self.canvas.width, self.canvas.height)
    }

    /// Opens an animated PNG: the reader's error is a decode error; the
    /// canvas is refused as [`ApngCanvas::new`] refuses it; an output
    /// buffer of unknown size is an error; otherwise a transparent canvas
    /// awaits the announced frames.
    pub fn new(data: Vec<u8>) -> (r: Result<ApngFrames, ImageError>)
        ensures
            match png_opened(data@) {
                Err(m) => r matches Err(ImageError::Decode(s)) && s@ == "png: "@ + m,
                Ok((w, h, count, size)) => match canvas_refusal("apng"@, w, h) {
                    Some(m) => r matches Err(ImageError::Decode(s)) && s@ == m,
                    None => match size {
                        None => r matches Err(ImageError::Decode(s)) && s@ == "png: output buffer size unknown"@,
                        Some(_) => r matches Ok(f) && f.wf() && f.data() == data@ && f.reads() == 0
                            && f.canvas().width == w && f.canvas().height == h && f.canvas().frames_read == 0
                            && f.canvas().frame_count == count && f.canvas().canvas@ == Seq::new(
                            (w * h * 4) as nat,
                            |j: int| 0u8,
                        ),
                    },
                },
            },
    {
        let ghost bytes = data@;
        let (stream, head) = match png_open(data) {
            Ok(v) => v,
            Err(m) => {
                return Err(apng_error("png: ", m));
            },
        };
        let (w, h, count, size) = head;
        let canvas = ApngCanvas::new(w, h, count)?;
        let buf_len = match size {
            Some(n) => n,
            None => {
                return Err(ImageError::Decode(string_from_chars(&chars_of("png: output buffer size unknown"))));
            },
        };
        Ok(ApngFrames { stream, data: Ghost(bytes), reads: Ghost(0), canvas, buf_len })
    }

    /// The next composited frame with its delay fraction, or none once the
    /// announced frames were shown: the reader's error, a frame without
    /// frame control, codes outside the PNG set, or a sub-frame larger than
    /// its buffer is a decode error; otherwise the canvas shows the frame
    /// (see [`canvas_shows`]).
    pub fn next_frame(&mut self) -> (r: Result<Option<(Vec<u8>, u16, u16)>, ImageError>)
        requires
            old(self).wf(),
        ensures
            final(self).wf(),
            final(self).data() == old(self).data(),
            !old(self).canvas().frame_due() ==> (r matches Ok(None) && final(self).canvas() == old(self).canvas()
                && final(self).reads() == old(self).reads()),
            old(self).canvas().frame_due() ==> (final(self).reads() == old(self).reads() + 1 && match png_frame(
                old(self).data(),
                old(self).reads(),
            ) {
                Err(m) => r matches Err(ImageError::Decode(s)) && s@ == "apng frame: "@ + m,
                Ok((buf, c, d, raw)) => match frame_codes(c, d, raw) {
                    Err(m) => r matches Err(ImageError::Decode(s)) && s@ == m,
                    Ok((color, depth, fc)) => if !sub_frame_fits(fc, color, buf) {
                        r matches Err(ImageError::Decode(s)) && s@ == "apng: sub-frame larger than its buffer"@
                    } else {
                        match r {
                            Ok(Some((v, dn, dd))) => canvas_shows(
                                old(self).canvas(),
                                final(self).canvas(),
                                fc,
                                color,
                                depth,
                                buf,
                                Ok(v),
                            ) && dn == fc.delay_num && dd == fc.delay_den,
                            Err(e) => canvas_shows(
                                old(self).canvas(),
                                final(self).canvas(),
                                fc,
                                color,
                                depth,
                                buf,
                                Err(e),
                            ),
                            Ok(None) => false,
                        }
                    },
                },
            }),
    {
        proof {
            reveal_strlit("apng: missing frame control");
            reveal_strlit("apng: unknown frame codes");
        }
        if !self.canvas.wants_frame() {
            return Ok(None);
        }
        let res = png_read_frame(self);
        self.reads = Ghost(self.reads@ + 1);
        let (buf, c, d, raw) = match res {
            Ok(v) => v,
            Err(m) => {
                return Err(apng_error("apng frame: ", m));
            },
        };
        let raw = match raw {
            Some(x) => x,
            None => {
                return Err(ImageError::Decode(string_from_chars(&chars_of("apng: missing frame control"))));
            },
        };
        let (color, depth, fc) = match (png_color_exec(c), png_depth_exec(d), png_control_exec(raw)) {
            (Some(color), Some(depth), Some(fc)) => (color, depth, fc),
            _ => {
                return Err(ImageError::Decode(string_from_chars(&chars_of("apng: unknown frame codes"))));
            },
        };
        let fw: u64 = fc.width as u64;
        let fh: u64 = fc.height as u64;
        assert(fw * fh <= 0xFFFF_FFFFu64 * 0xFFFF_FFFFu64) by (nonlinear_arith)
            requires fw <= 0xFFFF_FFFFu64, fh <= 0xFFFF_FFFFu64;
        let wh: u64 = fw * fh;
        if wh > 0x3FFF_FFFF || (color == ColorKind::Rgba && (buf.len() as u64) < wh * 4) {
            return Err(ImageError::Decode(string_from_chars(&chars_of("apng: sub-frame larger than its buffer"))));
        }
        match self.canvas.next_frame(fc, color, depth, &buf) {
            Ok(v) => Ok(Some((v, fc.delay_num, fc.delay_den))),
            Err(e) => Err(e),
        }
    }
}

/// The codes of a decoded frame mean what the PNG and APNG specifications
/// make them: color types 0 gray, 2 RGB, 3 indexed, 4 gray with alpha and
/// 6 RGBA; bit depths 1, 2, 4, 8 and 16; disposal 0 none (the frame stays),
/// 1 background (cleared to transparent black) and 2 previous; blending 0
/// source and 1 over. Any other code is refused, as is a frame without
/// frame control; the size, offsets and delay are carried over unchanged.
pub proof fn lemma_frame_codes_follow_png(c: u8, d: u8, fc: Option<(u32, u32, u32, u32, u16, u16, u8, u8)>)
    ensures
        fc is None ==> frame_codes(c, d, fc) is Err,
        fc matches Some(raw) ==> (frame_codes(c, d, fc) is Ok <==> ((c == 0 || c == 2 || c == 3 || c == 4 || c == 6)
            && (d == 1 || d == 2 || d == 4 || d == 8 || d == 16) && raw.6 <= 2 && raw.7 <= 1)),
        frame_codes(c, d, fc) matches Ok((color, depth, control)) ==> {
            &&& c == 0 ==> color == ColorKind::Grayscale
            &&& c == 2 ==> color == ColorKind::Rgb
            &&& c == 3 ==> color == ColorKind::Indexed
            &&& c == 4 ==> color == ColorKind::GrayscaleAlpha
            &&& c == 6 ==> color == ColorKind::Rgba
            &&& d == 1 ==> depth == BitDepth::One
            &&& d == 2 ==> depth == BitDepth::Two
            &&& d == 4 ==> depth == BitDepth::Four
            &&& d == 8 ==> depth == BitDepth::Eight
            &&& d == 16 ==> depth == BitDepth::Sixteen
            &&& fc matches Some(raw) && control.width == raw.0 && control.height == raw.1 && control.x_offset
                == raw.2 && control.y_offset == raw.3 && control.delay_num == raw.4 && control.delay_den == raw.5
            &&& fc matches Some(raw) && (raw.6 == 0 ==> control.dispose_op == DisposeOp::Keep)
            &&& fc matches Some(raw) && (raw.6 == 1 ==> control.dispose_op == DisposeOp::Background)
            &&& fc matches Some(raw) && (raw.6 == 2 ==> control.dispose_op == DisposeOp::Previous)
            &&& fc matches Some(raw) && (raw.7 == 0 ==> control.blend_op == BlendOp::Source)
            &&& fc matches Some(raw) && (raw.7 == 1 ==> control.blend_op == BlendOp::Over)
        },
{
}

} // verus!
