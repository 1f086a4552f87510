//! Resampling methods, and compositing an RGBA image onto a black RGB888
//! canvas (letterbox and center-crop placement).

use vstd::prelude::*;
use vstd::slice::SliceAdditionalExecFns;

use fast_image_resize::images::{Image, ImageRef};
use fast_image_resize::{FilterType, PixelType, ResizeAlg, ResizeOptions, Resizer};

use crate::error::ImageError;
use crate::text::chars_eq_str;
use crate::text::chars_of;
use crate::text::lower_seq;
use crate::text::lower_vec;

verus! {

#[derive(Debug, Clone, Copy, PartialEq, Eq, Structural)]
pub enum ResampleMethod {
    Lanczos,
    Bicubic,
    Bilinear,
    Box,
    Nearest,
    Auto,
}

pub open spec fn method_name(m: ResampleMethod) -> Seq<char> {
    match m {
        ResampleMethod::Lanczos => "lanczos"@,
        ResampleMethod::Bicubic => "bicubic"@,
        ResampleMethod::Bilinear => "bilinear"@,
        ResampleMethod::Box => "box"@,
        ResampleMethod::Nearest => "nearest"@,
        ResampleMethod::Auto => "auto"@,
    }
}

/// The method a name names, in any case; any other name means Lanczos.
pub open spec fn method_named(s: Seq<char>) -> ResampleMethod {
    let l = lower_seq(s);
    if l == "bicubic"@ {
        ResampleMethod::Bicubic
    } else if l == "bilinear"@ {
        ResampleMethod::Bilinear
    } else if l == "box"@ {
        ResampleMethod::Box
    } else if l == "nearest"@ {
        ResampleMethod::Nearest
    } else if l == "auto"@ {
        ResampleMethod::Auto
    } else {
        ResampleMethod::Lanczos
    }
}

impl ResampleMethod {
    pub fn from_str_canon(s: &str) -> (r: ResampleMethod)
        ensures
            r == method_named(s@),
    {
        let l = lower_vec(&chars_of(s));
        if chars_eq_str(&l, "bicubic") {
            ResampleMethod::Bicubic
        } else if chars_eq_str(&l, "bilinear") {
            ResampleMethod::Bilinear
        } else if chars_eq_str(&l, "box") {
            ResampleMethod::Box
        } else if chars_eq_str(&l, "nearest") {
            ResampleMethod::Nearest
        } else if chars_eq_str(&l, "auto") {
            ResampleMethod::Auto
        } else {
            ResampleMethod::Lanczos
        }
    }

    pub fn as_str(self) -> (r: &'static str)
        ensures
            r@ == method_name(self),
    {
        proof {
            reveal_strlit("lanczos");
            reveal_strlit("bicubic");
            reveal_strlit("bilinear");
            reveal_strlit("box");
            reveal_strlit("nearest");
            reveal_strlit("auto");
        }
        match self {
            ResampleMethod::Lanczos => "lanczos",
            ResampleMethod::Bicubic => "bicubic",
            ResampleMethod::Bilinear => "bilinear",
            ResampleMethod::Box => "box",
            ResampleMethod::Nearest => "nearest",
            ResampleMethod::Auto => "auto",
        }
    }
}

/// One channel blended against black with alpha `a` (rounded).
pub open spec fn over_black(c: u8, a: u8) -> u8 {
    if a == 255 {
        c
    } else if a == 0 {
        0
    } else {
        ((c * a + 127) / 255) as u8
    }
}

/// Blending against black scales a channel by its alpha, rounded to the
/// nearest level: 255 times the result lies within half a level of `c *
/// a`; an opaque pixel keeps its channel and a transparent one is black.
pub proof fn lemma_over_black_scales(c: u8, a: u8)
    ensures
        a == 255 ==> over_black(c, a) == c,
        a == 0 ==> over_black(c, a) == 0,
        255 * over_black(c, a) <= c * a + 127 < 255 * over_black(c, a) + 255,
        over_black(c, a) <= c,
{
    let t = c * a + 127;
    assert(0 <= c * a <= c * 255) by (nonlinear_arith)
        requires
            0 <= c <= 255,
            0 <= a <= 255,
    ;
    if a == 255 {
        assert(c * a + 127 == 255 * c + 127);
    } else if a == 0 {
    } else {
        assert(t / 255 <= c) by (nonlinear_arith)
            requires
                t == c * a + 127,
                0 <= c <= 255,
                0 <= a < 255,
        ;
    }
}

/// RGB888 bytes of RGBA pixels blended against black.
pub open spec fn blend_row(src: Seq<u8>) -> Seq<u8> {
    Seq::new((src.len() / 4 * 3) as nat, |j: int| over_black(src[4 * (j / 3) + j % 3], src[4 * (j / 3) + 3]))
}

/// Writes each RGBA pixel of `src` blended against black into `dst`.
pub fn composite_row_over_black(src: &[u8], dst: &mut [u8])
    requires
        src@.len() % 4 == 0,
        old(dst)@.len() == src@.len() / 4 * 3,
    ensures
        final(dst)@ == blend_row(src@),
{
    let n = src.len() / 4;
    let mut k: usize = 0;
    let mut p4: usize = 0;
    let mut p3: usize = 0;
    while k < n
        invariant
            n == src@.len() / 4,
            src@.len() % 4 == 0,
            src@.len() == 4 * n,
            dst@.len() == n * 3,
            k <= n,
            p4 == 4 * k,
            p3 == 3 * k,
            forall|j: int| 0 <= j < 3 * k ==> dst@[j] == #[trigger] blend_row(src@)[j],
        decreases n - k,
    {
        let a = src[p4 + 3];
        let r = src[p4];
        let g = src[p4 + 1];
        let b = src[p4 + 2];
        let (dr, dg, db): (u8, u8, u8) = if a == 255 {
            (r, g, b)
        } else if a == 0 {
            (0, 0, 0)
        } else {
            let af = a as u16;
            assert((r as u16) * af + 127 <= 65535) by (nonlinear_arith)
                requires
                    r <= 255,
                    af <= 255,
            ;
            assert((g as u16) * af + 127 <= 65535) by (nonlinear_arith)
                requires
                    g <= 255,
                    af <= 255,
            ;
            assert((b as u16) * af + 127 <= 65535) by (nonlinear_arith)
                requires
                    b <= 255,
                    af <= 255,
            ;
            assert(((r as u16) * af + 127) / 255 <= 255) by (nonlinear_arith)
                requires
                    r <= 255,
                    af <= 255,
            ;
            assert(((g as u16) * af + 127) / 255 <= 255) by (nonlinear_arith)
                requires
                    g <= 255,
                    af <= 255,
            ;
            assert(((b as u16) * af + 127) / 255 <= 255) by (nonlinear_arith)
                requires
                    b <= 255,
                    af <= 255,
            ;
            (
                (((r as u16) * af + 127) / 255) as u8,
                (((g as u16) * af + 127) / 255) as u8,
                (((b as u16) * af + 127) / 255) as u8,
            )
        };
        dst.set(p3, dr);
        dst.set(p3 + 1, dg);
        dst.set(p3 + 2, db);
        proof {
            assert forall|j: int| 0 <= j < 3 * (k + 1) implies dst@[j] == #[trigger] blend_row(src@)[j] by {
                if j >= 3 * k {
                    assert(j / 3 == k);
                }
            }
        }
        k = k + 1;
        p4 = p4 + 4;
        p3 = p3 + 3;
    }
}

/// Placement of an RGBA source on a black RGB888 canvas: the source width,
/// the top-left corner of the copied region in the source and in the
/// target, the region's size and the target's size.
pub struct CompositePlan {
    pub src_w: u32,
    pub src_off: (u32, u32),
    pub dst_off: (u32, u32),
    pub copy: (u32, u32),
    pub target: (u32, u32),
}

/// Byte offset of row `y` of the region in the source.
pub open spec fn src_row_start(plan: CompositePlan, y: int) -> int {
    (y + plan.src_off.1) * (plan.src_w as int) * 4 + (plan.src_off.0 as int) * 4
}

/// Byte offset of row `y` of the region in the target.
pub open spec fn dst_row_start(plan: CompositePlan, y: int) -> int {
    (y + plan.dst_off.1) * (plan.target.0 as int) * 3 + (plan.dst_off.0 as int) * 3
}

/// The target buffer size fits a `u32`, and every row of the region lies
/// inside the source and the target buffers (the offsets as `u32` too).
pub open spec fn composite_fits(src_len: nat, plan: CompositePlan) -> bool {
    &&& plan.target.0 * plan.target.1 * 3 <= u32::MAX
    &&& plan.src_w * 4 <= usize::MAX
    &&& plan.target.0 * 3 <= usize::MAX
    &&& forall|y: int|
        0 <= y < plan.copy.1 ==> {
            &&& #[trigger] src_row_start(plan, y) + (plan.copy.0 as int) * 4 <= src_len
            &&& y + plan.src_off.1 <= u32::MAX
            &&& y + plan.dst_off.1 <= u32::MAX
            &&& dst_row_start(plan, y) + (plan.copy.0 as int) * 3 <= plan.target.0 * plan.target.1 * 3
        }
}

/// `out` with the bytes from `start` on replaced by `row`.
pub open spec fn splice(out: Seq<u8>, start: int, row: Seq<u8>) -> Seq<u8> {
    out.take(start) + row + out.skip(start + row.len())
}

/// The target after compositing the first `rows` rows of the region: each
/// row's pixels, blended against black, overwrite the target from the row's
/// offset on.
pub open spec fn composite_rows(rgba: Seq<u8>, plan: CompositePlan, rows: int) -> Seq<u8>
    decreases rows,
{
    if rows <= 0 {
        Seq::new((plan.target.0 * plan.target.1 * 3) as nat, |i: int| 0u8)
    } else {
        let y = rows - 1;
        let s = src_row_start(plan, y);
        splice(
            composite_rows(rgba, plan, rows - 1),
            dst_row_start(plan, y),
            blend_row(rgba.subrange(s, s + (plan.copy.0 as int) * 4)),
        )
    }
}

pub proof fn lemma_composite_len(rgba: Seq<u8>, plan: CompositePlan, rows: int)
    requires
        composite_fits(rgba.len(), plan),
        rows <= plan.copy.1,
    ensures
        composite_rows(rgba, plan, rows).len() == plan.target.0 * plan.target.1 * 3,
    decreases rows,
{
    if rows > 0 {
        lemma_composite_len(rgba, plan, rows - 1);
        let y = rows - 1;
        assert(src_row_start(plan, y) + (plan.copy.0 as int) * 4 <= rgba.len());
        assert(dst_row_start(plan, y) >= 0) by (nonlinear_arith)
            requires
                y >= 0,
        ;
    }
}

/// Byte `c` of pixel `(x, y)` of an RGB888 image `w` pixels wide.
pub open spec fn rgb_at(img: Seq<u8>, w: int, x: int, y: int, c: int) -> u8 {
    img[(y * w + x) * 3 + c]
}

/// Byte `c` of source pixel `(x, y)`, blended against black, of an RGBA
/// image `w` pixels wide.
pub open spec fn blended_at(rgba: Seq<u8>, w: int, x: int, y: int, c: int) -> u8 {
    over_black(rgba[(y * w + x) * 4 + c], rgba[(y * w + x) * 4 + 3])
}

/// Pixel by pixel, a composite shows the blended source pixel under each
/// target pixel of the first `rows` rows of the region, and black
/// elsewhere.
pub proof fn lemma_composite_pixel(rgba: Seq<u8>, plan: CompositePlan, rows: int, x: int, y: int, c: int)
    requires
        composite_fits(rgba.len(), plan),
        0 <= rows <= plan.copy.1,
        plan.dst_off.0 + plan.copy.0 <= plan.target.0,
        0 <= x < plan.target.0,
        0 <= y < plan.target.1,
        0 <= c < 3,
    ensures
        rgb_at(composite_rows(rgba, plan, rows), plan.target.0 as int, x, y, c) == (if plan.dst_off.1 <= y
            < plan.dst_off.1 + rows && plan.dst_off.0 <= x < plan.dst_off.0 + plan.copy.0 {
            blended_at(
                rgba,
                plan.src_w as int,
                x - plan.dst_off.0 + plan.src_off.0,
                y - plan.dst_off.1 + plan.src_off.1,
                c,
            )
        } else {
            0u8
        }),
    decreases rows,
{
    let tw = plan.target.0 as int;
    let th = plan.target.1 as int;
    let i = (y * tw + x) * 3 + c;
    assert(0 <= i < tw * th * 3) by (nonlinear_arith)
        requires
            0 <= x < tw,
            0 <= y < th,
            0 <= c < 3,
            i == (y * tw + x) * 3 + c,
    ;
    lemma_composite_len(rgba, plan, rows);
    if rows > 0 {
        let r = rows - 1;
        lemma_composite_pixel(rgba, plan, r, x, y, c);
        lemma_composite_len(rgba, plan, r);
        let prev = composite_rows(rgba, plan, r);
        let s = src_row_start(plan, r);
        let start = dst_row_start(plan, r);
        let cw = plan.copy.0 as int;
        let dx = plan.dst_off.0 as int;
        let dy = plan.dst_off.1 as int;
        let sub = rgba.subrange(s, s + cw * 4);
        let row = blend_row(sub);
        assert(s + cw * 4 <= rgba.len());
        assert(s >= 0) by (nonlinear_arith)
            requires
                r >= 0,
                s == (r + plan.src_off.1) * (plan.src_w as int) * 4 + (plan.src_off.0 as int) * 4,
        ;
        assert(start >= 0) by (nonlinear_arith)
            requires
                r >= 0,
                dy >= 0,
                tw >= 0,
                start == (r + dy) * tw * 3 + dx * 3,
                dx >= 0,
        ;
        assert(row.len() == cw * 3);
        assert(start + cw * 3 <= prev.len());
        let out = composite_rows(rgba, plan, rows);
        assert(out == splice(prev, start, row));
        if y == r + dy {
            assert(i - start == (x - dx) * 3 + c) by (nonlinear_arith)
                requires
                    i == (y * tw + x) * 3 + c,
                    start == (r + dy) * tw * 3 + dx * 3,
                    y == r + dy,
            ;
            if dx <= x < dx + cw {
                let j = (x - dx) * 3 + c;
                vstd::arithmetic::div_mod::lemma_fundamental_div_mod_converse(j, 3, x - dx, c);
                assert(out[i] == row[j]);
                assert(sub[4 * (x - dx) + c] == rgba[s + 4 * (x - dx) + c]);
                assert(sub[4 * (x - dx) + 3] == rgba[s + 4 * (x - dx) + 3]);
                let sx = x - dx + plan.src_off.0;
                let sy = y - dy + plan.src_off.1;
                assert(s + 4 * (x - dx) == (sy * (plan.src_w as int) + sx) * 4) by (nonlinear_arith)
                    requires
                        s == (r + plan.src_off.1) * (plan.src_w as int) * 4 + (plan.src_off.0 as int) * 4,
                        sx == x - dx + plan.src_off.0,
                        sy == y - dy + plan.src_off.1,
                        y == r + dy,
                ;
            } else {
                assert(out[i] == prev[i]);
            }
        } else if y < r + dy {
            let a = y * tw;
            let b = (r + dy) * tw;
            assert(a + tw <= b) by (nonlinear_arith)
                requires
                    a == y * tw,
                    b == (r + dy) * tw,
                    y + 1 <= r + dy,
                    tw >= 0,
            ;
            assert(i == a * 3 + x * 3 + c);
            assert(start == b * 3 + dx * 3);
            assert(i < start);
            assert(out[i] == prev[i]);
        } else {
            let a = y * tw;
            let b = (r + dy) * tw;
            assert(a >= b + tw) by (nonlinear_arith)
                requires
                    a == y * tw,
                    b == (r + dy) * tw,
                    y >= r + dy + 1,
                    tw >= 0,
            ;
            assert(i == a * 3 + x * 3 + c);
            assert(start == b * 3 + dx * 3);
            assert(i >= start + cw * 3);
            assert(out[i] == prev[i]);
        }
    }
}

/// Composites the region of an RGBA source onto a black canvas (see
/// [`composite_rows`]).
pub fn composite_rgba_to_rgb888(rgba: &[u8], plan: &CompositePlan) -> (out: Vec<u8>)
    requires
        composite_fits(rgba@.len(), *plan),
    ensures
        out@ == composite_rows(rgba@, *plan, plan.copy.1 as int),
{
    let (target_w, target_h) = plan.target;
    let (copy_w, copy_h) = plan.copy;
    let (src_off_x, src_off_y) = plan.src_off;
    let (dst_off_x, dst_off_y) = plan.dst_off;
    let total: usize = (target_w * target_h * 3) as usize;
    let mut out: Vec<u8> = Vec::new();
    let mut i: usize = 0;
    while i < total
        invariant
            i <= total,
            out@.len() == i,
            forall|k: int| 0 <= k < i ==> out@[k] == 0u8,
        decreases total - i,
    {
        out.push(0);
        i = i + 1;
    }
    assert(out@ =~= composite_rows(rgba@, *plan, 0));
    let src_stride: usize = (plan.src_w as usize) * 4;
    let dst_stride: usize = (target_w as usize) * 3;
    let copy_w_us: usize = copy_w as usize;
    let mut y: u32 = 0;
    while y < copy_h
        invariant
            y <= copy_h,
            copy_h == plan.copy.1,
            copy_w == plan.copy.0,
            copy_w_us == copy_w,
            src_off_x == plan.src_off.0,
            src_off_y == plan.src_off.1,
            dst_off_x == plan.dst_off.0,
            dst_off_y == plan.dst_off.1,
            target_w == plan.target.0,
            src_stride == plan.src_w * 4,
            dst_stride == target_w * 3,
            composite_fits(rgba@.len(), *plan),
            out@ == composite_rows(rgba@, *plan, y as int),
        decreases copy_h - y,
    {
        proof {
            lemma_composite_len(rgba@, *plan, y as int);
        }
        let ghost yy = y as int;
        assert(src_row_start(*plan, yy) + (copy_w as int) * 4 <= rgba@.len());
        assert(dst_row_start(*plan, yy) + (copy_w as int) * 3 <= out@.len());
        assert(((y + src_off_y) as int) * (src_stride as int) == (yy + plan.src_off.1) * (plan.src_w as int) * 4) by (nonlinear_arith)
            requires
                src_stride == plan.src_w * 4,
                src_off_y == plan.src_off.1,
                yy == y,
        ;
        assert(((y + dst_off_y) as int) * (dst_stride as int) == (yy + plan.dst_off.1) * (plan.target.0 as int) * 3) by (nonlinear_arith)
            requires
                dst_stride == target_w * 3,
                dst_off_y == plan.dst_off.1,
                target_w == plan.target.0,
                yy == y,
        ;
        assert(0 <= ((y + src_off_y) as int) * (src_stride as int)) by (nonlinear_arith);
        assert(0 <= ((y + dst_off_y) as int) * (dst_stride as int)) by (nonlinear_arith);
        let rlen = rgba.len();
        let olen = out.len();
        let src_row_start: usize = ((y + src_off_y) as usize) * src_stride + (src_off_x as usize) * 4;
        let dst_row_start: usize = ((y + dst_off_y) as usize) * dst_stride + (dst_off_x as usize) * 3;
        let src_row = &rgba[src_row_start..src_row_start + copy_w_us * 4];
        let row_len: usize = copy_w_us * 3;
        let mut row: Vec<u8> = Vec::new();
        let mut k: usize = 0;
        while k < row_len
            invariant
                k <= row_len,
                row@.len() == k,
            decreases row_len - k,
        {
            row.push(0);
            k = k + 1;
        }
        composite_row_over_black(src_row, row.as_mut_slice());
        let ghost before = out@;
        let mut k: usize = 0;
        while k < row_len
            invariant
                k <= row_len,
                row_len == copy_w_us * 3,
                row@.len() == row_len,
                dst_row_start + row_len <= out@.len(),
                olen == out@.len(),
                out@.len() == before.len(),
                forall|j: int| 0 <= j < before.len() ==> #[trigger] out@[j] == if dst_row_start <= j < dst_row_start + k {
                    row@[j - dst_row_start]
                } else {
                    before[j]
                },
            decreases row_len - k,
        {
            out.set(dst_row_start + k, row[k]);
            k = k + 1;
        }
        assert(out@ =~= splice(before, dst_row_start as int, row@));
        y = y + 1;
    }
    out
}

/// The plan that letterboxes an `inner_w` by `inner_h` image, centered, on
/// a `target_w` by `target_h` canvas.
pub open spec fn letterbox_plan(inner_w: u32, inner_h: u32, target_w: u32, target_h: u32) -> CompositePlan {
    CompositePlan {
        src_w: inner_w,
        src_off: (0, 0),
        dst_off: (
            (if target_w > inner_w { (target_w - inner_w) / 2 } else { 0 }) as u32,
            (if target_h > inner_h { (target_h - inner_h) / 2 } else { 0 }) as u32,
        ),
        copy: (
            if inner_w < target_w { inner_w } else { target_w },
            if inner_h < target_h { inner_h } else { target_h },
        ),
        target: (target_w, target_h),
    }
}

/// The plan that crops the center of an `inner_w` by `inner_h` image to a
/// `target_w` by `target_h` canvas.
pub open spec fn cover_plan(inner_w: u32, inner_h: u32, target_w: u32, target_h: u32) -> CompositePlan {
    CompositePlan {
        src_w: inner_w,
        src_off: (
            (if inner_w > target_w { (inner_w - target_w) / 2 } else { 0 }) as u32,
            (if inner_h > target_h { (inner_h - target_h) / 2 } else { 0 }) as u32,
        ),
        dst_off: (0, 0),
        copy: (
            if target_w < inner_w { target_w } else { inner_w },
            if target_h < inner_h { target_h } else { inner_h },
        ),
        target: (target_w, target_h),
    }
}

fn letterbox_plan_exec(inner_w: u32, inner_h: u32, target_w: u32, target_h: u32) -> (p: CompositePlan)
    ensures
        p == letterbox_plan(inner_w, inner_h, target_w, target_h),
{
    CompositePlan {
        src_w: inner_w,
        src_off: (0, 0),
        dst_off: (
            if target_w > inner_w {
                (target_w - inner_w) / 2
            } else {
                0
            },
            if target_h > inner_h {
                (target_h - inner_h) / 2
            } else {
                0
            },
        ),
        copy: (
            if inner_w < target_w {
                inner_w
            } else {
                target_w
            },
            if inner_h < target_h {
                inner_h
            } else {
                target_h
            },
        ),
        target: (target_w, target_h),
    }
}

fn cover_plan_exec(inner_w: u32, inner_h: u32, target_w: u32, target_h: u32) -> (p: CompositePlan)
    ensures
        p == cover_plan(inner_w, inner_h, target_w, target_h),
{
    CompositePlan {
        src_w: inner_w,
        src_off: (
            if inner_w > target_w {
                (inner_w - target_w) / 2
            } else {
                0
            },
            if inner_h > target_h {
                (inner_h - target_h) / 2
            } else {
                0
            },
        ),
        dst_off: (0, 0),
        copy: (
            if target_w < inner_w {
                target_w
            } else {
                inner_w
            },
            if target_h < inner_h {
                target_h
            } else {
                inner_h
            },
        ),
        target: (target_w, target_h),
    }
}

proof fn lemma_scaled_monotone(a: int, b: int, w: int, k: int)
    by (nonlinear_arith)
    requires
        0 <= a <= b,
        0 <= w,
        0 <= k,
    ensures
        a * w * k <= b * w * k,
{
}

/// Checks [`composite_fits`]; the row offsets grow with the row, so the
/// last row of the region decides the row conditions.
pub fn composite_fits_check(src_len: usize, plan: &CompositePlan) -> (r: bool)
    ensures
        r == composite_fits(src_len as nat, *plan),
{
    let tw = plan.target.0 as u128;
    let th = plan.target.1 as u128;
    assert(tw * th <= 0xFFFF_FFFF * 0xFFFF_FFFFu128) by (nonlinear_arith)
        requires
            tw <= 0xFFFF_FFFF,
            th <= 0xFFFF_FFFF,
    ;
    let total: u128 = tw * th * 3;
    if total > 0xFFFF_FFFF || (plan.src_w as u128) * 4 > (usize::MAX as u128) || tw * 3 > (usize::MAX as u128) {
        return false;
    }
    if plan.copy.1 == 0 {
        return true;
    }
    let y: u128 = (plan.copy.1 - 1) as u128;
    let sy: u128 = y + (plan.src_off.1 as u128);
    let dy: u128 = y + (plan.dst_off.1 as u128);
    assert(sy * (plan.src_w as u128) <= 0x1_FFFF_FFFF * 0xFFFF_FFFFu128) by (nonlinear_arith)
        requires
            sy <= 0x1_FFFF_FFFF,
            plan.src_w <= 0xFFFF_FFFF,
    ;
    assert(dy * tw <= 0x1_FFFF_FFFF * 0xFFFF_FFFFu128) by (nonlinear_arith)
        requires
            dy <= 0x1_FFFF_FFFF,
            tw <= 0xFFFF_FFFF,
    ;
    let src_end: u128 = sy * (plan.src_w as u128) * 4 + (plan.src_off.0 as u128) * 4 + (plan.copy.0 as u128) * 4;
    let dst_end: u128 = dy * tw * 3 + (plan.dst_off.0 as u128) * 3 + (plan.copy.0 as u128) * 3;
    let ok = src_end <= (src_len as u128) && sy <= 0xFFFF_FFFF && dy <= 0xFFFF_FFFF && dst_end <= total;
    let ghost last = y as int;
    assert(src_row_start(*plan, last) + (plan.copy.0 as int) * 4 == src_end);
    assert(dst_row_start(*plan, last) + (plan.copy.0 as int) * 3 == dst_end);
    if ok {
        assert forall|yy: int| 0 <= yy < plan.copy.1 implies {
            &&& #[trigger] src_row_start(*plan, yy) + (plan.copy.0 as int) * 4 <= src_len
            &&& yy + plan.src_off.1 <= u32::MAX
            &&& yy + plan.dst_off.1 <= u32::MAX
            &&& dst_row_start(*plan, yy) + (plan.copy.0 as int) * 3 <= plan.target.0 * plan.target.1 * 3
        } by {
            lemma_scaled_monotone(yy + plan.src_off.1, last + plan.src_off.1, plan.src_w as int, 4);
            lemma_scaled_monotone(yy + plan.dst_off.1, last + plan.dst_off.1, plan.target.0 as int, 3);
        }
        assert(plan.target.0 * plan.target.1 * 3 <= u32::MAX);
        assert(plan.src_w * 4 <= usize::MAX);
        assert(plan.target.0 * 3 <= usize::MAX);
        assert(composite_fits(src_len as nat, *plan));
    } else {
        assert(!(src_row_start(*plan, last) + (plan.copy.0 as int) * 4 <= src_len && last + plan.src_off.1
            <= u32::MAX && last + plan.dst_off.1 <= u32::MAX && dst_row_start(*plan, last) + (plan.copy.0 as int) * 3
            <= plan.target.0 * plan.target.1 * 3));
    }
    ok
}

/// Whether [`letterbox_rgba_to_rgb888`] may be called: checks
/// [`composite_fits`] for the letterbox placement.
pub fn letterbox_fits(src_len: usize, inner_w: u32, inner_h: u32, target_w: u32, target_h: u32) -> (r: bool)
    ensures
        r == composite_fits(src_len as nat, letterbox_plan(inner_w, inner_h, target_w, target_h)),
{
    let plan = letterbox_plan_exec(inner_w, inner_h, target_w, target_h);
    composite_fits_check(src_len, &plan)
}

/// Whether [`cover_rgba_to_rgb888`] may be called: checks
/// [`composite_fits`] for the cover placement.
pub fn cover_fits(src_len: usize, inner_w: u32, inner_h: u32, target_w: u32, target_h: u32) -> (r: bool)
    ensures
        r == composite_fits(src_len as nat, cover_plan(inner_w, inner_h, target_w, target_h)),
{
    let plan = cover_plan_exec(inner_w, inner_h, target_w, target_h);
    composite_fits_check(src_len, &plan)
}

/// Letterboxing centers a smaller image: with `left = (target_w -
/// inner_w) / 2` and `top = (target_h - inner_h) / 2`, the target pixel
/// `(x, y)` shows source pixel `(x - left, y - top)` blended against black
/// where that lies in the source, and black elsewhere, so the margins on
/// opposite sides differ by at most one pixel.
pub proof fn lemma_letterbox_centers(rgba: Seq<u8>, inner_w: u32, inner_h: u32, target_w: u32, target_h: u32)
    requires
        composite_fits(rgba.len(), letterbox_plan(inner_w, inner_h, target_w, target_h)),
        inner_w <= target_w,
        inner_h <= target_h,
    ensures
        forall|x: int, y: int, c: int|
            0 <= x < target_w && 0 <= y < target_h && 0 <= c < 3 ==> #[trigger] rgb_at(
                composite_rows(
                    rgba,
                    letterbox_plan(inner_w, inner_h, target_w, target_h),
                    letterbox_plan(inner_w, inner_h, target_w, target_h).copy.1 as int,
                ),
                target_w as int,
                x,
                y,
                c,
            ) == (if (target_w - inner_w) / 2 <= x < (target_w - inner_w) / 2 + inner_w && (target_h - inner_h) / 2
                <= y < (target_h - inner_h) / 2 + inner_h {
                blended_at(rgba, inner_w as int, x - (target_w - inner_w) / 2, y - (target_h - inner_h) / 2, c)
            } else {
                0u8
            }),
{
    let plan = letterbox_plan(inner_w, inner_h, target_w, target_h);
    assert forall|x: int, y: int, c: int|
        0 <= x < target_w && 0 <= y < target_h && 0 <= c < 3 implies #[trigger] rgb_at(
        composite_rows(rgba, plan, plan.copy.1 as int),
        target_w as int,
        x,
        y,
        c,
    ) == (if (target_w - inner_w) / 2 <= x < (target_w - inner_w) / 2 + inner_w && (target_h - inner_h) / 2 <= y
        < (target_h - inner_h) / 2 + inner_h {
        blended_at(rgba, inner_w as int, x - (target_w - inner_w) / 2, y - (target_h - inner_h) / 2, c)
    } else {
        0u8
    }) by {
        lemma_composite_pixel(rgba, plan, plan.copy.1 as int, x, y, c);
    }
}

/// Covering crops the center of a larger image: with `left = (inner_w -
/// target_w) / 2` and `top = (inner_h - target_h) / 2`, every target pixel
/// `(x, y)` shows source pixel `(x + left, y + top)` blended against black.
pub proof fn lemma_cover_centers(rgba: Seq<u8>, inner_w: u32, inner_h: u32, target_w: u32, target_h: u32)
    requires
        composite_fits(rgba.len(), cover_plan(inner_w, inner_h, target_w, target_h)),
        target_w <= inner_w,
        target_h <= inner_h,
    ensures
        forall|x: int, y: int, c: int|
            0 <= x < target_w && 0 <= y < target_h && 0 <= c < 3 ==> #[trigger] rgb_at(
                composite_rows(
                    rgba,
                    cover_plan(inner_w, inner_h, target_w, target_h),
                    cover_plan(inner_w, inner_h, target_w, target_h).copy.1 as int,
                ),
                target_w as int,
                x,
                y,
                c,
            ) == blended_at(rgba, inner_w as int, x + (inner_w - target_w) / 2, y + (inner_h - target_h) / 2, c),
{
    let plan = cover_plan(inner_w, inner_h, target_w, target_h);
    assert forall|x: int, y: int, c: int|
        0 <= x < target_w && 0 <= y < target_h && 0 <= c < 3 implies #[trigger] rgb_at(
        composite_rows(rgba, plan, plan.copy.1 as int),
        target_w as int,
        x,
        y,
        c,
    ) == blended_at(rgba, inner_w as int, x + (inner_w - target_w) / 2, y + (inner_h - target_h) / 2, c) by {
        lemma_composite_pixel(rgba, plan, plan.copy.1 as int, x, y, c);
    }
}

/// Letterboxes a smaller RGBA image onto a black canvas.
pub fn letterbox_rgba_to_rgb888(rgba: &[u8], inner_w: u32, inner_h: u32, target_w: u32, target_h: u32) -> (out: Vec<u8>)
    requires
        composite_fits(rgba@.len(), letterbox_plan(inner_w, inner_h, target_w, target_h)),
    ensures
        out@ == composite_rows(
            rgba@,
            letterbox_plan(inner_w, inner_h, target_w, target_h),
            letterbox_plan(inner_w, inner_h, target_w, target_h).copy.1 as int,
        ),
        inner_w <= target_w && inner_h <= target_h ==> forall|x: int, y: int, c: int|
            0 <= x < target_w && 0 <= y < target_h && 0 <= c < 3 ==> #[trigger] rgb_at(out@, target_w as int, x, y, c)
                == (if (target_w - inner_w) / 2 <= x < (target_w - inner_w) / 2 + inner_w && (target_h - inner_h) / 2
                <= y < (target_h - inner_h) / 2 + inner_h {
                blended_at(rgba@, inner_w as int, x - (target_w - inner_w) / 2, y - (target_h - inner_h) / 2, c)
            } else {
                0u8
            }),
{
    let off_x: u32 = if target_w > inner_w {
        (target_w - inner_w) / 2
    } else {
        0
    };
    let off_y: u32 = if target_h > inner_h {
        (target_h - inner_h) / 2
    } else {
        0
    };
    let copy_w: u32 = if inner_w < target_w {
        inner_w
    } else {
        target_w
    };
    let copy_h: u32 = if inner_h < target_h {
        inner_h
    } else {
        target_h
    };
    let plan = CompositePlan {
        src_w: inner_w,
        src_off: (0, 0),
        dst_off: (off_x, off_y),
        copy: (copy_w, copy_h),
        target: (target_w, target_h),
    };
    assert(plan == letterbox_plan(inner_w, inner_h, target_w, target_h));
    let out = composite_rgba_to_rgb888(rgba, &plan);
    proof {
        if inner_w <= target_w && inner_h <= target_h {
            lemma_letterbox_centers(rgba@, inner_w, inner_h, target_w, target_h);
        }
    }
    out
}

/// Crops the center of a larger RGBA image onto a canvas.
pub fn cover_rgba_to_rgb888(rgba: &[u8], inner_w: u32, inner_h: u32, target_w: u32, target_h: u32) -> (out: Vec<u8>)
    requires
        composite_fits(rgba@.len(), cover_plan(inner_w, inner_h, target_w, target_h)),
    ensures
        out@ == composite_rows(
            rgba@,
            cover_plan(inner_w, inner_h, target_w, target_h),
            cover_plan(inner_w, inner_h, target_w, target_h).copy.1 as int,
        ),
        target_w <= inner_w && target_h <= inner_h ==> forall|x: int, y: int, c: int|
            0 <= x < target_w && 0 <= y < target_h && 0 <= c < 3 ==> #[trigger] rgb_at(out@, target_w as int, x, y, c)
                == blended_at(rgba@, inner_w as int, x + (inner_w - target_w) / 2, y + (inner_h - target_h) / 2, c),
{
    let off_x: u32 = if inner_w > target_w {
        (inner_w - target_w) / 2
    } else {
        0
    };
    let off_y: u32 = if inner_h > target_h {
        (inner_h - target_h) / 2
    } else {
        0
    };
    let copy_w: u32 = if target_w < inner_w {
        target_w
    } else {
        inner_w
    };
    let copy_h: u32 = if target_h < inner_h {
        target_h
    } else {
        inner_h
    };
    let plan = CompositePlan {
        src_w: inner_w,
        src_off: (off_x, off_y),
        dst_off: (0, 0),
        copy: (copy_w, copy_h),
        target: (target_w, target_h),
    };
    assert(plan == cover_plan(inner_w, inner_h, target_w, target_h));
    let out = composite_rgba_to_rgb888(rgba, &plan);
    proof {
        if target_w <= inner_w && target_h <= inner_h {
            lemma_cover_centers(rgba@, inner_w, inner_h, target_w, target_h);
        }
    }
    out
}


// ---------------------------------------------------------------------------
// The resizer
// ---------------------------------------------------------------------------

/// The algorithms of the resizer that the resampling methods map to: the
/// nearest neighbour, and convolution with one of four filters.
#[derive(Debug, Clone, Copy, PartialEq, Eq, Structural)]
pub enum ResizeFilter {
    Nearest,
    Box,
    Bilinear,
    CatmullRom,
    Lanczos3,
}

/// What `fast_image_resize::Resizer::resize` makes of an RGBA8 image of
/// `src_w` by `src_h` held in `src` at `dst_w` by `dst_h` with the
/// filter: the resized bytes, or the text of the error.
pub uninterp spec fn resized_u8x4(
    src: Seq<u8>,
    src_w: u32,
    src_h: u32,
    dst_w: u32,
    dst_h: u32,
    filter: ResizeFilter,
) -> Result<Seq<u8>, Seq<char>>;

/// The same for four 16-bit channels per pixel.
pub uninterp spec fn resized_u16x4(
    src: Seq<u16>,
    src_w: u32,
    src_h: u32,
    dst_w: u32,
    dst_h: u32,
    filter: ResizeFilter,
) -> Result<Seq<u16>, Seq<char>>;

/// `ImageRef::new` over the source (refused when the buffer holds fewer
/// than `src_w * src_h * 4` bytes), `Image::new` for a destination of
/// `dst_w * dst_h * 4` bytes, `Resizer::resize` with the filter, and the
/// destination's bytes.
#[verifier::external_body]
fn resize_u8x4_raw(src: &[u8], src_w: u32, src_h: u32, dst_w: u32, dst_h: u32, filter: ResizeFilter) -> (r: Result<
    Vec<u8>,
    String,
>)
    requires
        (src_w as int) * (src_h as int) * 4 <= usize::MAX,
        (dst_w as int) * (dst_h as int) * 4 <= isize::MAX,
    ensures
        match resized_u8x4(src@, src_w, src_h, dst_w, dst_h, filter) {
            Ok(px) => r matches Ok(v) && v@ == px,
            Err(m) => r matches Err(s) && s@ == m,
        },
        r matches Ok(v) ==> v@.len() == (dst_w as int) * (dst_h as int) * 4,
        r matches Err(s) ==> src@.len() >= (src_w as int) * (src_h as int) * 4 || s@ == "Size of buffer is smaller than required"@,
        src@.len() < (src_w as int) * (src_h as int) * 4 ==> r is Err,
{
    let src_image = ImageRef::new(src_w, src_h, src, PixelType::U8x4).map_err(|e| e.to_string())?;
    let mut dst_image = Image::new(dst_w, dst_h, PixelType::U8x4);
    let alg = match filter {
        ResizeFilter::Nearest => ResizeAlg::Nearest,
        ResizeFilter::Box => ResizeAlg::Convolution(FilterType::Box),
        ResizeFilter::Bilinear => ResizeAlg::Convolution(FilterType::Bilinear),
        ResizeFilter::CatmullRom => ResizeAlg::Convolution(FilterType::CatmullRom),
        ResizeFilter::Lanczos3 => ResizeAlg::Convolution(FilterType::Lanczos3),
    };
    Resizer::new().resize(&src_image, &mut dst_image, &ResizeOptions::new().resize_alg(alg))
        .map_err(|e| e.to_string())?;
    Ok(dst_image.into_vec())
}

/// `ImageRef::new` over the source's bytes (refused when they hold fewer
/// than `src_w * src_h * 4` channels), `Image::new` for a destination of
/// `dst_w * dst_h * 4` channels, `Resizer::resize` with the filter, and
/// the destination's channels.
#[verifier::external_body]
fn resize_u16x4_raw(src: &[u16], src_w: u32, src_h: u32, dst_w: u32, dst_h: u32, filter: ResizeFilter) -> (r: Result<
    Vec<u16>,
    String,
>)
    requires
        (src_w as int) * (src_h as int) * 8 <= usize::MAX,
        (dst_w as int) * (dst_h as int) * 8 <= isize::MAX,
    ensures
        match resized_u16x4(src@, src_w, src_h, dst_w, dst_h, filter) {
            Ok(px) => r matches Ok(v) && v@ == px,
            Err(m) => r matches Err(s) && s@ == m,
        },
        r matches Ok(v) ==> v@.len() == (dst_w as int) * (dst_h as int) * 4,
        r matches Err(s) ==> src@.len() >= (src_w as int) * (src_h as int) * 4 || s@ == "Size of buffer is smaller than required"@,
        src@.len() < (src_w as int) * (src_h as int) * 4 ==> r is Err,
{
    let bytes: &[u8] = bytemuck::cast_slice(src);
    let src_image = ImageRef::new(src_w, src_h, bytes, PixelType::U16x4).map_err(|e| e.to_string())?;
    let mut dst_image = Image::new(dst_w, dst_h, PixelType::U16x4);
    let alg = match filter {
        ResizeFilter::Nearest => ResizeAlg::Nearest,
        ResizeFilter::Box => ResizeAlg::Convolution(FilterType::Box),
        ResizeFilter::Bilinear => ResizeAlg::Convolution(FilterType::Bilinear),
        ResizeFilter::CatmullRom => ResizeAlg::Convolution(FilterType::CatmullRom),
        ResizeFilter::Lanczos3 => ResizeAlg::Convolution(FilterType::Lanczos3),
    };
    Resizer::new().resize(&src_image, &mut dst_image, &ResizeOptions::new().resize_alg(alg))
        .map_err(|e| e.to_string())?;
    Ok(bytemuck::pod_collect_to_vec(&dst_image.into_vec()))
}

/// Resizes an RGBA8 image of `src_w` by `src_h` to `dst_w` by `dst_h`:
/// the resizer's result (see [`resized_u8x4`]), `dst_w * dst_h * 4` bytes
/// long; its error, among them a source buffer too short for its size, is
/// a resize error.
pub fn resize_rgba(src: &[u8], src_w: u32, src_h: u32, dst_w: u32, dst_h: u32, filter: ResizeFilter) -> (r: Result<
    Vec<u8>,
    ImageError,
>)
    requires
        (src_w as int) * (src_h as int) * 4 <= usize::MAX,
        (dst_w as int) * (dst_h as int) * 4 <= isize::MAX,
    ensures
        match resized_u8x4(src@, src_w, src_h, dst_w, dst_h, filter) {
            Ok(px) => r matches Ok(v) && v@ == px && px.len() == (dst_w as int) * (dst_h as int) * 4,
            Err(m) => r matches Err(ImageError::Resize(s)) && s@ == m,
        },
        src@.len() < (src_w as int) * (src_h as int) * 4 ==> (r matches Err(ImageError::Resize(s)) && s@
            == "Size of buffer is smaller than required"@),
{
    match resize_u8x4_raw(src, src_w, src_h, dst_w, dst_h, filter) {
        Ok(v) => Ok(v),
        Err(m) => Err(ImageError::Resize(m)),
    }
}

/// Resizes an image of four 16-bit channels per pixel, as
/// [`resize_rgba`] does.
pub fn resize_u16x4(src: &[u16], src_w: u32, src_h: u32, dst_w: u32, dst_h: u32, filter: ResizeFilter) -> (r: Result<
    Vec<u16>,
    ImageError,
>)
    requires
        (src_w as int) * (src_h as int) * 8 <= usize::MAX,
        (dst_w as int) * (dst_h as int) * 8 <= isize::MAX,
    ensures
        match resized_u16x4(src@, src_w, src_h, dst_w, dst_h, filter) {
            Ok(px) => r matches Ok(v) && v@ == px && px.len() == (dst_w as int) * (dst_h as int) * 4,
            Err(m) => r matches Err(ImageError::Resize(s)) && s@ == m,
        },
        src@.len() < (src_w as int) * (src_h as int) * 4 ==> (r matches Err(ImageError::Resize(s)) && s@
            == "Size of buffer is smaller than required"@),
{
    match resize_u16x4_raw(src, src_w, src_h, dst_w, dst_h, filter) {
        Ok(v) => Ok(v),
        Err(m) => Err(ImageError::Resize(m)),
    }
}

} // verus!
