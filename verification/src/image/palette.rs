//! Palette-preserving resize for indexed images.
//!
//! The indices are resized nearest-neighbor, then mapped through the
//! palette: pixel-art LED content stays crisp, with none of the losses of
//! resampling RGB.

use vstd::prelude::*;

use crate::error::ImageError;
use crate::text::string_from_chars;
use crate::text::chars_of;

verus! {

#[derive(Debug, Clone)]
pub struct Paletted {
    pub indices: Vec<u8>,
    pub width: u32,
    pub height: u32,
    pub palette_rgb: Vec<[u8; 3]>,
    pub transparency_index: Option<u8>,
}

/// The source column (or row) sampled for destination column `x`: the
/// source pixel under the destination pixel's center,
/// `floor((x + 0.5) * src / dst)`, at most the last source column.
pub open spec fn nearest(x: int, src: int, dst: int) -> int {
    let v = ((2 * x + 1) * src) / (2 * dst);
    let last = if src >= 1 {
        src - 1
    } else {
        0
    };
    if v < last {
        v
    } else {
        last
    }
}

/// The color of a palette index: indices past the palette take its last
/// entry; the transparent index (clamped the same way) is black, the LED
/// background; an empty palette is black.
pub open spec fn palette_color(pal: Seq<[u8; 3]>, transparency: Option<u8>, idx: u8) -> [u8; 3] {
    let size: int = if pal.len() >= 1 {
        pal.len() as int
    } else {
        1
    };
    let i: int = if (idx as int) < size {
        idx as int
    } else {
        size - 1
    };
    let transparent = match transparency {
        Some(t) => i == (if (t as int) < size {
            t as int
        } else {
            size - 1
        }),
        None => false,
    };
    if transparent || i >= pal.len() {
        [0u8, 0u8, 0u8]
    } else {
        pal[i]
    }
}

/// The source pixel sampled for a destination pixel is the one under its
/// center: destination pixel `x` of `dst` covers the source from
/// `x * src / dst` to `(x + 1) * src / dst`, and its center `(x + 0.5) *
/// src / dst` lies in source pixel `nearest(x, src, dst)`, a pixel of the
/// source.
pub proof fn lemma_nearest_center(x: int, src: int, dst: int)
    requires
        0 <= x < dst,
        src >= 1,
    ensures
        0 <= nearest(x, src, dst) < src,
        nearest(x, src, dst) * 2 * dst <= (2 * x + 1) * src < (nearest(x, src, dst) + 1) * 2 * dst,
{
    let t = (2 * x + 1) * src;
    let v = t / (2 * dst);
    assert(0 <= t < 2 * dst * src) by (nonlinear_arith)
        requires
            0 <= x < dst,
            src >= 1,
            t == (2 * x + 1) * src,
    ;
    vstd::arithmetic::div_mod::lemma_fundamental_div_mod(t, 2 * dst);
    assert(0 <= t % (2 * dst) < 2 * dst) by {
        vstd::arithmetic::div_mod::lemma_mod_bound(t, 2 * dst);
    }
    assert(v < src) by (nonlinear_arith)
        requires
            t == (2 * dst) * v + t % (2 * dst),
            0 <= t % (2 * dst),
            t < 2 * dst * src,
            dst >= 1,
    ;
    assert(v >= 0) by (nonlinear_arith)
        requires
            t == (2 * dst) * v + t % (2 * dst),
            t % (2 * dst) < 2 * dst,
            t >= 0,
            dst >= 1,
    ;
    assert(nearest(x, src, dst) == v);
    assert(v * 2 * dst <= t < (v + 1) * 2 * dst) by (nonlinear_arith)
        requires
            t == (2 * dst) * v + t % (2 * dst),
            0 <= t % (2 * dst) < 2 * dst,
    ;
}

/// The position in the index buffer sampled for destination pixel `(x, y)`.
pub open spec fn source_pos(p: Paletted, dst_w: u32, dst_h: u32, x: int, y: int) -> int {
    nearest(y, p.height as int, dst_h as int) * (p.width as int) + nearest(x, p.width as int, dst_w as int)
}

/// Every sampled position lies in the index buffer.
pub open spec fn samples_in_bounds(p: Paletted, dst_w: u32, dst_h: u32) -> bool {
    forall|x: int, y: int|
        0 <= x < dst_w && 0 <= y < dst_h ==> 0 <= #[trigger] source_pos(p, dst_w, dst_h, x, y) < p.indices@.len()
}

/// Byte `j` of the output: channel `j % 3` of pixel `j / 3`, which lies at
/// column `(j / 3) % dst_w` of row `(j / 3) / dst_w`.
pub open spec fn resized_byte(p: Paletted, dst_w: u32, dst_h: u32, j: int) -> u8 {
    let k = j / 3;
    let x = k % (dst_w as int);
    let y = k / (dst_w as int);
    palette_color(p.palette_rgb@, p.transparency_index, p.indices@[source_pos(p, dst_w, dst_h, x, y)])[j % 3]
}

/// The output is `dst_w * dst_h` RGB888 pixels, row by row, each the
/// palette color of its nearest source index.
pub open spec fn resized_rgb(p: Paletted, dst_w: u32, dst_h: u32, out: Seq<u8>) -> bool {
    &&& out.len() == dst_w * dst_h * 3
    &&& forall|j: int| 0 <= j < out.len() ==> #[trigger] out[j] == resized_byte(p, dst_w, dst_h, j)
}

proof fn lemma_pixel_coords(x: int, y: int, w: int, c: int)
    requires
        0 <= x < w,
        0 <= y,
        0 <= c < 3,
    ensures
        ((y * w + x) * 3 + c) / 3 == y * w + x,
        ((y * w + x) * 3 + c) % 3 == c,
        (y * w + x) % w == x,
        (y * w + x) / w == y,
{
    vstd::arithmetic::div_mod::lemma_fundamental_div_mod_converse((y * w + x) * 3 + c, 3, y * w + x, c);
    vstd::arithmetic::div_mod::lemma_fundamental_div_mod_converse(y * w + x, w, y, x);
}

/// Source and destination sizes whose products, along each axis, stay
/// within 2^40: there the floating-point sampling of the nearest source
/// pixel, `floor((x + 0.5) * src / dst)`, is exact.
pub open spec fn exact_sampling(p: Paletted, dst_w: u32, dst_h: u32) -> bool {
    (p.width as int) * (dst_w as int) <= 0x100_0000_0000 && (p.height as int) * (dst_h as int) <= 0x100_0000_0000
}

fn nearest_table(src: u32, dst: u32) -> (t: Vec<u32>)
    requires
        (src as int) * (dst as int) <= 0x100_0000_0000,
        1 <= dst,
    ensures
        t@.len() == dst,
        forall|x: int| 0 <= x < dst ==> t@[x] == nearest(x, src as int, dst as int),
{
    let last: u64 = if src >= 1 {
        (src - 1) as u64
    } else {
        0
    };
    let mut t: Vec<u32> = Vec::new();
    let mut x: u32 = 0;
    while x < dst
        invariant
            x <= dst,
            (src as int) * (dst as int) <= 0x100_0000_0000,
            1 <= dst,
            last == (if src >= 1 { src - 1 } else { 0 }),
            t@.len() == x,
            forall|k: int| 0 <= k < x ==> t@[k] == nearest(k, src as int, dst as int),
        decreases dst - x,
    {
        assert((2 * (x as int) + 1) * (src as int) <= 0x200_0000_0000) by (nonlinear_arith)
            requires
                x < dst,
                (src as int) * (dst as int) <= 0x100_0000_0000,
        ;
        let v: u64 = ((2 * (x as u64) + 1) * (src as u64)) / (2 * (dst as u64));
        let s: u64 = if v < last {
            v
        } else {
            last
        };
        t.push(s as u32);
        x = x + 1;
    }
    t
}

impl Paletted {
    /// The palette expanded to RGB888 bytes, with the transparent index black.
    fn expanded_palette(&self) -> (r: Vec<u8>)
        ensures
            r@.len() == 3 * (if self.palette_rgb@.len() >= 1 { self.palette_rgb@.len() as int } else { 1 }),
            forall|i: int, c: int|
                0 <= i < r@.len() / 3 && i < 256 && 0 <= c < 3 ==> #[trigger] r@[3 * i + c] == palette_color(
                    self.palette_rgb@,
                    self.transparency_index,
                    i as u8,
                )[c],
    {
        let n = self.palette_rgb.len();
        let size: usize = if n >= 1 {
            n
        } else {
            1
        };
        let mut r: Vec<u8> = Vec::new();
        let mut i: usize = 0;
        let t: usize = match self.transparency_index {
            Some(t) => if (t as usize) < size {
                t as usize
            } else {
                size - 1
            },
            None => size,
        };
        while i < size
            invariant
                n == self.palette_rgb@.len(),
                size == (if n >= 1 { n } else { 1 }),
                t == (match self.transparency_index {
                    Some(tt) => if (tt as int) < size { tt as int } else { size - 1 },
                    None => size as int,
                }),
                i <= size,
                r@.len() == 3 * i,
                forall|k: int, c: int|
                    0 <= k < i && k < 256 && 0 <= c < 3 ==> #[trigger] r@[3 * k + c] == palette_color(
                        self.palette_rgb@,
                        self.transparency_index,
                        k as u8,
                    )[c],
            decreases size - i,
        {
            let rgb: [u8; 3] = if i == t || i >= n {
                [0u8, 0u8, 0u8]
            } else {
                self.palette_rgb[i]
            };
            proof {
                if i < 256 {
                    assert(((i as u8) as int) == i);
                    assert(rgb == palette_color(self.palette_rgb@, self.transparency_index, i as u8));
                }
            }
            r.push(rgb[0]);
            r.push(rgb[1]);
            r.push(rgb[2]);
            i = i + 1;
        }
        r
    }

    /// Resizes the indices nearest-neighbor, then expands them through the
    /// palette (see [`resized_rgb`]); zero destination dimensions are an
    /// error.
    pub fn resize_to_rgb888(&self, dst_w: u32, dst_h: u32) -> (r: Result<Vec<u8>, ImageError>)
        requires
            exact_sampling(*self, dst_w, dst_h),
            dst_w * dst_h * 3 <= u32::MAX,
            dst_w == 0 || dst_h == 0 || samples_in_bounds(*self, dst_w, dst_h),
        ensures
            dst_w == 0 || dst_h == 0 ==> (r matches Err(ImageError::Resize(m)) && m@ == "dst dimensions zero"@),
            dst_w != 0 && dst_h != 0 ==> (r matches Ok(out) && resized_rgb(*self, dst_w, dst_h, out@)),
    {
        if dst_w == 0 || dst_h == 0 {
            proof {
                reveal_strlit("dst dimensions zero");
            }
            return Err(ImageError::Resize(string_from_chars(&chars_of("dst dimensions zero"))));
        }
        let sx = nearest_table(self.width, dst_w);
        let sy = nearest_table(self.height, dst_h);
        let pal = self.expanded_palette();
        let size: usize = pal.len() / 3;
        let total: usize = ((dst_w * dst_h) as usize) * 3;
        let mut out: Vec<u8> = Vec::new();
        let mut y: u32 = 0;
        let w = self.width;
        while y < dst_h
            invariant
                sx@.len() == dst_w,
                sy@.len() == dst_h,
                forall|k: int| 0 <= k < dst_w ==> sx@[k] == nearest(k, self.width as int, dst_w as int),
                forall|k: int| 0 <= k < dst_h ==> sy@[k] == nearest(k, self.height as int, dst_h as int),
                y <= dst_h,
                w == self.width,
                out@.len() == (y as int) * (dst_w as int) * 3,
                forall|j: int| 0 <= j < out@.len() ==> #[trigger] out@[j] == resized_byte(*self, dst_w, dst_h, j),
                pal@.len() == 3 * size,
                size >= 1,
                size == (if self.palette_rgb@.len() >= 1 { self.palette_rgb@.len() as int } else { 1 }),
                forall|i: int, c: int|
                    0 <= i < size && i < 256 && 0 <= c < 3 ==> #[trigger] pal@[3 * i + c] == palette_color(
                        self.palette_rgb@,
                        self.transparency_index,
                        i as u8,
                    )[c],
                samples_in_bounds(*self, dst_w, dst_h),
                1 <= dst_w,
                dst_w * dst_h * 3 <= u32::MAX,
                exact_sampling(*self, dst_w, dst_h),
            decreases dst_h - y,
        {
            let mut x: u32 = 0;
            let syv = sy[y as usize];
            while x < dst_w
                invariant
                    sx@.len() == dst_w,
                    sy@.len() == dst_h,
                    forall|k: int| 0 <= k < dst_w ==> sx@[k] == nearest(k, self.width as int, dst_w as int),
                    syv == nearest(y as int, self.height as int, dst_h as int),
                    x <= dst_w,
                    y < dst_h,
                    w == self.width,
                    out@.len() == ((y as int) * (dst_w as int) + x) * 3,
                    forall|j: int| 0 <= j < out@.len() ==> #[trigger] out@[j] == resized_byte(*self, dst_w, dst_h, j),
                    pal@.len() == 3 * size,
                    size >= 1,
                    size == (if self.palette_rgb@.len() >= 1 { self.palette_rgb@.len() as int } else { 1 }),
                    forall|i: int, c: int|
                        0 <= i < size && i < 256 && 0 <= c < 3 ==> #[trigger] pal@[3 * i + c] == palette_color(
                            self.palette_rgb@,
                            self.transparency_index,
                            i as u8,
                        )[c],
                    samples_in_bounds(*self, dst_w, dst_h),
                    1 <= dst_w,
                    dst_w * dst_h * 3 <= u32::MAX,
                    exact_sampling(*self, dst_w, dst_h),
                decreases dst_w - x,
            {
                let sxv = sx[x as usize];
                assert(0 <= source_pos(*self, dst_w, dst_h, x as int, y as int) < self.indices@.len());
                assert(source_pos(*self, dst_w, dst_h, x as int, y as int) == (syv as int) * (w as int) + (sxv as int));
                let ilen = self.indices.len();
                let pos: usize = (syv as usize) * (w as usize) + (sxv as usize);
                let idx = self.indices[pos];
                let i: usize = if (idx as usize) < size {
                    idx as usize
                } else {
                    size - 1
                };
                assert(palette_color(self.palette_rgb@, self.transparency_index, idx) == palette_color(
                    self.palette_rgb@,
                    self.transparency_index,
                    i as u8,
                ));
                let ghost before = out@;
                let ghost xx = x as int;
                let ghost yy = y as int;
                let ghost ww = dst_w as int;
                proof {
                    lemma_pixel_coords(xx, yy, ww, 0);
                    lemma_pixel_coords(xx, yy, ww, 1);
                    lemma_pixel_coords(xx, yy, ww, 2);
                }
                out.push(pal[3 * i]);
                out.push(pal[3 * i + 1]);
                out.push(pal[3 * i + 2]);
                assert(self.indices@[pos as int] == idx);
                assert forall|j: int| 0 <= j < out@.len() implies #[trigger] out@[j] == resized_byte(*self, dst_w, dst_h, j) by {
                    if j < before.len() {
                        assert(out@[j] == before[j]);
                    } else {
                        let c = j - before.len();
                        assert(j == (yy * ww + xx) * 3 + c);
                        assert(j / 3 == yy * ww + xx);
                        assert(j % 3 == c);
                        assert((j / 3) % ww == xx);
                        assert((j / 3) / ww == yy);
                        assert(out@[j] == pal@[3 * (i as int) + c]);
                    }
                }
                x = x + 1;
            }
            assert(((y + 1) as int) * (dst_w as int) * 3 == ((y as int) * (dst_w as int) + dst_w) * 3) by (nonlinear_arith);
            y = y + 1;
        }
        assert(out@.len() == dst_w * dst_h * 3) by (nonlinear_arith)
            requires
                out@.len() == (dst_h as int) * (dst_w as int) * 3,
        ;
        Ok(out)
    }
}

} // verus!
