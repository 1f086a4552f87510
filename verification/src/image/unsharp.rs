//! The separable box blur of RGB888 images that sharpening subtracts: a
//! horizontal pass, then a vertical pass, each a sliding window of
//! half-width `r` clipped to the image, each average truncated.

use vstd::prelude::*;
use vstd::arithmetic::div_mod::lemma_fundamental_div_mod_converse;

verus! {

// ---------------------------------------------------------------------------
// Lane arithmetic of the `wide` crate
// ---------------------------------------------------------------------------

/// `u32x8 + u32x8` of the `wide` crate: lanewise wrapping addition.
#[verifier::external_body]
fn lanes_add(a: [u32; 8], b: [u32; 8]) -> (r: [u32; 8])
    ensures
        forall|i: int| 0 <= i < 8 ==> #[trigger] r[i] == (a[i] + b[i]) % 0x1_0000_0000,
{
    (wide::u32x8::new(a) + wide::u32x8::new(b)).to_array()
}

/// `u32x8 - u32x8` of the `wide` crate: lanewise wrapping subtraction.
#[verifier::external_body]
fn lanes_sub(a: [u32; 8], b: [u32; 8]) -> (r: [u32; 8])
    ensures
        forall|i: int| 0 <= i < 8 ==> #[trigger] r[i] == (a[i] - b[i]) % 0x1_0000_0000,
{
    (wide::u32x8::new(a) - wide::u32x8::new(b)).to_array()
}

// ---------------------------------------------------------------------------
// Windows
// ---------------------------------------------------------------------------

/// First position of the window around `x` (half-width `r`).
pub open spec fn win_lo(x: int, r: int) -> int {
    if x - r > 0 {
        x - r
    } else {
        0
    }
}

/// End (exclusive) of the window around `x` in `n` positions.
pub open spec fn win_end(x: int, r: int, n: int) -> int {
    if x + r + 1 < n {
        x + r + 1
    } else {
        n
    }
}

/// `s[base + k * step]` summed over `k` in `[a, b)`.
pub open spec fn strided_sum(s: Seq<u8>, base: int, step: int, a: int, b: int) -> int
    decreases b - a,
{
    if b <= a {
        0
    } else {
        strided_sum(s, base, step, a, b - 1) + s[base + (b - 1) * step]
    }
}

pub proof fn lemma_sum_drop_front(s: Seq<u8>, base: int, step: int, a: int, b: int)
    requires
        a < b,
    ensures
        strided_sum(s, base, step, a, b) == s[base + a * step] + strided_sum(s, base, step, a + 1, b),
    decreases b - a,
{
    if a + 1 < b {
        lemma_sum_drop_front(s, base, step, a, b - 1);
        assert(strided_sum(s, base, step, a + 1, b) == strided_sum(s, base, step, a + 1, b - 1) + s[base
            + (b - 1) * step]);
    } else {
        assert(strided_sum(s, base, step, a, a) == 0);
        assert(strided_sum(s, base, step, a + 1, b) == 0);
    }
}

pub proof fn lemma_sum_bound(s: Seq<u8>, base: int, step: int, a: int, b: int)
    ensures
        0 <= strided_sum(s, base, step, a, b),
        a <= b ==> strided_sum(s, base, step, a, b) <= 255 * (b - a),
    decreases b - a,
{
    if b > a {
        lemma_sum_bound(s, base, step, a, b - 1);
    }
}

/// The truncated average of the window around position `x` of `n`.
pub open spec fn window_avg(s: Seq<u8>, base: int, step: int, x: int, r: int, n: int) -> u8 {
    let a = win_lo(x, r);
    let b = win_end(x, r, n);
    (strided_sum(s, base, step, a, b) / (b - a)) as u8
}

/// The horizontal pass: byte `j` of row `y` (below `h` rows of `w` pixels)
/// is the average of its channel over the pixels of its row around it;
/// bytes past the rows are zero.
pub open spec fn hblur(src: Seq<u8>, w: int, h: int, r: int) -> Seq<u8> {
    let st = w * 3;
    Seq::new(
        src.len(),
        |j: int|
            if j < h * st {
                window_avg(src, (j / st) * st + (j % st) % 3, 3, (j % st) / 3, r, w)
            } else {
                0u8
            },
    )
}

/// The vertical pass over the horizontal one: byte `j` is the average of
/// the same byte of the rows around its row.
pub open spec fn box_blur(src: Seq<u8>, w: int, h: int, r: int) -> Seq<u8> {
    let st = w * 3;
    let t = hblur(src, w, h, r);
    Seq::new(
        src.len(),
        |j: int|
            if j < h * st {
                window_avg(t, j % st, st, j / st, r, h)
            } else {
                0u8
            },
    )
}

/// Sums stay within `u32` while a window holds one extra entry.
pub open spec fn sums_fit(n: int, r: int) -> bool {
    255 * (if n < 2 * r + 2 { n } else { 2 * r + 2 }) <= u32::MAX
}

/// The blur's inputs: a nonempty image held in `src`, a radius of at least
/// one, positions that stay `i32`, and window sums that stay `u32`.
pub open spec fn blur_ok(src_len: int, w: int, h: int, r: int) -> bool {
    &&& w >= 1
    &&& h >= 1
    &&& r >= 1
    &&& w + r <= 0x7FFF_FFFF
    &&& h + r <= 0x7FFF_FFFF
    &&& h * (w * 3) <= src_len
    &&& sums_fit(w, r)
    &&& sums_fit(h, r)
}

// ---------------------------------------------------------------------------
// Rows
// ---------------------------------------------------------------------------

/// Blurs one row of `w` pixels starting at byte `base` of `src` with a
/// sliding window, appending the row to `out`.
fn blur_row(src: &[u8], base: usize, w: usize, r: usize, out: &mut Vec<u8>)
    requires
        w >= 1,
        r >= 1,
        w + r <= 0x7FFF_FFFF,
        base + 3 * w <= src@.len(),
        sums_fit(w as int, r as int),
    ensures
        final(out)@.len() == old(out)@.len() + 3 * w,
        final(out)@.take(old(out)@.len() as int) == old(out)@,
        forall|i: int|
            0 <= i < 3 * w ==> #[trigger] final(out)@[old(out)@.len() + i] == window_avg(
                src@,
                base + i % 3,
                3,
                i / 3,
                r as int,
                w as int,
            ),
{
    let ghost s = src@;
    let ghost o0 = out@;
    let n: usize = src.len();
    let init_end: usize = if r < w - 1 {
        r
    } else {
        w - 1
    };
    let mut sr: u32 = 0;
    let mut sg: u32 = 0;
    let mut sb: u32 = 0;
    let mut xx: usize = 0;
    while xx <= init_end
        invariant
            xx <= init_end + 1,
            init_end < w,
            base + 3 * w <= s.len(),
            s.len() == n,
            s == src@,
            sr == strided_sum(s, base as int, 3, 0, xx as int),
            sg == strided_sum(s, base + 1, 3, 0, xx as int),
            sb == strided_sum(s, base + 2, 3, 0, xx as int),
            sums_fit(w as int, r as int),
            init_end <= r,
        decreases init_end + 1 - xx,
    {
        proof {
            lemma_sum_bound(s, base as int, 3, 0, xx as int);
            lemma_sum_bound(s, base + 1, 3, 0, xx as int);
            lemma_sum_bound(s, base + 2, 3, 0, xx as int);
        }
        sr = sr + (src[base + xx * 3] as u32);
        sg = sg + (src[base + xx * 3 + 1] as u32);
        sb = sb + (src[base + xx * 3 + 2] as u32);
        xx = xx + 1;
    }
    let mut count: u32 = (init_end as u32) + 1;
    let mut x: usize = 0;
    while x < w
        invariant
            x <= w,
            w >= 1,
            r >= 1,
            w + r <= 0x7FFF_FFFF,
            base + 3 * w <= s.len(),
            s.len() == n,
            s == src@,
            sums_fit(w as int, r as int),
            count == win_end(x as int, r as int, w as int) - win_lo(x as int, r as int),
            sr == strided_sum(s, base as int, 3, win_lo(x as int, r as int), win_end(x as int, r as int, w as int)),
            sg == strided_sum(s, base + 1, 3, win_lo(x as int, r as int), win_end(x as int, r as int, w as int)),
            sb == strided_sum(s, base + 2, 3, win_lo(x as int, r as int), win_end(x as int, r as int, w as int)),
            out@.len() == o0.len() + 3 * x,
            out@.take(o0.len() as int) == o0,
            forall|i: int|
                0 <= i < 3 * x ==> #[trigger] out@[o0.len() + i] == window_avg(s, base + i % 3, 3, i / 3, r as int, w as int),
        decreases w - x,
    {
        let ghost lo = win_lo(x as int, r as int);
        let ghost end = win_end(x as int, r as int, w as int);
        proof {
            lemma_sum_bound(s, base as int, 3, lo, end);
            lemma_sum_bound(s, base + 1, 3, lo, end);
            lemma_sum_bound(s, base + 2, 3, lo, end);
            assert(sr / count <= 255) by (nonlinear_arith)
                requires
                    sr <= 255 * count,
                    count >= 1,
            ;
            assert(sg / count <= 255) by (nonlinear_arith)
                requires
                    sg <= 255 * count,
                    count >= 1,
            ;
            assert(sb / count <= 255) by (nonlinear_arith)
                requires
                    sb <= 255 * count,
                    count >= 1,
            ;
        }
        let ghost before = out@;
        out.push((sr / count) as u8);
        out.push((sg / count) as u8);
        out.push((sb / count) as u8);
        assert forall|i: int| 0 <= i < 3 * (x + 1) implies #[trigger] out@[o0.len() + i] == window_avg(
            s,
            base + i % 3,
            3,
            i / 3,
            r as int,
            w as int,
        ) by {
            if i < 3 * x {
                assert(out@[o0.len() + i] == before[o0.len() + i]);
            } else {
                assert(i / 3 == x);
            }
        }
        assert(out@.take(o0.len() as int) =~= o0) by {
            assert(forall|k: int| 0 <= k < o0.len() ==> out@[k] == before[k]);
            assert(forall|k: int| 0 <= k < o0.len() ==> #[trigger] before.take(o0.len() as int)[k] == before[k]);
        }
        let incoming: usize = x + r + 1;
        if incoming < w {
            proof {
                lemma_sum_bound(s, base as int, 3, lo, end + 1);
                lemma_sum_bound(s, base + 1, 3, lo, end + 1);
                lemma_sum_bound(s, base + 2, 3, lo, end + 1);
            }
            sr = sr + (src[base + incoming * 3] as u32);
            sg = sg + (src[base + incoming * 3 + 1] as u32);
            sb = sb + (src[base + incoming * 3 + 2] as u32);
            count = count + 1;
        }
        if x >= r {
            let outgoing: usize = x - r;
            proof {
                let e2 = win_end(x + 1, r as int, w as int);
                lemma_sum_drop_front(s, base as int, 3, lo, e2);
                lemma_sum_drop_front(s, base + 1, 3, lo, e2);
                lemma_sum_drop_front(s, base + 2, 3, lo, e2);
                lemma_sum_bound(s, base as int, 3, lo + 1, e2);
                lemma_sum_bound(s, base + 1, 3, lo + 1, e2);
                lemma_sum_bound(s, base + 2, 3, lo + 1, e2);
            }
            sr = sr - (src[base + outgoing * 3] as u32);
            sg = sg - (src[base + outgoing * 3 + 1] as u32);
            sb = sb - (src[base + outgoing * 3 + 2] as u32);
            count = count - 1;
        }
        x = x + 1;
    }
}

// ---------------------------------------------------------------------------
// Column sums of the vertical pass
// ---------------------------------------------------------------------------

/// Adds `row[base + i]` to each `sums[i]`: eight lanes at a time, then the
/// tail one by one.
fn add_row_to_sums(sums: &mut Vec<u32>, row: &[u8], base: usize)
    requires
        base + old(sums)@.len() <= row@.len(),
        forall|i: int| 0 <= i < old(sums)@.len() ==> #[trigger] old(sums)@[i] + row@[base + i] <= u32::MAX,
    ensures
        final(sums)@.len() == old(sums)@.len(),
        forall|i: int|
            0 <= i < old(sums)@.len() ==> #[trigger] final(sums)@[i] == old(sums)@[i] + row@[base + i],
{
    let ghost s0 = sums@;
    let rl: usize = row.len();
    let n: usize = sums.len();
    let main_n: usize = n - n % 8;
    let mut i: usize = 0;
    while i < main_n
        invariant
            main_n <= n,
            main_n % 8 == 0,
            i % 8 == 0,
            i <= main_n,
            n == s0.len(),
            base + n <= row@.len(),
            row@.len() == rl,
            forall|k: int| 0 <= k < n ==> #[trigger] s0[k] + row@[base + k] <= u32::MAX,
            sums@.len() == n,
            forall|k: int| 0 <= k < i ==> #[trigger] sums@[k] == s0[k] + row@[base + k],
            forall|k: int| i <= k < n ==> #[trigger] sums@[k] == s0[k],
        decreases main_n - i,
    {
        let row_v: [u32; 8] = [
            row[base + i] as u32,
            row[base + i + 1] as u32,
            row[base + i + 2] as u32,
            row[base + i + 3] as u32,
            row[base + i + 4] as u32,
            row[base + i + 5] as u32,
            row[base + i + 6] as u32,
            row[base + i + 7] as u32,
        ];
        let sums_v: [u32; 8] = [
            sums[i],
            sums[i + 1],
            sums[i + 2],
            sums[i + 3],
            sums[i + 4],
            sums[i + 5],
            sums[i + 6],
            sums[i + 7],
        ];
        let lanes = lanes_add(sums_v, row_v);
        assert forall|m: int| 0 <= m < 8 implies #[trigger] lanes[m] == s0[i + m] + row@[base + i + m] by {
            assert(s0[i + m] + row@[base + (i + m)] <= u32::MAX);
        }
        let mut k: usize = 0;
        while k < 8
            invariant
                k <= 8,
                i + 8 <= n,
                sums@.len() == n,
                forall|m: int| 0 <= m < 8 ==> #[trigger] lanes[m] == s0[i + m] + row@[base + i + m],
                forall|q: int| 0 <= q < i ==> #[trigger] sums@[q] == s0[q] + row@[base + q],
                forall|q: int| i <= q < i + k ==> #[trigger] sums@[q] == s0[q] + row@[base + q],
                forall|q: int| i + k <= q < n ==> #[trigger] sums@[q] == s0[q],
            decreases 8 - k,
        {
            sums.set(i + k, lanes[k]);
            k = k + 1;
        }
        i = i + 8;
    }
    while i < n
        invariant
            i <= n,
            n == s0.len(),
            base + n <= row@.len(),
            row@.len() == rl,
            forall|k: int| 0 <= k < n ==> #[trigger] s0[k] + row@[base + k] <= u32::MAX,
            sums@.len() == n,
            forall|k: int| 0 <= k < i ==> #[trigger] sums@[k] == s0[k] + row@[base + k],
            forall|k: int| i <= k < n ==> #[trigger] sums@[k] == s0[k],
        decreases n - i,
    {
        assert(s0[i as int] + row@[base + i] <= u32::MAX);
        let v: u32 = sums[i] + (row[base + i] as u32);
        sums.set(i, v);
        i = i + 1;
    }
}

/// Takes `row[base + i]` from each `sums[i]`: eight lanes at a time, then
/// the tail one by one.
fn sub_row_from_sums(sums: &mut Vec<u32>, row: &[u8], base: usize)
    requires
        base + old(sums)@.len() <= row@.len(),
        forall|i: int| 0 <= i < old(sums)@.len() ==> #[trigger] old(sums)@[i] >= row@[base + i],
    ensures
        final(sums)@.len() == old(sums)@.len(),
        forall|i: int|
            0 <= i < old(sums)@.len() ==> #[trigger] final(sums)@[i] == old(sums)@[i] - row@[base + i],
{
    let ghost s0 = sums@;
    let rl: usize = row.len();
    let n: usize = sums.len();
    let main_n: usize = n - n % 8;
    let mut i: usize = 0;
    while i < main_n
        invariant
            main_n <= n,
            main_n % 8 == 0,
            i % 8 == 0,
            i <= main_n,
            n == s0.len(),
            base + n <= row@.len(),
            row@.len() == rl,
            forall|k: int| 0 <= k < n ==> #[trigger] s0[k] >= row@[base + k],
            sums@.len() == n,
            forall|k: int| 0 <= k < i ==> #[trigger] sums@[k] == s0[k] - row@[base + k],
            forall|k: int| i <= k < n ==> #[trigger] sums@[k] == s0[k],
        decreases main_n - i,
    {
        let row_v: [u32; 8] = [
            row[base + i] as u32,
            row[base + i + 1] as u32,
            row[base + i + 2] as u32,
            row[base + i + 3] as u32,
            row[base + i + 4] as u32,
            row[base + i + 5] as u32,
            row[base + i + 6] as u32,
            row[base + i + 7] as u32,
        ];
        let sums_v: [u32; 8] = [
            sums[i],
            sums[i + 1],
            sums[i + 2],
            sums[i + 3],
            sums[i + 4],
            sums[i + 5],
            sums[i + 6],
            sums[i + 7],
        ];
        let lanes = lanes_sub(sums_v, row_v);
        assert forall|m: int| 0 <= m < 8 implies #[trigger] lanes[m] == s0[i + m] - row@[base + i + m] by {
            assert(s0[i + m] >= row@[base + (i + m)]);
        }
        let mut k: usize = 0;
        while k < 8
            invariant
                k <= 8,
                i + 8 <= n,
                sums@.len() == n,
                forall|m: int| 0 <= m < 8 ==> #[trigger] lanes[m] == s0[i + m] - row@[base + i + m],
                forall|q: int| 0 <= q < i ==> #[trigger] sums@[q] == s0[q] - row@[base + q],
                forall|q: int| i <= q < i + k ==> #[trigger] sums@[q] == s0[q] - row@[base + q],
                forall|q: int| i + k <= q < n ==> #[trigger] sums@[q] == s0[q],
            decreases 8 - k,
        {
            sums.set(i + k, lanes[k]);
            k = k + 1;
        }
        i = i + 8;
    }
    while i < n
        invariant
            i <= n,
            n == s0.len(),
            base + n <= row@.len(),
            row@.len() == rl,
            forall|k: int| 0 <= k < n ==> #[trigger] s0[k] >= row@[base + k],
            sums@.len() == n,
            forall|k: int| 0 <= k < i ==> #[trigger] sums@[k] == s0[k] - row@[base + k],
            forall|k: int| i <= k < n ==> #[trigger] sums@[k] == s0[k],
        decreases n - i,
    {
        assert(s0[i as int] >= row@[base + i]);
        let v: u32 = sums[i] - (row[base + i] as u32);
        sums.set(i, v);
        i = i + 1;
    }
}

/// Appends the truncated average `sums[i] / count` of each column to `out`.
fn write_quotient_row(sums: &Vec<u32>, count: u32, out: &mut Vec<u8>)
    requires
        count >= 1,
        forall|i: int| 0 <= i < sums@.len() ==> #[trigger] sums@[i] <= 255 * count,
    ensures
        final(out)@.len() == old(out)@.len() + sums@.len(),
        final(out)@.take(old(out)@.len() as int) == old(out)@,
        forall|i: int|
            0 <= i < sums@.len() ==> #[trigger] final(out)@[old(out)@.len() + i] == (sums@[i] / count) as u8,
{
    let ghost o0 = out@;
    let mut i: usize = 0;
    while i < sums.len()
        invariant
            i <= sums@.len(),
            count >= 1,
            forall|k: int| 0 <= k < sums@.len() ==> #[trigger] sums@[k] <= 255 * count,
            out@.len() == o0.len() + i,
            out@.take(o0.len() as int) == o0,
            forall|k: int| 0 <= k < i ==> #[trigger] out@[o0.len() + k] == (sums@[k] / count) as u8,
        decreases sums@.len() - i,
    {
        let s: u32 = sums[i];
        assert(s / count <= 255) by (nonlinear_arith)
            requires
                s <= 255 * count,
                count >= 1,
        ;
        let ghost before = out@;
        out.push((s / count) as u8);
        assert(out@.take(o0.len() as int) =~= o0) by {
            assert(forall|k: int| 0 <= k < o0.len() ==> #[trigger] before.take(o0.len() as int)[k] == before[k]);
        }
        assert forall|k: int| 0 <= k < i + 1 implies #[trigger] out@[o0.len() + k] == (sums@[k] / count) as u8 by {
            if k < i {
                assert(out@[o0.len() + k] == before[o0.len() + k]);
            }
        }
        i = i + 1;
    }
}

// ---------------------------------------------------------------------------
// The blur
// ---------------------------------------------------------------------------

/// The half-width that the blur uses: the one asked for, and at least one.
pub open spec fn blur_radius(radius: u32) -> int {
    if radius < 1 {
        1
    } else {
        radius as int
    }
}

/// Whether [`box_blur_rgb888`] may be called: checks [`blur_ok`].
pub fn blur_fits(src_len: usize, width: u32, height: u32, radius: u32) -> (r: bool)
    ensures
        r == blur_ok(src_len as int, width as int, height as int, blur_radius(radius)),
{
    let rr: u128 = if radius < 1 {
        1
    } else {
        radius as u128
    };
    let w = width as u128;
    let h = height as u128;
    assert(h * (w * 3) <= 0xFFFF_FFFF * (0xFFFF_FFFFu128 * 3)) by (nonlinear_arith)
        requires
            w <= 0xFFFF_FFFF,
            h <= 0xFFFF_FFFF,
    ;
    let wn: u128 = if w < 2 * rr + 2 {
        w
    } else {
        2 * rr + 2
    };
    let hn: u128 = if h < 2 * rr + 2 {
        h
    } else {
        2 * rr + 2
    };
    w >= 1 && h >= 1 && w + rr <= 0x7FFF_FFFF && h + rr <= 0x7FFF_FFFF && h * (w * 3) <= (src_len as u128)
        && 255 * wn <= 0xFFFF_FFFF && 255 * hn <= 0xFFFF_FFFF
}

/// Separable box blur of the RGB888 image of `width` by `height` pixels at
/// the start of `src`, in O(width * height): a sliding window of half-width
/// `radius` (at least one) along each row, then down each column, each
/// clipped to the image and each average truncated. Bytes of `src` past the
/// image come out zero.
pub fn box_blur_rgb888(src: &[u8], width: u32, height: u32, radius: u32) -> (out: Vec<u8>)
    requires
        blur_ok(src@.len() as int, width as int, height as int, blur_radius(radius)),
    ensures
        out@ == box_blur(src@, width as int, height as int, blur_radius(radius)),
{
    let r: usize = if radius < 1 {
        1
    } else {
        radius as usize
    };
    let w: usize = width as usize;
    let h: usize = height as usize;
    let n: usize = src.len();
    proof {
        assert(w * 3 <= h * (w * 3)) by (nonlinear_arith)
            requires
                h >= 1,
                w >= 0,
        ;
    }
    let stride: usize = w * 3;
    let ghost st = stride as int;
    let ghost s = src@;
    let ghost ri = r as int;
    let ghost wi = w as int;
    let ghost hi = h as int;

    // Horizontal pass, row by row.
    let mut tmp: Vec<u8> = Vec::new();
    let mut y: usize = 0;
    while y < h
        invariant
            y <= h,
            w >= 1,
            r >= 1,
            w + r <= 0x7FFF_FFFF,
            sums_fit(wi, ri),
            wi == w,
            hi == h,
            ri == r,
            st == wi * 3,
            stride == st,
            h * st <= n,
            n == s.len(),
            s == src@,
            tmp@.len() == y * st,
            forall|j: int| 0 <= j < y * st ==> #[trigger] tmp@[j] == hblur(s, wi, hi, ri)[j],
        decreases h - y,
    {
        proof {
            assert((y + 1) * st == y * st + st) by (nonlinear_arith);
            assert((y + 1) * st <= h * st) by (nonlinear_arith)
                requires
                    y < h,
                    st >= 0,
            ;
        }
        let base: usize = y * stride;
        let ghost before = tmp@;
        blur_row(src, base, w, r, &mut tmp);
        assert forall|j: int| 0 <= j < (y + 1) * st implies #[trigger] tmp@[j] == hblur(s, wi, hi, ri)[j] by {
            if j < y * st {
                assert(tmp@.take(before.len() as int)[j] == tmp@[j]);
            } else {
                let c = j - y * st;
                lemma_fundamental_div_mod_converse(j, st, y as int, c);
                assert(tmp@[before.len() + c] == window_avg(s, base + c % 3, 3, c / 3, ri, wi));
            }
        }
        y = y + 1;
    }
    while tmp.len() < n
        invariant
            0 <= h * st <= tmp@.len() <= n,
            n == s.len(),
            forall|j: int| 0 <= j < h * st ==> #[trigger] tmp@[j] == hblur(s, wi, hi, ri)[j],
            forall|j: int| h * st <= j < tmp@.len() ==> #[trigger] tmp@[j] == 0u8,
        decreases n - tmp@.len(),
    {
        let ghost before = tmp@;
        tmp.push(0u8);
        assert forall|j: int| h * st <= j < tmp@.len() implies #[trigger] tmp@[j] == 0u8 by {
            if j < before.len() {
                assert(tmp@[j] == before[j]);
            }
        }
    }
    assert(tmp@ =~= hblur(s, wi, hi, ri));
    let ghost t = tmp@;

    // Vertical pass: running column sums over a window of rows.
    let mut sums: Vec<u32> = Vec::new();
    let mut c: usize = 0;
    while c < stride
        invariant
            c <= stride,
            sums@.len() == c,
            forall|k: int| 0 <= k < c ==> #[trigger] sums@[k] == 0u32,
        decreases stride - c,
    {
        sums.push(0u32);
        c = c + 1;
    }
    let init_end: usize = if r < h - 1 {
        r
    } else {
        h - 1
    };
    let mut yy: usize = 0;
    while yy <= init_end
        invariant
            yy <= init_end + 1,
            init_end < h,
            init_end <= r,
            hi == h,
            ri == r,
            h * st <= n,
            t.len() == n,
            tmp@ == t,
            st == stride,
            sums_fit(hi, ri),
            sums@.len() == st,
            forall|k: int| 0 <= k < st ==> #[trigger] sums@[k] == strided_sum(t, k, st, 0, yy as int),
        decreases init_end + 1 - yy,
    {
        proof {
            assert((yy + 1) * st <= h * st) by (nonlinear_arith)
                requires
                    yy < h,
                    st >= 0,
            ;
            assert((yy + 1) * st == yy * st + st) by (nonlinear_arith);
            assert forall|k: int| 0 <= k < st implies #[trigger] sums@[k] + t[yy * st + k] <= u32::MAX by {
                lemma_sum_bound(t, k, st, 0, yy as int);
            }
        }
        add_row_to_sums(&mut sums, tmp.as_slice(), yy * stride);
        yy = yy + 1;
    }
    let mut count: u32 = (init_end as u32) + 1;
    let mut out: Vec<u8> = Vec::new();
    let mut y: usize = 0;
    while y < h
        invariant
            y <= h,
            r >= 1,
            h + r <= 0x7FFF_FFFF,
            hi == h,
            ri == r,
            sums_fit(hi, ri),
            h * st <= n,
            t.len() == n,
            tmp@ == t,
            st == stride,
            sums@.len() == st,
            count == win_end(y as int, ri, hi) - win_lo(y as int, ri),
            forall|k: int|
                0 <= k < st ==> #[trigger] sums@[k] == strided_sum(
                    t,
                    k,
                    st,
                    win_lo(y as int, ri),
                    win_end(y as int, ri, hi),
                ),
            out@.len() == y * st,
            forall|j: int| 0 <= j < y * st ==> #[trigger] out@[j] == window_avg(t, j % st, st, j / st, ri, hi),
        decreases h - y,
    {
        let ghost lo = win_lo(y as int, ri);
        let ghost end = win_end(y as int, ri, hi);
        proof {
            assert((y + 1) * st == y * st + st) by (nonlinear_arith);
            assert forall|k: int| 0 <= k < st implies #[trigger] sums@[k] <= 255 * count by {
                lemma_sum_bound(t, k, st, lo, end);
            }
        }
        let ghost before = out@;
        write_quotient_row(&sums, count, &mut out);
        assert forall|j: int| 0 <= j < (y + 1) * st implies #[trigger] out@[j] == window_avg(
            t,
            j % st,
            st,
            j / st,
            ri,
            hi,
        ) by {
            if j < y * st {
                assert(out@.take(before.len() as int)[j] == out@[j]);
            } else {
                let c = j - y * st;
                lemma_fundamental_div_mod_converse(j, st, y as int, c);
                assert(out@[before.len() + c] == (sums@[c] / count) as u8);
            }
        }
        if y + r + 1 < h {
            let incoming: usize = y + r + 1;
            proof {
                assert((incoming + 1) * st <= h * st) by (nonlinear_arith)
                    requires
                        incoming < h,
                        st >= 0,
                ;
                assert((incoming + 1) * st == incoming * st + st) by (nonlinear_arith);
                assert forall|k: int| 0 <= k < st implies #[trigger] sums@[k] + t[incoming * st + k]
                    <= u32::MAX by {
                    lemma_sum_bound(t, k, st, lo, end + 1);
                }
            }
            add_row_to_sums(&mut sums, tmp.as_slice(), incoming * stride);
            count = count + 1;
        }
        let ghost e2 = win_end(y + 1, ri, hi);
        assert(forall|k: int| 0 <= k < st ==> #[trigger] sums@[k] == strided_sum(t, k, st, lo, e2));
        if y >= r {
            let outgoing: usize = y - r;
            proof {
                assert((outgoing + 1) * st <= h * st) by (nonlinear_arith)
                    requires
                        outgoing < h,
                        st >= 0,
                ;
                assert((outgoing + 1) * st == outgoing * st + st) by (nonlinear_arith);
                assert forall|k: int| 0 <= k < st implies #[trigger] sums@[k] >= t[outgoing * st + k]
                    && sums@[k] - t[outgoing * st + k] == strided_sum(t, k, st, lo + 1, e2) by {
                    lemma_sum_drop_front(t, k, st, lo, e2);
                    lemma_sum_bound(t, k, st, lo + 1, e2);
                }
            }
            sub_row_from_sums(&mut sums, tmp.as_slice(), outgoing * stride);
            count = count - 1;
        }
        y = y + 1;
    }
    while out.len() < n
        invariant
            0 <= h * st <= out@.len() <= n,
            forall|j: int| 0 <= j < h * st ==> #[trigger] out@[j] == window_avg(t, j % st, st, j / st, ri, hi),
            forall|j: int| h * st <= j < out@.len() ==> #[trigger] out@[j] == 0u8,
        decreases n - out@.len(),
    {
        let ghost before = out@;
        out.push(0u8);
        assert forall|j: int| h * st <= j < out@.len() implies #[trigger] out@[j] == 0u8 by {
            if j < before.len() {
                assert(out@[j] == before[j]);
            }
        }
    }
    assert(out@ =~= box_blur(s, wi, hi, ri));
    out
}

} // verus!
