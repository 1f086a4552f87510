//! RGB888 to RGB565 quantization with integer per-channel rounding.

use vstd::prelude::*;

use crate::output::sink::PixelFormat;

verus! {

#[derive(Debug, Clone, Copy, PartialEq, Eq, Structural)]
pub enum Endian {
    Le,
    Be,
}

pub open spec fn endian_of(format: PixelFormat) -> Option<Endian> {
    match format {
        PixelFormat::Rgb565Le => Some(Endian::Le),
        PixelFormat::Rgb565Be => Some(Endian::Be),
        PixelFormat::Rgb888 => None,
    }
}

pub fn endian_for(format: PixelFormat) -> (r: Option<Endian>)
    ensures
        r == endian_of(format),
{
    match format {
        PixelFormat::Rgb565Le => Some(Endian::Le),
        PixelFormat::Rgb565Be => Some(Endian::Be),
        PixelFormat::Rgb888 => None,
    }
}

/// An 8-bit channel rounded to 5 bits: `round(c * 31 / 255)`.
pub open spec fn q5(c: u8) -> u16 {
    ((c * 62 + 255) / 510) as u16
}

/// An 8-bit channel rounded to 6 bits: `round(c * 63 / 255)`.
pub open spec fn q6(c: u8) -> u16 {
    ((c * 126 + 255) / 510) as u16
}

/// The RGB565 value of a pixel: red in the top 5 bits, green in the middle
/// 6, blue in the low 5.
pub open spec fn rgb565(r: u8, g: u8, b: u8) -> u16 {
    (q5(r) * 2048 + q6(g) * 32 + q5(b)) as u16
}

/// The two bytes of a 16-bit value in the given byte order.
pub open spec fn u16_bytes(v: u16, e: Endian) -> Seq<u8> {
    match e {
        Endian::Le => seq![(v % 256) as u8, (v / 256) as u8],
        Endian::Be => seq![(v / 256) as u8, (v % 256) as u8],
    }
}

/// Output bytes `2k` and `2k + 1` are the RGB565 value of input pixel `k`
/// (bytes `3k..3k+3`), for every complete input pixel; a trailing partial
/// pixel is dropped.
pub open spec fn packed_565(input: Seq<u8>, e: Endian, out: Seq<u8>) -> bool {
    &&& out.len() == (input.len() / 3) * 2
    &&& forall|k: int|
        0 <= k < input.len() / 3 ==> {
            let v = rgb565(input[3 * k], input[3 * k + 1], input[3 * k + 2]);
            &&& #[trigger] out[2 * k] == u16_bytes(v, e)[0]
            &&& out[2 * k + 1] == u16_bytes(v, e)[1]
        }
}

pub proof fn lemma_q_bounds(c: u8)
    ensures
        q5(c) <= 31,
        q6(c) <= 63,
{
}

/// The red table: `q5(i) << 11` for each byte value.
pub fn build_r5_lut() -> (lut: Vec<u16>)
    ensures
        lut@.len() == 256,
        forall|i: int| 0 <= i < 256 ==> lut@[i] == q5(i as u8) * 2048,
{
    let mut lut: Vec<u16> = Vec::new();
    let mut i: u32 = 0;
    while i < 256
        invariant
            i <= 256,
            lut@.len() == i,
            forall|k: int| 0 <= k < i ==> lut@[k] == q5(k as u8) * 2048,
        decreases 256 - i,
    {
        let q: u16 = ((i * 31 * 2 + 255) / 510) as u16;
        assert(q == q5(i as u8));
        lut.push(q << 11);
        assert(q << 11 == q * 2048) by (bit_vector)
            requires
                q <= 31,
        ;
        i = i + 1;
    }
    lut
}

/// The green table: `q6(i) << 5` for each byte value.
pub fn build_g6_lut() -> (lut: Vec<u16>)
    ensures
        lut@.len() == 256,
        forall|i: int| 0 <= i < 256 ==> lut@[i] == q6(i as u8) * 32,
{
    let mut lut: Vec<u16> = Vec::new();
    let mut i: u32 = 0;
    while i < 256
        invariant
            i <= 256,
            lut@.len() == i,
            forall|k: int| 0 <= k < i ==> lut@[k] == q6(k as u8) * 32,
        decreases 256 - i,
    {
        let q: u16 = ((i * 63 * 2 + 255) / 510) as u16;
        assert(q == q6(i as u8));
        lut.push(q << 5);
        assert(q << 5 == q * 32) by (bit_vector)
            requires
                q <= 63,
        ;
        i = i + 1;
    }
    lut
}

/// The blue table: `q5(i)` for each byte value.
pub fn build_b5_lut() -> (lut: Vec<u16>)
    ensures
        lut@.len() == 256,
        forall|i: int| 0 <= i < 256 ==> lut@[i] == q5(i as u8),
{
    let mut lut: Vec<u16> = Vec::new();
    let mut i: u32 = 0;
    while i < 256
        invariant
            i <= 256,
            lut@.len() == i,
            forall|k: int| 0 <= k < i ==> lut@[k] == q5(k as u8),
        decreases 256 - i,
    {
        let q: u16 = ((i * 31 * 2 + 255) / 510) as u16;
        lut.push(q);
        i = i + 1;
    }
    lut
}

/// The three channel fields occupy disjoint bits, so or-ing them adds them.
proof fn lemma_fields_or(r: u16, g: u16, b: u16)
    requires
        r <= 31,
        g <= 63,
        b <= 31,
    ensures
        (r * 2048) as u16 | (g * 32) as u16 | b == r * 2048 + g * 32 + b,
{
    assert(((r * 2048) as u16 | (g * 32) as u16 | b) == r * 2048 + g * 32 + b) by (bit_vector)
        requires
            r <= 31,
            g <= 63,
            b <= 31,
    ;
}

/// Converts RGB triplets to RGB565, dropping any incomplete trailing pixel:
/// `(len / 3) * 2` bytes in the requested byte order (see [`packed_565`]).
pub fn rgb888_to_565(input: &[u8], endian: Endian) -> (out: Vec<u8>)
    ensures
        packed_565(input@, endian, out@),
{
    let lut_r = build_r5_lut();
    let lut_g = build_g6_lut();
    let lut_b = build_b5_lut();
    let n = input.len() / 3;
    let mut out: Vec<u8> = Vec::new();
    let mut k: usize = 0;
    let mut base: usize = 0;
    while k < n
        invariant
            n == input@.len() / 3,
            k <= n,
            base == 3 * k,
            out@.len() == 2 * k,
            lut_r@.len() == 256 && lut_g@.len() == 256 && lut_b@.len() == 256,
            forall|i: int| 0 <= i < 256 ==> lut_r@[i] == q5(i as u8) * 2048,
            forall|i: int| 0 <= i < 256 ==> lut_g@[i] == q6(i as u8) * 32,
            forall|i: int| 0 <= i < 256 ==> lut_b@[i] == q5(i as u8),
            forall|j: int|
                0 <= j < k ==> {
                    let v = rgb565(input@[3 * j], input@[3 * j + 1], input@[3 * j + 2]);
                    &&& #[trigger] out@[2 * j] == u16_bytes(v, endian)[0]
                    &&& out@[2 * j + 1] == u16_bytes(v, endian)[1]
                },
        decreases n - k,
    {
        assert(3 * k + 3 <= input@.len()) by (nonlinear_arith)
            requires
                k < n,
                n == input@.len() / 3,
        ;
        let r = input[base];
        let g = input[base + 1];
        let b = input[base + 2];
        let rv = lut_r[r as usize];
        let gv = lut_g[g as usize];
        let bv = lut_b[b as usize];
        proof {
            lemma_q_bounds(r);
            lemma_q_bounds(g);
            lemma_q_bounds(b);
            lemma_fields_or(q5(r), q6(g), q5(b));
        }
        let v: u16 = rv | gv | bv;
        assert(v == rgb565(r, g, b));
        let lo: u8 = (v % 256) as u8;
        let hi: u8 = (v / 256) as u8;
        match endian {
            Endian::Le => {
                out.push(lo);
                out.push(hi);
            },
            Endian::Be => {
                out.push(hi);
                out.push(lo);
            },
        }
        k = k + 1;
        base = base + 3;
    }
    out
}

/// The little- and big-endian packings of the same input differ only in the
/// order of the two bytes of each pixel.
pub proof fn lemma_le_be_swap(input: Seq<u8>, le: Seq<u8>, be: Seq<u8>)
    requires
        packed_565(input, Endian::Le, le),
        packed_565(input, Endian::Be, be),
    ensures
        le.len() == be.len(),
        forall|k: int| 0 <= k < input.len() / 3 ==> #[trigger] le[2 * k] == be[2 * k + 1] && le[2 * k + 1] == be[2 * k],
{
    assert forall|k: int| 0 <= k < input.len() / 3 implies #[trigger] le[2 * k] == be[2 * k + 1] && le[2 * k + 1] == be[2 * k] by {
        assert(le[2 * k] == u16_bytes(rgb565(input[3 * k], input[3 * k + 1], input[3 * k + 2]), Endian::Le)[0]);
        assert(be[2 * k] == u16_bytes(rgb565(input[3 * k], input[3 * k + 1], input[3 * k + 2]), Endian::Be)[0]);
    }
}

/// A frame in the requested format: RGB888 unchanged, RGB565 packed.
pub fn encode_frame(input: &[u8], format: PixelFormat) -> (r: Vec<u8>)
    ensures
        match endian_of(format) {
            None => r@ == input@,
            Some(e) => packed_565(input@, e, r@),
        },
{
    match format {
        PixelFormat::Rgb888 => {
            let mut v: Vec<u8> = Vec::new();
            let mut i: usize = 0;
            while i < input.len()
                invariant
                    i <= input.len(),
                    v@ =~= input@.take(i as int),
                decreases input.len() - i,
            {
                v.push(input[i]);
                i = i + 1;
            }
            v
        },
        PixelFormat::Rgb565Le => rgb888_to_565(input, Endian::Le),
        PixelFormat::Rgb565Be => rgb888_to_565(input, Endian::Be),
    }
}

} // verus!
