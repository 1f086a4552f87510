//! The integer stages of the still-image pipeline around the resize: the
//! gamma-aware path packs RGBA into 16-bit channels with color in linear
//! light (alpha widened by 257), resizes once, and narrows back to sRGB.

use vstd::prelude::*;

use crate::image::gamma::lemma_srgb_roundtrip;
use crate::image::gamma::linear_of;
use crate::image::gamma::linear_to_srgb_lut;
use crate::image::gamma::srgb_of;
use crate::image::gamma::srgb_to_linear_lut;
use crate::error::ImageError;
use crate::image::resize::resize_u16x4;
use crate::image::resize::resized_u16x4;
use crate::image::resize::ResizeFilter;

verus! {

/// Channel `j` of the 16-bit image packed from RGBA bytes: color in linear
/// light, alpha times 257.
pub open spec fn packed_channel(src: Seq<u8>, j: int) -> u16 {
    if j % 4 < 3 {
        linear_of(src[j])
    } else {
        (src[j] * 257) as u16
    }
}

/// Byte `j` narrowed back from a 16-bit image: color to sRGB, alpha
/// rounded from `v / 257`.
pub open spec fn unpacked_byte(dst: Seq<u16>, j: int) -> u8 {
    if j % 4 < 3 {
        srgb_of(dst[j])
    } else {
        ((dst[j] + 128) / 257) as u8
    }
}

/// Packs an RGBA image of `w` by `h` pixels (see [`packed_channel`]).
pub fn pack_linear(src: &[u8], w: u32, h: u32) -> (r: Vec<u16>)
    requires
        w * h <= u32::MAX,
        w * h * 4 <= src@.len(),
    ensures
        r@.len() == w * h * 4,
        forall|j: int| 0 <= j < r@.len() ==> #[trigger] r@[j] == packed_channel(src@, j),
{
    let to_linear = srgb_to_linear_lut();
    let len: usize = src.len();
    let n: usize = ((w * h) as usize) * 4;
    let mut r: Vec<u16> = Vec::new();
    let mut j: usize = 0;
    while j < n
        invariant
            n == w * h * 4,
            n <= src@.len(),
            len == src@.len(),
            j <= n,
            to_linear@.len() == 256,
            forall|k: int| 0 <= k < 256 ==> to_linear@[k] == linear_of(k as u8),
            r@.len() == j,
            forall|k: int| 0 <= k < j ==> #[trigger] r@[k] == packed_channel(src@, k),
        decreases n - j,
    {
        let b = src[j];
        if j % 4 < 3 {
            r.push(to_linear[b as usize]);
        } else {
            r.push((b as u16) * 257);
        }
        j = j + 1;
    }
    r
}

/// Narrows a 16-bit image of `w` by `h` pixels back to RGBA bytes (see
/// [`unpacked_byte`]).
pub fn unpack_linear(dst: &[u16], w: u32, h: u32) -> (r: Vec<u8>)
    requires
        w * h <= u32::MAX,
        w * h * 4 <= dst@.len(),
    ensures
        r@.len() == w * h * 4,
        forall|j: int| 0 <= j < r@.len() ==> #[trigger] r@[j] == unpacked_byte(dst@, j),
{
    let to_srgb = linear_to_srgb_lut();
    let len: usize = dst.len();
    let n: usize = ((w * h) as usize) * 4;
    let mut r: Vec<u8> = Vec::new();
    let mut j: usize = 0;
    while j < n
        invariant
            n == w * h * 4,
            n <= dst@.len(),
            len == dst@.len(),
            j <= n,
            to_srgb@.len() == 65536,
            forall|y: int| 0 <= y < 65536 ==> to_srgb@[y] == srgb_of(y as u16),
            r@.len() == j,
            forall|k: int| 0 <= k < j ==> #[trigger] r@[k] == unpacked_byte(dst@, k),
        decreases n - j,
    {
        let v = dst[j];
        if j % 4 < 3 {
            r.push(to_srgb[v as usize]);
        } else {
            r.push((((v as u32) + 128) / 257) as u8);
        }
        j = j + 1;
    }
    r
}

/// Packing and narrowing back give the original bytes: without resizing,
/// the gamma-aware path changes nothing.
pub proof fn lemma_pack_unpack_roundtrip(src: Seq<u8>, packed: Seq<u16>, j: int)
    requires
        0 <= j < src.len(),
        j < packed.len(),
        packed[j] == packed_channel(src, j),
    ensures
        unpacked_byte(packed, j) == src[j],
{
    if j % 4 < 3 {
        lemma_srgb_roundtrip(src[j]);
    } else {
        let a = src[j];
        assert((a * 257 + 128) / 257 == a) by (nonlinear_arith)
            requires
                0 <= a <= 255,
        ;
    }
}

/// The 16-bit image packed from an RGBA image of `w` by `h` pixels.
pub open spec fn packed_image(src: Seq<u8>, w: u32, h: u32) -> Seq<u16> {
    Seq::new((w * h * 4) as nat, |j: int| packed_channel(src, j))
}

/// The RGBA image of `w` by `h` pixels narrowed back from a 16-bit one.
pub open spec fn unpacked_image(dst: Seq<u16>, w: u32, h: u32) -> Seq<u8> {
    Seq::new((w * h * 4) as nat, |j: int| unpacked_byte(dst, j))
}

/// Gamma-aware resize: the source packed (see [`packed_image`]), resized
/// once with four 16-bit channels, and narrowed back (see
/// [`unpacked_image`]); the resizer's error is a resize error.
pub fn resize_rgba_gamma_aware(src: &[u8], src_w: u32, src_h: u32, dst_w: u32, dst_h: u32, filter: ResizeFilter) -> (r:
    Result<Vec<u8>, ImageError>)
    requires
        src_w * src_h <= u32::MAX,
        src_w * src_h * 4 <= src@.len(),
        dst_w * dst_h <= u32::MAX,
        (src_w as int) * (src_h as int) * 8 <= usize::MAX,
        (dst_w as int) * (dst_h as int) * 8 <= isize::MAX,
    ensures
        match resized_u16x4(packed_image(src@, src_w, src_h), src_w, src_h, dst_w, dst_h, filter) {
            Ok(px) => r matches Ok(v) && v@ == unpacked_image(px, dst_w, dst_h),
            Err(m) => r matches Err(ImageError::Resize(s)) && s@ == m,
        },
{
    let packed = pack_linear(src, src_w, src_h);
    assert(packed@ =~= packed_image(src@, src_w, src_h));
    let resized = match resize_u16x4(&packed, src_w, src_h, dst_w, dst_h, filter) {
        Ok(v) => v,
        Err(e) => {
            return Err(e);
        },
    };
    let out = unpack_linear(&resized, dst_w, dst_h);
    assert(out@ =~= unpacked_image(resized@, dst_w, dst_h));
    Ok(out)
}

} // verus!
