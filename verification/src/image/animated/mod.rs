//! Recognizing animated containers from their bytes, and alpha compositing
//! of animation frames.

use vstd::prelude::*;
use vstd::slice::SliceAdditionalExecFns;

use crate::error::ImageError;
use crate::outcome::Outcome;
use crate::text::chars_of;
use crate::text::string_from_chars;

pub mod apng;
pub mod cache;
pub mod gif;
pub mod webp;

verus! {

/// The containers that are told apart by their first bytes.
#[derive(Debug, Clone, Copy, PartialEq, Eq, Structural)]
pub enum Kind {
    Gif,
    Apng,
    Webp,
    SinglePng,
}

pub open spec fn starts_with_bytes(data: Seq<u8>, p: Seq<u8>) -> bool {
    p.len() <= data.len() && data.take(p.len() as int) == p
}

/// `GIF87a` and `GIF89a`.
pub open spec fn gif87() -> Seq<u8> {
    seq![0x47u8, 0x49, 0x46, 0x38, 0x37, 0x61]
}

pub open spec fn gif89() -> Seq<u8> {
    seq![0x47u8, 0x49, 0x46, 0x38, 0x39, 0x61]
}

/// The PNG signature's first four bytes, `\x89PNG`.
pub open spec fn png_magic() -> Seq<u8> {
    seq![0x89u8, 0x50, 0x4E, 0x47]
}

/// The chunk types `acTL` (animation control) and `IDAT` (image data).
pub open spec fn actl() -> Seq<u8> {
    seq![0x61u8, 0x63, 0x54, 0x4C]
}

pub open spec fn idat() -> Seq<u8> {
    seq![0x49u8, 0x44, 0x41, 0x54]
}

/// `RIFF` and `WEBP`.
pub open spec fn riff() -> Seq<u8> {
    seq![0x52u8, 0x49, 0x46, 0x46]
}

pub open spec fn webp() -> Seq<u8> {
    seq![0x57u8, 0x45, 0x42, 0x50]
}

/// The big-endian `u32` at byte `i`.
pub open spec fn be_u32_at(data: Seq<u8>, i: int) -> int {
    data[i] * 0x100_0000 + data[i + 1] * 0x1_0000 + data[i + 2] * 0x100 + data[i + 3]
}

/// Walks the PNG chunks from byte `i`: an `acTL` chunk before any `IDAT`
/// makes an animated PNG; an `IDAT` first, or the end of the data, a still
/// PNG. Each chunk is its length, type, data and checksum; a next position
/// past `usize::MAX` or past the data ends the walk, and a chunk size (length plus twelve)
/// past `usize::MAX` panics.
pub open spec fn png_scan(data: Seq<u8>, i: int) -> Outcome<Kind>
    decreases data.len() - i,
{
    if i < 0 || i + 8 > data.len() {
        Outcome::Returns(Kind::SinglePng)
    } else {
        let kind = data.subrange(i + 4, i + 8);
        let step = 8 + be_u32_at(data, i) + 4;
        if kind == actl() {
            Outcome::Returns(Kind::Apng)
        } else if kind == idat() {
            Outcome::Returns(Kind::SinglePng)
        } else if step > usize::MAX {
            Outcome::Panics
        } else if i + step > usize::MAX || i + step > data.len() {
            Outcome::Returns(Kind::SinglePng)
        } else {
            png_scan(data, i + step)
        }
    }
}

/// The container of some bytes: GIF by its signature, PNG by its signature
/// (animated when an `acTL` chunk precedes the image data), WebP by its RIFF
/// header; none otherwise.
pub open spec fn container_kind(data: Seq<u8>) -> Outcome<Option<Kind>> {
    if starts_with_bytes(data, gif87()) || starts_with_bytes(data, gif89()) {
        Outcome::Returns(Some(Kind::Gif))
    } else if starts_with_bytes(data, png_magic()) {
        match png_scan(data, 8) {
            Outcome::Panics => Outcome::Panics,
            Outcome::Returns(k) => Outcome::Returns(Some(k)),
        }
    } else if data.len() >= 12 && data.take(4) == riff() && data.subrange(8, 12) == webp() {
        Outcome::Returns(Some(Kind::Webp))
    } else {
        Outcome::Returns(None)
    }
}

fn bytes_at_eq(data: &[u8], i: usize, p: [u8; 4]) -> (r: bool)
    requires
        i + 4 <= data@.len(),
    ensures
        r == (data@.subrange(i as int, i + 4) == p@),
{
    let r = data[i] == p[0] && data[i + 1] == p[1] && data[i + 2] == p[2] && data[i + 3] == p[3];
    if r {
        assert(data@.subrange(i as int, i + 4) =~= p@);
    } else {
        assert(data@.subrange(i as int, i + 4) != p@) by {
            if data@.subrange(i as int, i + 4) == p@ {
                assert(data@.subrange(i as int, i + 4)[0] == p@[0]);
                assert(data@.subrange(i as int, i + 4)[1] == p@[1]);
                assert(data@.subrange(i as int, i + 4)[2] == p@[2]);
                assert(data@.subrange(i as int, i + 4)[3] == p@[3]);
            }
        }
    }
    r
}

fn starts_with_slice(data: &[u8], p: &[u8]) -> (r: bool)
    ensures
        r == starts_with_bytes(data@, p@),
{
    if p.len() > data.len() {
        return false;
    }
    let mut i: usize = 0;
    while i < p.len()
        invariant
            p@.len() <= data@.len(),
            i <= p@.len(),
            forall|k: int| 0 <= k < i ==> data@[k] == p@[k],
        decreases p.len() - i,
    {
        if data[i] != p[i] {
            assert(data@.take(p@.len() as int)[i as int] != p@[i as int]);
            return false;
        }
        i = i + 1;
    }
    assert(data@.take(p@.len() as int) =~= p@);
    true
}

/// Recognizes the container of some bytes (see [`container_kind`]).
pub fn sniff(data: &[u8]) -> (r: Option<Kind>)
    requires
        container_kind(data@).is_normal(),
    ensures
        r == container_kind(data@).value(),
{
    let g87: [u8; 6] = [0x47, 0x49, 0x46, 0x38, 0x37, 0x61];
    let g89: [u8; 6] = [0x47, 0x49, 0x46, 0x38, 0x39, 0x61];
    let png: [u8; 4] = [0x89, 0x50, 0x4E, 0x47];
    assert(g87@ =~= gif87());
    assert(g89@ =~= gif89());
    assert(png@ =~= png_magic());
    if starts_with_slice(data, &g87) || starts_with_slice(data, &g89) {
        return Some(Kind::Gif);
    }
    if starts_with_slice(data, &png) {
        assert(container_kind(data@).value() == Some(png_scan(data@, 8).value()));
        let lc = data.len();
        let mut i: usize = 8;
        let actl_b: [u8; 4] = [0x61, 0x63, 0x54, 0x4C];
        let idat_b: [u8; 4] = [0x49, 0x44, 0x41, 0x54];
        assert(actl_b@ =~= actl());
        assert(idat_b@ =~= idat());
        while i <= lc && lc - i >= 8
            invariant
                lc == data@.len(),
                actl_b@ == actl(),
                idat_b@ == idat(),
                container_kind(data@).is_normal(),
                png_scan(data@, 8) == png_scan(data@, i as int),
                png_scan(data@, 8).is_normal(),
                container_kind(data@).value() == Some(png_scan(data@, 8).value()),
            decreases (if i <= lc { lc - i } else { 0 }),
        {
            let len: u64 = (data[i] as u64) * 0x100_0000 + (data[i + 1] as u64) * 0x1_0000 + (data[i + 2] as u64)
                * 0x100 + (data[i + 3] as u64);
            if bytes_at_eq(data, i + 4, actl_b) {
                return Some(Kind::Apng);
            }
            if bytes_at_eq(data, i + 4, idat_b) {
                return Some(Kind::SinglePng);
            }
            assert(len == be_u32_at(data@, i as int));
            let step: usize = 8 + (len as usize) + 4;
            i = match i.checked_add(step) {
                Some(v) => v,
                None => lc,
            };
            proof {
                if i < lc && lc - i >= 8 {
                } else {
                    assert(png_scan(data@, i as int) == Outcome::Returns(Kind::SinglePng));
                }
            }
        }
        return Some(Kind::SinglePng);
    }
    if data.len() >= 12 && bytes_at_eq(data, 0, [0x52, 0x49, 0x46, 0x46]) && bytes_at_eq(
        data,
        8,
        [0x57, 0x45, 0x42, 0x50],
    ) {
        proof {
            assert(data@.subrange(0, 4) =~= data@.take(4));
            assert([0x52u8, 0x49, 0x46, 0x46]@ =~= riff());
            assert([0x57u8, 0x45, 0x42, 0x50]@ =~= webp());
        }
        return Some(Kind::Webp);
    }
    proof {
        if data@.len() >= 12 {
            assert(data@.subrange(0, 4) =~= data@.take(4));
            assert([0x52u8, 0x49, 0x46, 0x46]@ =~= riff());
            assert([0x57u8, 0x45, 0x42, 0x50]@ =~= webp());
        }
    }
    None
}

/// Whether some bytes are an animated container (GIF, animated PNG, WebP).
pub fn is_animated(data: &[u8]) -> (r: bool)
    requires
        container_kind(data@).is_normal(),
    ensures
        r == (container_kind(data@).value() matches Some(k) && k != Kind::SinglePng),
{
    match sniff(data) {
        Some(Kind::Gif) | Some(Kind::Apng) | Some(Kind::Webp) => true,
        _ => false,
    }
}

/// One channel of `s` over `d` with source alpha `sa` (0 < `sa` < 255).
pub open spec fn blend_channel(s: u8, d: u8, sa: u8) -> u8 {
    ((s * sa + d * (255 - sa)) / 255) as u8
}

/// A partly transparent source channel over a destination one weighs the
/// source by its alpha and the destination by the rest, rounding down: the
/// result lies between the two, and 255 times it falls short of
/// `s * sa + d * (255 - sa)` by less than 255.
pub proof fn lemma_blend_channel_weighs(s: u8, d: u8, sa: u8)
    requires
        0 < sa < 255,
    ensures
        255 * blend_channel(s, d, sa) <= s * sa + d * (255 - sa) < 255 * blend_channel(s, d, sa) + 255,
        (if s <= d { s } else { d }) <= blend_channel(s, d, sa) <= (if s <= d { d } else { s }),
{
    let t = s * sa + d * (255 - sa);
    assert(0 <= t <= 255 * 255) by (nonlinear_arith)
        requires
            0 <= s <= 255,
            0 <= d <= 255,
            0 < sa < 255,
            t == s * sa + d * (255 - sa),
    ;
    let lo: int = if s <= d { s as int } else { d as int };
    let hi: int = if s <= d { d as int } else { s as int };
    assert(255 * lo <= t <= 255 * hi) by (nonlinear_arith)
        requires
            lo <= s <= hi,
            lo <= d <= hi,
            0 < sa < 255,
            t == s * sa + d * (255 - sa),
    ;
    assert(lo <= t / 255 <= hi) by (nonlinear_arith)
        requires
            255 * lo <= t <= 255 * hi,
            lo >= 0,
    ;
}

/// Byte `j` of an RGBA pixel row after drawing `src` over `dst`: an opaque
/// source pixel replaces the destination, a transparent one leaves it, any
/// other blends each channel by the source alpha (the alpha itself too).
pub open spec fn over_byte(dst: Seq<u8>, src: Seq<u8>, j: int) -> u8 {
    let p = j - j % 4;
    let sa = src[p + 3];
    if sa == 255 {
        src[j]
    } else if sa == 0 {
        dst[j]
    } else if j % 4 == 3 {
        ((sa * 255 + dst[j] * (255 - sa)) / 255) as u8
    } else {
        blend_channel(src[j], dst[j], sa)
    }
}

/// Draws an RGBA row over another (see [`over_byte`]); both rows have the
/// same whole number of pixels.
pub fn composite_row_over(dst: &mut [u8], src: &[u8])
    requires
        old(dst)@.len() == src@.len(),
        src@.len() % 4 == 0,
    ensures
        final(dst)@.len() == old(dst)@.len(),
        forall|j: int| 0 <= j < src@.len() ==> #[trigger] final(dst)@[j] == over_byte(old(dst)@, src@, j),
{
    let ghost d0 = dst@;
    let n = src.len();
    let mut p: usize = 0;
    while p < n
        invariant
            n == src@.len(),
            n % 4 == 0,
            p % 4 == 0,
            p <= n,
            dst@.len() == n,
            d0.len() == n,
            forall|j: int| 0 <= j < p ==> #[trigger] dst@[j] == over_byte(d0, src@, j),
            forall|j: int| p <= j < n ==> #[trigger] dst@[j] == d0[j],
        decreases n - p,
    {
        let sa = src[p + 3];
        if sa == 255 {
            dst.set(p, src[p]);
            dst.set(p + 1, src[p + 1]);
            dst.set(p + 2, src[p + 2]);
            dst.set(p + 3, src[p + 3]);
        } else if sa != 0 {
            let sa_u = sa as u16;
            let inv: u16 = 255 - sa_u;
            let d0b = dst[p];
            let d1b = dst[p + 1];
            let d2b = dst[p + 2];
            let d3b = dst[p + 3];
            assert((src[p as int] as u16) * sa_u + (d0b as u16) * inv <= 65025) by (nonlinear_arith)
                requires
                    sa_u + inv == 255,
                    src[p as int] <= 255,
                    d0b <= 255,
            ;
            assert((src[p + 1] as u16) * sa_u + (d1b as u16) * inv <= 65025) by (nonlinear_arith)
                requires
                    sa_u + inv == 255,
                    src[p + 1] <= 255,
                    d1b <= 255,
            ;
            assert((src[p + 2] as u16) * sa_u + (d2b as u16) * inv <= 65025) by (nonlinear_arith)
                requires
                    sa_u + inv == 255,
                    src[p + 2] <= 255,
                    d2b <= 255,
            ;
            assert(sa_u * 255 + (d3b as u16) * inv <= 65025) by (nonlinear_arith)
                requires
                    sa_u + inv == 255,
                    d3b <= 255,
            ;
            dst.set(p, (((src[p] as u16) * sa_u + (d0b as u16) * inv) / 255) as u8);
            dst.set(p + 1, (((src[p + 1] as u16) * sa_u + (d1b as u16) * inv) / 255) as u8);
            dst.set(p + 2, (((src[p + 2] as u16) * sa_u + (d2b as u16) * inv) / 255) as u8);
            dst.set(p + 3, ((sa_u * 255 + (d3b as u16) * inv) / 255) as u8);
        }
        assert forall|j: int| 0 <= j < p + 4 implies #[trigger] dst@[j] == over_byte(d0, src@, j) by {
            if j >= p {
                assert(j - j % 4 == p);
            }
        }
        p = p + 4;
    }
}

/// The most frames an animation may decode to; bounds the amplification of
/// small compressed inputs.
pub const MAX_ANIMATED_FRAMES: usize = 10_000;

fn decode_error(msg: &str) -> (r: ImageError)
    ensures
        r matches ImageError::Decode(m) && m@ == msg@,
{
    ImageError::Decode(string_from_chars(&chars_of(msg)))
}

/// The decoder an animation goes to, by its container; a still PNG or
/// unrecognized data is refused.
pub fn animated_kind(data: &[u8]) -> (r: Result<Kind, ImageError>)
    requires
        container_kind(data@).is_normal(),
    ensures
        match container_kind(data@).value() {
            Some(Kind::Gif) => r == Ok::<Kind, ImageError>(Kind::Gif),
            Some(Kind::Apng) => r == Ok::<Kind, ImageError>(Kind::Apng),
            Some(Kind::Webp) => r == Ok::<Kind, ImageError>(Kind::Webp),
            _ => r matches Err(ImageError::Decode(m)) && m@ == "animated dispatcher called for single-frame input"@,
        },
{
    match sniff(data) {
        Some(Kind::Gif) => Ok(Kind::Gif),
        Some(Kind::Apng) => Ok(Kind::Apng),
        Some(Kind::Webp) => Ok(Kind::Webp),
        _ => Err(decode_error("animated dispatcher called for single-frame input")),
    }
}

/// Whether another frame may follow `decoded` frames: refused once the
/// animation reaches [`MAX_ANIMATED_FRAMES`].
pub fn admit_frame(decoded: usize) -> (r: Result<(), ImageError>)
    ensures
        decoded < MAX_ANIMATED_FRAMES ==> r is Ok,
        decoded >= MAX_ANIMATED_FRAMES ==> (r matches Err(ImageError::Decode(m)) && m@
            == "animated: exceeded max frames (10000)"@),
{
    if decoded >= MAX_ANIMATED_FRAMES {
        Err(decode_error("animated: exceeded max frames (10000)"))
    } else {
        Ok(())
    }
}

/// An animation must decode to at least one frame.
pub fn check_decoded(count: usize) -> (r: Result<(), ImageError>)
    ensures
        count > 0 ==> r is Ok,
        count == 0 ==> (r matches Err(ImageError::Decode(m)) && m@ == "animated: no frames decoded"@),
{
    if count == 0 {
        Err(decode_error("animated: no frames decoded"))
    } else {
        Ok(())
    }
}

} // verus!
