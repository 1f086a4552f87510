//! Decoded still images and the limits that bound decoding.

use vstd::prelude::*;
use ::image::ImageDecoder;

use crate::error::ImageError;
use crate::error::MediaError;

verus! {

/// Largest accepted input.
pub const MAX_SIZE_LIMIT: usize = 52_428_800;

/// Inputs below this size are decoded in memory without further checks.
pub const MEMORY_THRESHOLD: usize = 512_000;

/// Largest decoded width or height; bounds decompression bombs.
pub const MAX_DECODE_DIM: u32 = 8192;

/// Largest scratch allocation of a decoder.
pub const MAX_DECODE_ALLOC_BYTES: u64 = 268_435_456;

/// A decoded still frame, RGBA8, with the ICC profile the source embedded.
#[derive(Debug, Clone)]
pub struct DecodedImage {
    pub rgba: Vec<u8>,
    pub width: u32,
    pub height: u32,
    pub icc_profile: Option<Vec<u8>>,
}

/// Inputs above [`MAX_SIZE_LIMIT`] are refused before decoding, naming
/// their size and the limit.
pub fn check_input_size(len: usize) -> (r: Result<(), ImageError>)
    ensures
        len <= MAX_SIZE_LIMIT ==> r is Ok,
        len > MAX_SIZE_LIMIT ==> (r matches Err(ImageError::DecompressionBomb { actual, limit }) && actual == len
            && limit == MAX_SIZE_LIMIT),
{
    if len > MAX_SIZE_LIMIT {
        Err(ImageError::DecompressionBomb { actual: len, limit: MAX_SIZE_LIMIT })
    } else {
        Ok(())
    }
}

/// The containers whose embedded ICC profile is read.
#[derive(Debug, Clone, Copy, PartialEq, Eq, Structural)]
pub enum IccContainer {
    Png,
    Jpeg,
    Other,
}

/// The container of an image by its first bytes: `\x89PNG`, or the JPEG
/// start-of-image marker `FF D8`.
pub open spec fn icc_container_of(data: Seq<u8>) -> IccContainer {
    if data.len() >= 4 && data[0] == 0x89 && data[1] == 0x50 && data[2] == 0x4E && data[3] == 0x47 {
        IccContainer::Png
    } else if data.len() >= 2 && data[0] == 0xFF && data[1] == 0xD8 {
        IccContainer::Jpeg
    } else {
        IccContainer::Other
    }
}

pub fn icc_container(data: &[u8]) -> (r: IccContainer)
    ensures
        r == icc_container_of(data@),
{
    if data.len() >= 4 && data[0] == 0x89 && data[1] == 0x50 && data[2] == 0x4E && data[3] == 0x47 {
        IccContainer::Png
    } else if data.len() >= 2 && data[0] == 0xFF && data[1] == 0xD8 {
        IccContainer::Jpeg
    } else {
        IccContainer::Other
    }
}


/// What the `image` crate's reader makes of `data` with its format guessed
/// from the content and the given limits on dimensions and allocation: the
/// RGBA8 pixels with the width and height, or the text of the error, marked
/// `true` when guessing the format failed and `false` when decoding did.
pub uninterp spec fn image_decoded(data: Seq<u8>, max_dim: u32, max_alloc: u64) -> Result<(Seq<u8>, u32, u32), (bool, Seq<char>)>;

/// The ICC profile the `image` crate's PNG decoder reads from `data`.
pub uninterp spec fn png_icc(data: Seq<u8>) -> Option<Seq<u8>>;

/// The ICC profile the `image` crate's JPEG decoder reads from `data`.
pub uninterp spec fn jpeg_icc(data: Seq<u8>) -> Option<Seq<u8>>;

/// `image::ImageReader::with_guessed_format` on the bytes, the limits set,
/// then `decode` and `to_rgba8`.
#[verifier::external_body]
fn decode_rgba8(data: &[u8], max_dim: u32, max_alloc: u64) -> (r: Result<(Vec<u8>, u32, u32), (bool, String)>)
    ensures
        match image_decoded(data@, max_dim, max_alloc) {
            Ok((px, w, h)) => r matches Ok((p, rw, rh)) && p@ == px && rw == w && rh == h,
            Err((stage, m)) => r matches Err((st, s)) && st == stage && s@ == m,
        },
{
    let mut reader = ::image::ImageReader::new(std::io::Cursor::new(data))
        .with_guessed_format()
        .map_err(|e| (true, e.to_string()))?;
    let mut limits = ::image::Limits::default();
    limits.max_image_width = Some(max_dim);
    limits.max_image_height = Some(max_dim);
    limits.max_alloc = Some(max_alloc);
    reader.limits(limits);
    let img = reader.decode().map_err(|e| (false, e.to_string()))?.to_rgba8();
    let (w, h) = img.dimensions();
    Ok((img.into_raw(), w, h))
}

/// `image::codecs::png::PngDecoder::new` then `icc_profile`; none where
/// either fails.
#[verifier::external_body]
fn read_png_icc(data: &[u8]) -> (r: Option<Vec<u8>>)
    ensures
        match png_icc(data@) {
            Some(b) => r matches Some(v) && v@ == b,
            None => r is None,
        },
{
    match ::image::codecs::png::PngDecoder::new(std::io::Cursor::new(data)) {
        Ok(mut d) => d.icc_profile().ok().flatten(),
        Err(_) => None,
    }
}

/// `image::codecs::jpeg::JpegDecoder::new` then `icc_profile`; none where
/// either fails.
#[verifier::external_body]
fn read_jpeg_icc(data: &[u8]) -> (r: Option<Vec<u8>>)
    ensures
        match jpeg_icc(data@) {
            Some(b) => r matches Some(v) && v@ == b,
            None => r is None,
        },
{
    match ::image::codecs::jpeg::JpegDecoder::new(std::io::Cursor::new(data)) {
        Ok(mut d) => d.icc_profile().ok().flatten(),
        Err(_) => None,
    }
}

/// The ICC profile embedded in an image: read by the PNG or JPEG decoder
/// as the container says, none for other containers.
pub open spec fn embedded_icc(data: Seq<u8>) -> Option<Seq<u8>> {
    match icc_container_of(data) {
        IccContainer::Png => png_icc(data),
        IccContainer::Jpeg => jpeg_icc(data),
        IccContainer::Other => None,
    }
}

/// The bytes of an optional buffer.
pub open spec fn opt_bytes(v: Option<Vec<u8>>) -> Option<Seq<u8>> {
    match v {
        Some(b) => Some(b@),
        None => None,
    }
}

/// Decodes image bytes to RGBA8 with the embedded ICC profile: inputs above
/// [`MAX_SIZE_LIMIT`] are refused; decoding is bounded by
/// [`MAX_DECODE_DIM`] and [`MAX_DECODE_ALLOC_BYTES`]; a format that cannot
/// be told is a format error naming the source, a failed decode a decode
/// error.
pub fn decode_bytes(data: &[u8], source_url: &str) -> (r: Result<DecodedImage, ImageError>)
    ensures
        data@.len() > MAX_SIZE_LIMIT ==> (r matches Err(ImageError::DecompressionBomb { actual, limit }) && actual
            == data@.len() && limit == MAX_SIZE_LIMIT),
        data@.len() <= MAX_SIZE_LIMIT ==> match image_decoded(data@, MAX_DECODE_DIM, MAX_DECODE_ALLOC_BYTES) {
            Ok((px, w, h)) => r matches Ok(d) && d.rgba@ == px && d.width == w && d.height == h && opt_bytes(
                d.icc_profile,
            ) == embedded_icc(data@),
            Err((true, m)) => r matches Err(ImageError::Media(MediaError::Format { source_url: u, message })) && u@
                == source_url@ && message@ == m,
            Err((false, m)) => r matches Err(ImageError::Decode(s)) && s@ == m,
        },
{
    check_input_size(data.len())?;
    let icc_profile = match icc_container(data) {
        IccContainer::Png => read_png_icc(data),
        IccContainer::Jpeg => read_jpeg_icc(data),
        IccContainer::Other => None,
    };
    match decode_rgba8(data, MAX_DECODE_DIM, MAX_DECODE_ALLOC_BYTES) {
        Ok((rgba, width, height)) => Ok(DecodedImage { rgba, width, height, icc_profile }),
        Err((true, m)) => Err(
            ImageError::Media(MediaError::Format { source_url: crate::text::string_from_chars(&crate::text::chars_of(source_url)), message: m }),
        ),
        Err((false, m)) => Err(ImageError::Decode(m)),
    }
}

} // verus!
