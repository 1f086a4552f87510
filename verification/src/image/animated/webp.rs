//! The frame sequence of WebP images. The WebP decoder composites each
//! frame itself; what is decided here is which read comes next and how an
//! opaque decoder buffer becomes RGBA; the reads themselves are those of
//! the `image-webp` decoder.

use vstd::prelude::*;

use crate::error::ImageError;
use crate::image::animated::apng::canvas_refusal;
use crate::image::animated::apng::check_canvas;
use crate::text::chars_of;
use crate::text::extend_chars;
use crate::text::string_from_chars;

verus! {

/// The decoder call that produces the next frame.
#[derive(Debug, Clone, Copy, PartialEq, Eq, Structural)]
pub enum WebpRead {
    /// A still image: its only frame, read as an image.
    Image,
    /// The next frame of an animation.
    Frame,
    /// No frame is left.
    Done,
}

/// The next read: a still image (no frame count) yields one image; an
/// animation yields its announced number of frames.
pub open spec fn webp_read(frame_count: Option<u32>, frames_read: u32) -> WebpRead {
    match frame_count {
        None => if frames_read == 0 {
            WebpRead::Image
        } else {
            WebpRead::Done
        },
        Some(limit) => if frames_read >= limit {
            WebpRead::Done
        } else {
            WebpRead::Frame
        },
    }
}

pub fn next_read(frame_count: Option<u32>, frames_read: u32) -> (r: WebpRead)
    ensures
        r == webp_read(frame_count, frames_read),
{
    match frame_count {
        None => if frames_read == 0 {
            WebpRead::Image
        } else {
            WebpRead::Done
        },
        Some(limit) => if frames_read >= limit {
            WebpRead::Done
        } else {
            WebpRead::Frame
        },
    }
}

/// RGBA bytes of the whole RGB pixels of `rgb`, each made opaque.
pub open spec fn rgb_to_rgba_spec(rgb: Seq<u8>) -> Seq<u8> {
    Seq::new(
        (rgb.len() / 3) * 4,
        |j: int|
            if j % 4 < 3 {
                rgb[(j / 4) * 3 + j % 4]
            } else {
                255u8
            },
    )
}

/// Expanding RGB to RGBA keeps each whole pixel's three channels in order
/// and makes it fully opaque.
pub proof fn lemma_rgb_to_rgba_pixels(rgb: Seq<u8>)
    ensures
        rgb_to_rgba_spec(rgb).len() == (rgb.len() / 3) * 4,
        forall|k: int, c: int|
            0 <= k < rgb.len() / 3 && 0 <= c < 3 ==> #[trigger] rgb_to_rgba_spec(rgb)[4 * k + c] == rgb[3 * k + c],
        forall|k: int| 0 <= k < rgb.len() / 3 ==> #[trigger] rgb_to_rgba_spec(rgb)[4 * k + 3] == 255u8,
{
    assert forall|k: int, c: int| 0 <= k < rgb.len() / 3 && 0 <= c < 3 implies #[trigger] rgb_to_rgba_spec(rgb)[4 * k
        + c] == rgb[3 * k + c] by {
        vstd::arithmetic::div_mod::lemma_fundamental_div_mod_converse(4 * k + c, 4, k, c);
    }
    assert forall|k: int| 0 <= k < rgb.len() / 3 implies #[trigger] rgb_to_rgba_spec(rgb)[4 * k + 3] == 255u8 by {
        vstd::arithmetic::div_mod::lemma_fundamental_div_mod_converse(4 * k + 3, 4, k, 3);
    }
}

/// A still image is read once; an animation announced with `n` frames is
/// read frame by frame `n` times; then reading is done.
pub proof fn lemma_webp_read_counts(frame_count: Option<u32>, frames_read: u32)
    ensures
        frame_count is None ==> (webp_read(frame_count, frames_read) == WebpRead::Image <==> frames_read == 0),
        frame_count matches Some(n) ==> (webp_read(frame_count, frames_read) == WebpRead::Frame <==> frames_read < n),
        webp_read(frame_count, frames_read) != WebpRead::Done <==> (match frame_count {
            None => frames_read == 0,
            Some(n) => frames_read < n,
        }),
{
}

/// Expands an RGB buffer to RGBA with opaque alpha; a trailing partial
/// pixel is dropped.
pub fn rgb_to_rgba(rgb: &[u8]) -> (r: Vec<u8>)
    ensures
        r@ == rgb_to_rgba_spec(rgb@),
{
    let len: usize = rgb.len();
    let n: usize = len / 3;
    let mut out: Vec<u8> = Vec::new();
    let mut i: usize = 0;
    while i < n
        invariant
            n == rgb@.len() / 3,
            len == rgb@.len(),
            i <= n,
            out@.len() == 4 * i,
            forall|j: int|
                0 <= j < 4 * i ==> #[trigger] out@[j] == (if j % 4 < 3 {
                    rgb@[(j / 4) * 3 + j % 4]
                } else {
                    255u8
                }),
        decreases n - i,
    {
        out.push(rgb[3 * i]);
        out.push(rgb[3 * i + 1]);
        out.push(rgb[3 * i + 2]);
        out.push(255u8);
        i = i + 1;
    }
    assert(out@ =~= rgb_to_rgba_spec(rgb@));
    out
}


#[verifier::external_type_specification]
#[verifier::external_body]
#[verifier::reject_recursive_types(T)]
pub struct ExCursor<T>(std::io::Cursor<T>);

#[verifier::external_type_specification]
#[verifier::external_body]
#[verifier::reject_recursive_types(R)]
pub struct ExWebPDecoder<R>(image_webp::WebPDecoder<R>);

/// What `image_webp::WebPDecoder::new` reads from `data`: the width, the
/// height, whether the image has alpha, whether it is animated, the number
/// of frames, and the size of its output buffer (none when too large); or
/// the text of the error.
pub uninterp spec fn webp_opened(data: Seq<u8>) -> Result<(u32, u32, bool, bool, u32, Option<usize>), Seq<char>>;

/// What `WebPDecoder::read_image` writes for the still image in `data`, or
/// the text of the error.
pub uninterp spec fn webp_image(data: Seq<u8>) -> Result<Seq<u8>, Seq<char>>;

/// What a `WebPDecoder::read_frame` call, on the decoder opened from `data`
/// after `k` earlier such calls, gives for the animation in `data`: the frame's pixels and duration
/// in milliseconds, or the text of the error.
pub uninterp spec fn webp_frame(data: Seq<u8>, k: nat) -> Result<(Seq<u8>, u32), Seq<char>>;

/// `image_webp::WebPDecoder::new` over the bytes, with the decoder's
/// `dimensions`, `has_alpha`, `is_animated`, `num_frames` and
/// `output_buffer_size`.
#[verifier::external_body]
fn webp_open(data: Vec<u8>) -> (r: Result<
    (image_webp::WebPDecoder<std::io::Cursor<Vec<u8>>>, (u32, u32, bool, bool, u32, Option<usize>)),
    String,
>)
    ensures
        match webp_opened(data@) {
            Ok(info) => r matches Ok((_, i)) && i == info,
            Err(m) => r matches Err(s) && s@ == m,
        },
{
    let d = image_webp::WebPDecoder::new(std::io::Cursor::new(data)).map_err(|e| e.to_string())?;
    let (w, h) = d.dimensions();
    let info = (w, h, d.has_alpha(), d.is_animated(), d.num_frames(), d.output_buffer_size());
    Ok((d, info))
}

/// A WebP image read frame by frame, with the bytes it was opened from and
/// the number of `read_frame` calls made on it.
pub struct WebpFrames {
    dec: image_webp::WebPDecoder<std::io::Cursor<Vec<u8>>>,
    data: Ghost<Seq<u8>>,
    reads: Ghost<nat>,
    width: u32,
    height: u32,
    has_alpha: bool,
    frame_count: Option<u32>,
    frames_read: u32,
    buf_len: usize,
}

/// `WebPDecoder::read_image` into a buffer of the output size.
#[verifier::external_body]
fn webp_read_image(f: &mut WebpFrames) -> (r: Result<Vec<u8>, String>)
    ensures
        final(f).data() == old(f).data(),
        final(f).reads() == old(f).reads(),
        final(f).fields() == old(f).fields(),
        match webp_image(old(f).data()) {
            Ok(px) => r matches Ok(v) && v@ == px,
            Err(m) => r matches Err(s) && s@ == m,
        },
{
    let mut buf = vec![0u8; f.buf_len];
    f.dec.read_image(&mut buf).map_err(|e| e.to_string())?;
    Ok(buf)
}

/// `WebPDecoder::read_frame` into a buffer of the output size.
#[verifier::external_body]
fn webp_read_frame(f: &mut WebpFrames) -> (r: Result<(Vec<u8>, u32), String>)
    ensures
        final(f).data() == old(f).data(),
        final(f).reads() == old(f).reads(),
        final(f).fields() == old(f).fields(),
        match webp_frame(old(f).data(), old(f).reads()) {
            Ok((px, d)) => r matches Ok((v, rd)) && v@ == px && rd == d,
            Err(m) => r matches Err(s) && s@ == m,
        },
{
    let mut buf = vec![0u8; f.buf_len];
    let d = f.dec.read_frame(&mut buf).map_err(|e| e.to_string())?;
    Ok((buf, d))
}

fn webp_error(m: String) -> (r: ImageError)
    ensures
        r matches ImageError::Decode(s) && s@ == "webp: "@ + m@,
{
    let mut v = chars_of("webp: ");
    extend_chars(&mut v, &chars_of(m.as_str()));
    ImageError::Decode(string_from_chars(&v))
}

/// A frame's pixels as RGBA: as read with alpha, else expanded.
pub open spec fn webp_rgba(px: Seq<u8>, has_alpha: bool) -> Seq<u8> {
    if has_alpha {
        px
    } else {
        rgb_to_rgba_spec(px)
    }
}

impl WebpFrames {
    /// The bytes the image was opened from.
    pub closed spec fn data(&self) -> Seq<u8> {
        self.data@
    }

    /// The `read_frame` calls made so far.
    pub closed spec fn reads(&self) -> nat {
        self.reads@
    }

    /// Size, alpha, announced frame count, frames delivered, buffer size.
    pub closed spec fn fields(&self) -> (u32, u32, bool, Option<u32>, u32, usize) {
        (self.width, self.height, self.has_alpha, self.frame_count, self.frames_read, self.buf_len)
    }

    pub closed spec fn width(&self) -> u32 {
        self.width
    }

    pub closed spec fn height(&self) -> u32 {
        self.height
    }

    /// The canvas width and height.
    pub fn size(&self) -> (r: (u32, u32))
        ensures
            r == (self.width(), self.height()),
    {
        (self.width, self.height)
    }

    pub closed spec fn has_alpha(&self) -> bool {
        self.has_alpha
    }

    pub closed spec fn frame_count(&self) -> Option<u32> {
        self.frame_count
    }

    pub closed spec fn frames_read(&self) -> u32 {
        self.frames_read
    }

    /// Opens a WebP image: the decoder's error, a canvas refused by
    /// [`canvas_refusal`], or an output buffer too large is a decode error;
    /// an animation announces its frame count, a still image none.
    pub fn new(data: Vec<u8>) -> (r: Result<WebpFrames, ImageError>)
        ensures
            match webp_opened(data@) {
                Err(m) => r matches Err(ImageError::Decode(s)) && s@ == "webp: "@ + m,
                Ok((w, h, alpha, anim, n, size)) => match canvas_refusal("webp"@, w, h) {
                    Some(m) => r matches Err(ImageError::Decode(s)) && s@ == m,
                    None => match size {
                        None => r matches Err(ImageError::Decode(s)) && s@ == "webp: output buffer too large"@,
                        Some(_) => r matches Ok(f) && f.data() == data@ && f.reads() == 0 && f.width() == w
                            && f.height() == h && f.has_alpha() == alpha && f.frames_read() == 0
                            && f.frame_count() == (if anim {
                            Some(n)
                        } else {
                            None
                        }),
                    },
                },
            },
    {
        proof {
            reveal_strlit("webp");
            reveal_strlit("webp: output buffer too large");
        }
        let ghost bytes = data@;
        let (dec, info) = match webp_open(data) {
            Ok(v) => v,
            Err(m) => {
                return Err(webp_error(m));
            },
        };
        let (w, h, alpha, anim, n, size) = info;
        check_canvas("webp", w, h)?;
        let buf_len = match size {
            Some(s) => s,
            None => {
                return Err(ImageError::Decode(string_from_chars(&chars_of("webp: output buffer too large"))));
            },
        };
        Ok(
            WebpFrames {
                dec,
                data: Ghost(bytes),
                reads: Ghost(0),
                width: w,
                height: h,
                has_alpha: alpha,
                frame_count: if anim {
                    Some(n)
                } else {
                    None
                },
                frames_read: 0,
                buf_len,
            },
        )
    }

    /// The next frame as RGBA with its duration in milliseconds (none for a
    /// still image), or none when every frame was delivered (see
    /// [`webp_read`]); a failed read is a decode error.
    pub fn next_frame(&mut self) -> (r: Result<Option<(Vec<u8>, Option<u32>)>, ImageError>)
        ensures
            final(self).data() == old(self).data(),
            final(self).width() == old(self).width(),
            final(self).height() == old(self).height(),
            final(self).has_alpha() == old(self).has_alpha(),
            final(self).frame_count() == old(self).frame_count(),
            match webp_read(old(self).frame_count(), old(self).frames_read()) {
                WebpRead::Done => r matches Ok(None) && final(self).frames_read() == old(self).frames_read(),
                WebpRead::Image => match webp_image(old(self).data()) {
                    Ok(px) => r matches Ok(Some((v, None))) && v@ == webp_rgba(px, old(self).has_alpha())
                        && final(self).frames_read() == 1,
                    Err(m) => r matches Err(ImageError::Decode(s)) && s@ == "webp: "@ + m,
                },
                WebpRead::Frame => match webp_frame(old(self).data(), old(self).reads()) {
                    Ok((px, d)) => r matches Ok(Some((v, Some(rd)))) && v@ == webp_rgba(px, old(self).has_alpha())
                        && rd == d && final(self).frames_read() == old(self).frames_read() + 1
                        && final(self).reads() == old(self).reads() + 1,
                    Err(m) => r matches Err(ImageError::Decode(s)) && s@ == "webp: "@ + m,
                },
            },
    {
        match next_read(self.frame_count, self.frames_read) {
            WebpRead::Done => Ok(None),
            WebpRead::Image => {
                let px = match webp_read_image(self) {
                    Ok(v) => v,
                    Err(m) => {
                        return Err(webp_error(m));
                    },
                };
                self.frames_read = 1;
                if self.has_alpha {
                    Ok(Some((px, None)))
                } else {
                    Ok(Some((rgb_to_rgba(&px), None)))
                }
            },
            WebpRead::Frame => {
                let res = webp_read_frame(self);
                self.reads = Ghost(self.reads@ + 1);
                let (px, d) = match res {
                    Ok(v) => v,
                    Err(m) => {
                        return Err(webp_error(m));
                    },
                };
                self.frames_read = self.frames_read + 1;
                if self.has_alpha {
                    Ok(Some((px, Some(d))))
                } else {
                    Ok(Some((rgb_to_rgba(&px), Some(d))))
                }
            },
        }
    }
}

} // verus!
