//! Reading an animated GIF frame by frame: the `gif` crate decodes each
//! frame and `gif_dispose` composes it onto the logical screen.

use vstd::prelude::*;

use crate::error::ImageError;
use crate::error::MediaError;
use crate::text::chars_of;
use crate::text::extend_chars;
use crate::text::string_from_chars;

verus! {

/// An open `gif::Decoder` (indexed color output) with the
/// `gif_dispose::Screen` made for it. Verus does not take a declaration of
/// `gif::Decoder`, whose parameter is bound by std's `Read`, so the pair is
/// held opaque here.
#[verifier::external_body]
pub struct GifStream {
    decoder: ::gif::Decoder<std::io::Cursor<Vec<u8>>>,
    screen: gif_dispose::Screen,
}

/// Whether `gif::DecodeOptions::read_info`, with indexed color output,
/// takes `data`; or the text of its error.
pub uninterp spec fn gif_opened(data: Seq<u8>) -> Result<(), Seq<char>>;

/// What the `gif::Decoder::read_next_frame` call on the decoder opened from
/// `data`, after `k` earlier such calls, gives: the frame's delay in
/// hundredths of a second, none at the end, or the text of the error.
pub uninterp spec fn gif_read(data: Seq<u8>, k: nat) -> Result<Option<u16>, Seq<char>>;

/// What the screen shows once `gif_dispose::Screen::blit_frame` has drawn
/// the frame of that read: its RGBA bytes, width and height; or the text of
/// the error.
pub uninterp spec fn gif_blit(data: Seq<u8>, k: nat) -> Result<(Seq<u8>, u32, u32), Seq<char>>;

/// `gif::DecodeOptions::read_info` with indexed color output, then
/// `gif_dispose::Screen::new_decoder`.
#[verifier::external_body]
fn gif_open(data: Vec<u8>) -> (r: Result<GifStream, String>)
    ensures
        match gif_opened(data@) {
            Ok(()) => r is Ok,
            Err(m) => r matches Err(s) && s@ == m,
        },
{
    let mut opts = ::gif::DecodeOptions::new();
    opts.set_color_output(::gif::ColorOutput::Indexed);
    let decoder = opts.read_info(std::io::Cursor::new(data)).map_err(|e| e.to_string())?;
    let screen = gif_dispose::Screen::new_decoder(&decoder);
    Ok(GifStream { decoder, screen })
}

/// `gif::Decoder::read_next_frame`; a frame read is drawn with
/// `gif_dispose::Screen::blit_frame` and the screen's `pixels_rgba` taken
/// as bytes.
#[verifier::external_body]
fn gif_next(f: &mut GifFrames) -> (r: Result<Option<(u16, Result<(Vec<u8>, u32, u32), String>)>, String>)
    ensures
        *final(f) == (GifFrames { stream: final(f).stream, ..*old(f) }),
        match gif_read(old(f).data@, old(f).reads@) {
            Err(m) => r matches Err(s) && s@ == m,
            Ok(None) => r matches Ok(None),
            Ok(Some(d)) => r matches Ok(Some((rd, b))) && rd == d && match gif_blit(old(f).data@, old(f).reads@) {
                Ok((px, w, h)) => b matches Ok((v, bw, bh)) && v@ == px && bw == w && bh == h,
                Err(m) => b matches Err(s) && s@ == m,
            },
        },
{
    let s = &mut f.stream;
    let frame = match s.decoder.read_next_frame().map_err(|e| e.to_string())? {
        Some(frame) => frame,
        None => return Ok(None),
    };
    let shown = s.screen.blit_frame(frame).map_err(|e| e.to_string()).map(|()| {
        let p = s.screen.pixels_rgba();
        (bytemuck::cast_slice::<_, u8>(p.buf()).to_vec(), p.width() as u32, p.height() as u32)
    });
    Ok(Some((frame.delay, shown)))
}

fn prefixed(prefix: &str, m: String) -> (r: String)
    ensures
        r@ == prefix@ + m@,
{
    let mut v = chars_of(prefix);
    extend_chars(&mut v, &chars_of(m.as_str()));
    string_from_chars(&v)
}

/// An animated GIF read frame by frame, with the bytes it was opened from
/// and the number of frame reads made on its decoder.
pub struct GifFrames {
    stream: GifStream,
    data: Ghost<Seq<u8>>,
    reads: Ghost<nat>,
}

impl GifFrames {
    pub closed spec fn data(&self) -> Seq<u8> {
        self.data@
    }

    pub closed spec fn reads(&self) -> nat {
        self.reads@
    }

    /// Opens a GIF: the decoder's refusal is a format error of the source.
    pub fn new(data: Vec<u8>, source_url: &str) -> (r: Result<GifFrames, ImageError>)
        ensures
            match gif_opened(data@) {
                Ok(()) => r matches Ok(f) && f.data() == data@ && f.reads() == 0,
                Err(m) => r matches Err(ImageError::Media(MediaError::Format { source_url: u, message })) && u@
                    == source_url@ && message@ == "gif: "@ + m,
            },
    {
        let ghost bytes = data@;
        match gif_open(data) {
            Ok(stream) => Ok(GifFrames { stream, data: Ghost(bytes), reads: Ghost(0) }),
            Err(m) => Err(
                ImageError::Media(
                    MediaError::Format {
                        source_url: string_from_chars(&chars_of(source_url)),
                        message: prefixed("gif: ", m),
                    },
                ),
            ),
        }
    }

    /// The next composed frame as RGBA bytes with the screen's width and
    /// height and the frame's delay in hundredths of a second, or none at
    /// the end; a read or drawing error is a decode error.
    pub fn next_frame(&mut self) -> (r: Result<Option<(Vec<u8>, u32, u32, u16)>, ImageError>)
        ensures
            final(self).data() == old(self).data(),
            final(self).reads() == old(self).reads() + 1,
            match gif_read(old(self).data(), old(self).reads()) {
                Err(m) => r matches Err(ImageError::Decode(s)) && s@ == "gif frame: "@ + m,
                Ok(None) => r matches Ok(None),
                Ok(Some(d)) => match gif_blit(old(self).data(), old(self).reads()) {
                    Ok((px, w, h)) => r matches Ok(Some((v, rw, rh, rd))) && v@ == px && rw == w && rh == h
                        && rd == d,
                    Err(m) => r matches Err(ImageError::Decode(s)) && s@ == "gif blit: "@ + m,
                },
            },
    {
        let res = gif_next(self);
        self.reads = Ghost(self.reads@ + 1);
        match res {
            Err(m) => Err(ImageError::Decode(prefixed("gif frame: ", m))),
            Ok(None) => Ok(None),
            Ok(Some((d, Ok((v, w, h))))) => Ok(Some((v, w, h, d))),
            Ok(Some((_, Err(m)))) => Err(ImageError::Decode(prefixed("gif blit: ", m))),
        }
    }
}

} // verus!
