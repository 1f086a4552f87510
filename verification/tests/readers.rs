use media_proxy::error::{ImageError, MediaError};
use media_proxy::image::animated::apng::ApngFrames;
use media_proxy::image::animated::gif::GifFrames;
use media_proxy::image::animated::webp::WebpFrames;
use media_proxy::image::decode::decode_bytes;

fn two_frame_apng() -> Vec<u8> {
    let mut out = Vec::new();
    {
        let mut enc = png::Encoder::new(&mut out, 2, 1);
        enc.set_color(png::ColorType::Rgba);
        enc.set_depth(png::BitDepth::Eight);
        enc.set_animated(2, 0).unwrap();
        enc.set_frame_delay(1, 10).unwrap();
        let mut w = enc.write_header().unwrap();
        w.write_image_data(&[255, 0, 0, 255, 0, 255, 0, 255]).unwrap();
        w.write_image_data(&[0, 0, 255, 255, 0, 0, 0, 0]).unwrap();
        w.finish().unwrap();
    }
    out
}

#[test]
fn apng_reader_shows_each_announced_frame() {
    let mut f = ApngFrames::new(two_frame_apng()).unwrap();
    assert_eq!(f.size(), (2, 1));
    let (a, num, den) = f.next_frame().unwrap().unwrap();
    assert_eq!(a, vec![255, 0, 0, 255, 0, 255, 0, 255]);
    assert_eq!((num, den), (1, 10));
    let (b, _, _) = f.next_frame().unwrap().unwrap();
    assert_eq!(b, vec![0, 0, 255, 255, 0, 0, 0, 0]);
    assert!(f.next_frame().unwrap().is_none());
}

#[test]
fn apng_reader_refuses_other_bytes() {
    let err = ApngFrames::new(b"not a png".to_vec()).err().unwrap();
    assert!(matches!(err, ImageError::Decode(m) if m.starts_with("png: ")));
}

#[test]
fn webp_reader_gives_a_still_image_once() {
    let mut data = Vec::new();
    image::codecs::webp::WebPEncoder::new_lossless(&mut data)
        .encode(&[255, 0, 0, 255, 0, 0, 255, 255], 2, 1, image::ExtendedColorType::Rgba8)
        .unwrap();
    let mut f = WebpFrames::new(data).unwrap();
    assert_eq!(f.size(), (2, 1));
    let (px, duration) = f.next_frame().unwrap().unwrap();
    assert_eq!(px, vec![255, 0, 0, 255, 0, 0, 255, 255]);
    assert_eq!(duration, None);
    assert!(f.next_frame().unwrap().is_none());
}

#[test]
fn webp_reader_refuses_other_bytes() {
    let err = WebpFrames::new(b"RIFF".to_vec()).err().unwrap();
    assert!(matches!(err, ImageError::Decode(m) if m.starts_with("webp: ")));
}

#[test]
fn gif_reader_composes_frames_on_the_screen() {
    let mut data = Vec::new();
    {
        let mut enc = gif::Encoder::new(&mut data, 2, 1, &[]).unwrap();
        let mut frame = gif::Frame::from_palette_pixels(2, 1, vec![0u8, 1], vec![255u8, 0, 0, 0, 0, 255], None);
        frame.delay = 5;
        enc.write_frame(&frame).unwrap();
    }
    let mut f = GifFrames::new(data, "http://x/a.gif").unwrap();
    let (px, w, h, delay) = f.next_frame().unwrap().unwrap();
    assert_eq!(px, vec![255, 0, 0, 255, 0, 0, 255, 255]);
    assert_eq!((w, h, delay), (2, 1, 5));
    assert!(f.next_frame().unwrap().is_none());
}

#[test]
fn gif_reader_refusal_names_the_source() {
    let err = GifFrames::new(b"GIF89a".to_vec(), "http://x/b.gif").err().unwrap();
    assert!(matches!(
        err,
        ImageError::Media(MediaError::Format { source_url, message })
            if source_url == "http://x/b.gif" && message.starts_with("gif: ")
    ));
}

#[test]
fn decode_bytes_gives_rgba_and_size() {
    let mut png_bytes = Vec::new();
    {
        let mut enc = png::Encoder::new(&mut png_bytes, 2, 1);
        enc.set_color(png::ColorType::Rgb);
        enc.set_depth(png::BitDepth::Eight);
        let mut w = enc.write_header().unwrap();
        w.write_image_data(&[1, 2, 3, 4, 5, 6]).unwrap();
        w.finish().unwrap();
    }
    let d = decode_bytes(&png_bytes, "http://x/a.png").unwrap();
    assert_eq!((d.width, d.height), (2, 1));
    assert_eq!(d.rgba, vec![1, 2, 3, 255, 4, 5, 6, 255]);
    assert!(d.icc_profile.is_none());
}

#[test]
fn decode_bytes_of_unknown_bytes_is_a_decode_error() {
    let err = decode_bytes(b"not an image", "http://x/a").unwrap_err();
    assert!(matches!(err, ImageError::Decode(m) if m.contains("could not be determined")));
}
