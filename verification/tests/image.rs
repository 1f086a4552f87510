use media_proxy::image::pipeline::resize_rgba_gamma_aware;
use media_proxy::image::resize::{resize_rgba, ResizeFilter};
use media_proxy::image::animated::{composite_row_over, is_animated, sniff, Kind};
use media_proxy::image::gamma::{linear_to_srgb, linear_to_srgb_lut, srgb_to_linear, srgb_to_linear_lut};
use media_proxy::image::palette::Paletted;
use media_proxy::image::resize::{
    composite_row_over_black, cover_fits, cover_rgba_to_rgb888, letterbox_fits, letterbox_rgba_to_rgb888,
    ResampleMethod,
};
use media_proxy::error::ImageError;
use media_proxy::image::unsharp::{blur_fits, box_blur_rgb888};

// ---- gamma ----

#[test]
fn roundtrip_edges() {
    let to_linear = srgb_to_linear_lut();
    let to_srgb = linear_to_srgb_lut();
    assert_eq!(to_linear[0], 0);
    assert_eq!(to_linear[255], 65535);
    assert_eq!(to_srgb[0], 0);
    assert_eq!(to_srgb[65535], 255);
}

#[test]
fn roundtrip_midtones_within_1_lsb() {
    let to_linear = srgb_to_linear_lut();
    let to_srgb = linear_to_srgb_lut();
    for i in 0u8..=255 {
        let linear = to_linear[i as usize];
        let back = to_srgb[linear as usize];
        let delta = (back as i32 - i as i32).abs();
        assert!(delta <= 1, "i={i} linear={linear} back={back}");
    }
}

/// The tables agree with the sRGB transfer curve evaluated in double precision.
#[test]
fn tables_match_the_transfer_curve() {
    let to_linear = srgb_to_linear_lut();
    for (i, v) in to_linear.iter().enumerate() {
        let x = i as f64 / 255.0;
        let lin = if x <= 0.04045 { x / 12.92 } else { ((x + 0.055) / 1.055).powf(2.4) };
        assert_eq!(*v, (lin * 65535.0 + 0.5).clamp(0.0, 65535.0) as u16);
    }
    let to_srgb = linear_to_srgb_lut();
    for (i, v) in to_srgb.iter().enumerate() {
        let y = i as f64 / 65535.0;
        let s = if y <= 0.003_130_8 { y * 12.92 } else { 1.055 * y.powf(1.0 / 2.4) - 0.055 };
        assert_eq!(*v, (s * 255.0 + 0.5).clamp(0.0, 255.0) as u8);
    }
}

#[test]
fn slice_conversions() {
    let mut lin = [0u16; 3];
    srgb_to_linear(&[0, 128, 255], &mut lin);
    assert_eq!(lin, [0, 14146, 65535]);
    let mut back = [0u8; 3];
    linear_to_srgb(&lin, &mut back);
    assert_eq!(back, [0, 128, 255]);
}

// ---- palette ----

#[test]
fn palette_resize_nearest_and_transparency() {
    let p = Paletted {
        indices: vec![0, 1, 2, 3],
        width: 2,
        height: 2,
        palette_rgb: vec![[10, 20, 30], [40, 50, 60], [70, 80, 90]],
        transparency_index: Some(1),
    };
    let out = p.resize_to_rgb888(4, 2).unwrap();
    // Each source pixel covers two columns; index 1 is transparent (black),
    // index 3 is past the palette and takes its last entry.
    let mut expected = vec![10, 20, 30, 10, 20, 30, 0, 0, 0, 0, 0, 0];
    expected.extend_from_slice(&[70, 80, 90].repeat(4));
    assert_eq!(out, expected);
    // A single row samples the source row under its center, row 1.
    assert_eq!(p.resize_to_rgb888(2, 1).unwrap(), [70, 80, 90].repeat(2));
    let out = p.resize_to_rgb888(1, 2).unwrap();
    // Column 1 is sampled.
    assert_eq!(out, vec![0, 0, 0, 70, 80, 90]);
    assert!(matches!(p.resize_to_rgb888(0, 3), Err(ImageError::Resize(m)) if m == "dst dimensions zero"));
}

// ---- resize ----

#[test]
fn method_names() {
    assert_eq!(ResampleMethod::from_str_canon("BOX"), ResampleMethod::Box);
    assert_eq!(ResampleMethod::from_str_canon("whatever"), ResampleMethod::Lanczos);
    assert_eq!(ResampleMethod::Bicubic.as_str(), "bicubic");
    assert_eq!(ResampleMethod::from_str_canon(ResampleMethod::Auto.as_str()), ResampleMethod::Auto);
}

#[test]
fn blending_against_black() {
    let mut dst = [9u8; 9];
    composite_row_over_black(&[10, 20, 30, 255, 10, 20, 30, 0, 255, 255, 255, 128], &mut dst);
    assert_eq!(dst, [10, 20, 30, 0, 0, 0, 128, 128, 128]);
}

#[test]
fn letterbox_and_cover() {
    // One opaque red pixel centered in a 3x1 canvas.
    let out = letterbox_rgba_to_rgb888(&[255, 0, 0, 255], 1, 1, 3, 1);
    assert_eq!(out, vec![0, 0, 0, 255, 0, 0, 0, 0, 0]);
    // The middle pixel of a 3x1 image cropped to 1x1.
    let out = cover_rgba_to_rgb888(&[1, 1, 1, 255, 2, 2, 2, 255, 3, 3, 3, 255], 3, 1, 1, 1);
    assert_eq!(out, vec![2, 2, 2]);
}

// ---- animated ----

#[test]
fn containers_are_recognized() {
    assert_eq!(sniff(b"GIF89a...."), Some(Kind::Gif));
    assert_eq!(sniff(b"RIFF\0\0\0\0WEBPVP8 "), Some(Kind::Webp));
    let mut png = vec![0x89, b'P', b'N', b'G', 0x0D, 0x0A, 0x1A, 0x0A];
    png.extend_from_slice(&[0, 0, 0, 13]);
    png.extend_from_slice(b"IHDR");
    png.extend_from_slice(&[0u8; 17]);
    let mut apng = png.clone();
    apng.extend_from_slice(&[0, 0, 0, 8]);
    apng.extend_from_slice(b"acTL");
    png.extend_from_slice(&[0, 0, 0, 0]);
    png.extend_from_slice(b"IDAT");
    assert_eq!(sniff(&png), Some(Kind::SinglePng));
    assert_eq!(sniff(&apng), Some(Kind::Apng));
    assert!(is_animated(&apng));
    assert!(!is_animated(&png));
    assert_eq!(sniff(b"hello"), None);
}

#[test]
fn alpha_over() {
    let mut dst = [100u8, 100, 100, 255, 1, 2, 3, 4];
    composite_row_over(&mut dst, &[200, 0, 50, 128, 9, 9, 9, 0]);
    assert_eq!(dst, [150, 49, 74, 255, 1, 2, 3, 4]);
}

// ---- box blur ----

/// Direct window summation provides an independent blur reference.
fn box_blur_naive(src: &[u8], width: u32, height: u32, radius: f32) -> Vec<u8> {
    let mut tmp = src.to_vec();
    let r = radius.round().max(1.0) as i32;
    let w = width as i32;
    let h = height as i32;
    let mut out = vec![0u8; src.len()];
    for y in 0..h {
        for x in 0..w {
            let x0 = (x - r).max(0);
            let x1 = (x + r).min(w - 1);
            let count = (x1 - x0 + 1) as u32;
            let (mut sr, mut sg, mut sb) = (0u32, 0u32, 0u32);
            for xx in x0..=x1 {
                let idx = ((y * w + xx) * 3) as usize;
                sr += tmp[idx] as u32;
                sg += tmp[idx + 1] as u32;
                sb += tmp[idx + 2] as u32;
            }
            let o = ((y * w + x) * 3) as usize;
            out[o] = (sr / count) as u8;
            out[o + 1] = (sg / count) as u8;
            out[o + 2] = (sb / count) as u8;
        }
    }
    tmp.copy_from_slice(&out);
    for x in 0..w {
        for y in 0..h {
            let y0 = (y - r).max(0);
            let y1 = (y + r).min(h - 1);
            let count = (y1 - y0 + 1) as u32;
            let (mut sr, mut sg, mut sb) = (0u32, 0u32, 0u32);
            for yy in y0..=y1 {
                let idx = ((yy * w + x) * 3) as usize;
                sr += tmp[idx] as u32;
                sg += tmp[idx + 1] as u32;
                sb += tmp[idx + 2] as u32;
            }
            let o = ((y * w + x) * 3) as usize;
            out[o] = (sr / count) as u8;
            out[o + 1] = (sg / count) as u8;
            out[o + 2] = (sb / count) as u8;
        }
    }
    out
}

fn rand_image(w: u32, h: u32, seed: u64) -> Vec<u8> {
    let mut s = seed;
    let n = (w * h * 3) as usize;
    let mut v = Vec::with_capacity(n);
    for _ in 0..n {
        s = s
            .wrapping_mul(6364136223846793005)
            .wrapping_add(1442695040888963407);
        v.push((s >> 33) as u8);
    }
    v
}

#[test]
fn sliding_window_matches_naive_for_various_sizes_and_radii() {
    for &(w, h) in &[(1, 1), (2, 3), (4, 4), (16, 9), (33, 17), (64, 64)] {
        for &r in &[1.0f32, 2.0, 3.0, 5.0] {
            let src = rand_image(w, h, (w as u64) * 1000 + h as u64 + (r as u64));
            let fast = box_blur_rgb888(&src, w, h, r.round() as u32);
            let slow = box_blur_naive(&src, w, h, r);
            assert_eq!(fast, slow, "blur mismatch w={w} h={h} r={r}");
        }
    }
}

#[test]
fn box_blur_averages_a_small_image() {
    // One row of three pixels, radius one: windows of two, three, two pixels.
    let src = [0u8, 10, 20, 30, 40, 50, 61, 70, 80];
    let out = box_blur_rgb888(&src, 3, 1, 1);
    assert_eq!(out, vec![15, 25, 35, 30, 40, 50, 45, 55, 65]);
}

#[test]
fn box_blur_zero_radius_acts_as_one_and_pads_with_zero() {
    let src = [0u8, 0, 0, 90, 90, 90, 7, 7];
    // Two pixels in one row; the two trailing bytes are outside the image.
    let out = box_blur_rgb888(&src, 2, 1, 0);
    assert_eq!(out, vec![45, 45, 45, 45, 45, 45, 0, 0]);
}

// ---- frame cache ----

use media_proxy::image::animated::cache::{CacheKey, FrameCache};

fn key(url: &str) -> CacheKey {
    CacheKey {
        url: url.into(),
        width: 64,
        height: 64,
        fit: "pad",
        method: "lanczos",
    }
}

/// A sequence of `size_kb` kibibytes, as the cache accounts for it.
fn seq_bytes(size_kb: usize) -> usize {
    size_kb * 1024
}

#[test]
fn eligibility_requires_loop_and_min_frames() {
    let c: FrameCache<u32> = FrameCache::new(32, 5);
    assert!(!c.eligible(4, true));
    assert!(c.eligible(5, true));
    assert!(!c.eligible(5, false));
}

#[test]
fn zero_mb_disables_cache() {
    let c: FrameCache<u32> = FrameCache::new(0, 5);
    assert!(!c.is_enabled());
    assert!(!c.eligible(10, true));
}

#[test]
fn lru_evicts_oldest() {
    let mut c: FrameCache<u32> = FrameCache::new(2, 1); // 2 MB cap, three 1 MB entries
    let k1 = key("a");
    let k2 = key("b");
    let k3 = key("c");
    c.insert(k1.clone(), 1, seq_bytes(1024));
    c.insert(k2.clone(), 2, seq_bytes(1024));
    c.insert(k3.clone(), 3, seq_bytes(1024)); // evicts k1
    assert!(c.get(&k1).is_none());
    assert!(c.get(&k2).is_some());
    assert!(c.get(&k3).is_some());
}

#[test]
fn touching_moves_to_mru() {
    let mut c: FrameCache<u32> = FrameCache::new(2, 1);
    let k1 = key("a");
    let k2 = key("b");
    let k3 = key("c");
    c.insert(k1.clone(), 1, seq_bytes(1024));
    c.insert(k2.clone(), 2, seq_bytes(1024));
    let _ = c.get(&k1); // touch k1 to protect it from eviction
    c.insert(k3.clone(), 3, seq_bytes(1024)); // evicts k2, not k1
    assert!(c.get(&k1).is_some());
    assert!(c.get(&k2).is_none());
}

#[test]
fn oversized_insert_refused() {
    let mut c: FrameCache<u32> = FrameCache::new(1, 1);
    let k1 = key("big");
    assert!(!c.insert(k1.clone(), 1, seq_bytes(2 * 1024)));
    assert!(c.get(&k1).is_none());
}

#[test]
fn reinsert_replaces_value_and_lookup_returns_it() {
    let mut c: FrameCache<u32> = FrameCache::new(2, 1);
    let k1 = key("a");
    assert!(c.insert(k1.clone(), 1, 10));
    assert!(c.insert(k1.clone(), 7, 20));
    assert_eq!(c.get(&k1), Some(&7));
    // Keys differ by any part.
    let mut other = key("a");
    other.fit = "cover";
    assert_eq!(c.get(&other), None);
}

// ---- APNG compositing ----

use media_proxy::image::animated::apng::{
    expand_to_rgba8, ApngCanvas, BitDepth, BlendOp, ColorKind, DisposeOp, FrameControl,
};

fn fc(x: u32, y: u32, w: u32, h: u32, dispose_op: DisposeOp, blend_op: BlendOp) -> FrameControl {
    FrameControl { width: w, height: h, x_offset: x, y_offset: y, delay_num: 1, delay_den: 10, dispose_op, blend_op }
}

#[test]
fn expansion_of_each_color_type() {
    let mut out = Vec::new();
    expand_to_rgba8(&[1, 2, 3, 4, 5, 6], ColorKind::Rgb, 2, &mut out).unwrap();
    assert_eq!(out, vec![1, 2, 3, 255, 4, 5, 6, 255]);
    expand_to_rgba8(&[9, 128], ColorKind::GrayscaleAlpha, 1, &mut out).unwrap();
    assert_eq!(out, vec![9, 9, 9, 128]);
    expand_to_rgba8(&[7, 8], ColorKind::Grayscale, 2, &mut out).unwrap();
    assert_eq!(out, vec![7, 7, 7, 255, 8, 8, 8, 255]);
    expand_to_rgba8(&[1, 2, 3, 4], ColorKind::Rgba, 1, &mut out).unwrap();
    assert_eq!(out, vec![1, 2, 3, 4]);
    // A short buffer leaves the remaining pixels as the scratch held them.
    expand_to_rgba8(&[5, 6, 7], ColorKind::Rgb, 2, &mut out).unwrap();
    assert_eq!(out, vec![5, 6, 7, 255, 0, 0, 0, 0]);
    let err = expand_to_rgba8(&[0], ColorKind::Indexed, 1, &mut out).unwrap_err();
    assert!(matches!(err, ImageError::Decode(m) if m == "apng: indexed color not supported (png crate should expand)"));
}

#[test]
fn canvas_limits() {
    assert!(ApngCanvas::new(2, 2, Some(1)).is_ok());
    let err = ApngCanvas::new(9000, 10, Some(1)).err().unwrap();
    assert!(matches!(err, ImageError::Decode(m) if m == "apng: dimensions 9000x10 exceed cap"));
}

#[test]
fn frames_composite_and_dispose() {
    let mut c = ApngCanvas::new(2, 1, Some(3)).unwrap();
    assert!(c.wants_frame());
    // Frame 1: the whole canvas, opaque red and green; kept.
    let f1 = c
        .next_frame(fc(0, 0, 2, 1, DisposeOp::Keep, BlendOp::Source), ColorKind::Rgba, BitDepth::Eight, &[
            255, 0, 0, 255, 0, 255, 0, 255,
        ])
        .unwrap();
    assert_eq!(f1, vec![255, 0, 0, 255, 0, 255, 0, 255]);
    // Frame 2: half-transparent blue over the right pixel; restored after.
    let f2 = c
        .next_frame(fc(1, 0, 1, 1, DisposeOp::Previous, BlendOp::Over), ColorKind::Rgba, BitDepth::Eight, &[
            0, 0, 255, 51,
        ])
        .unwrap();
    assert_eq!(f2, vec![255, 0, 0, 255, 0, 204, 51, 255]);
    assert_eq!(c.canvas, f1);
    // Frame 3: a gray left pixel, cleared to transparent black after.
    let f3 = c
        .next_frame(fc(0, 0, 1, 1, DisposeOp::Background, BlendOp::Source), ColorKind::Grayscale, BitDepth::Eight, &[
            9,
        ])
        .unwrap();
    assert_eq!(f3, vec![9, 9, 9, 255, 0, 255, 0, 255]);
    assert_eq!(c.canvas, vec![0, 0, 0, 0, 0, 255, 0, 255]);
    assert_eq!(c.frames_read, 3);
    assert!(!c.wants_frame());
}

#[test]
fn sixteen_bit_frames_are_refused() {
    let mut c = ApngCanvas::new(1, 1, Some(1)).unwrap();
    let err = c
        .next_frame(fc(0, 0, 1, 1, DisposeOp::Keep, BlendOp::Source), ColorKind::Rgba, BitDepth::Sixteen, &[0; 8])
        .unwrap_err();
    assert!(matches!(err, ImageError::Decode(m) if m == "apng: unsupported bit depth Sixteen"));
    assert_eq!(c.frames_read, 0);
}

// ---- ICC ----

use media_proxy::image::icc::{names_srgb, to_srgb_inplace, to_srgb_inplace_soft};

#[test]
fn icc_absent_or_srgb_profiles_leave_pixels() {
    let mut px = vec![10u8, 20, 30, 255, 7];
    assert!(matches!(to_srgb_inplace(&mut px, None), Ok(false)));
    let srgb = lcms2::Profile::new_srgb().icc().unwrap();
    assert!(matches!(to_srgb_inplace(&mut px, Some(&srgb)), Ok(false)));
    assert_eq!(px, vec![10, 20, 30, 255, 7]);
}

#[test]
fn icc_bad_profiles_are_errors_and_soft_ignores_them() {
    let mut px = vec![1u8, 2, 3, 4];
    let err = to_srgb_inplace(&mut px, Some(&[])).unwrap_err();
    assert!(matches!(err, ImageError::Icc(m) if m == "load embedded profile: Requested data is empty or does not exist."));
    let err = to_srgb_inplace(&mut px, Some(&[1, 2, 3])).unwrap_err();
    assert!(matches!(err, ImageError::Icc(m) if m.starts_with("load embedded profile: Could not create the object.")));
    assert!(!to_srgb_inplace_soft(&mut px, Some(&[1, 2, 3])));
    assert_eq!(px, vec![1, 2, 3, 4]);
}

#[test]
fn srgb_descriptions() {
    assert!(names_srgb("sRGB IEC61966-2.1"));
    assert!(names_srgb("my SRGB"));
    assert!(!names_srgb("Display P3"));
    assert!(!names_srgb("srg"));
}

#[test]
fn composite_preconditions_are_checked() {
    assert!(letterbox_fits(4, 1, 1, 3, 1));
    assert!(!letterbox_fits(3, 1, 1, 3, 1));
    assert!(cover_fits(12, 3, 1, 1, 1));
    assert!(!cover_fits(7, 3, 1, 1, 1));
    assert!(letterbox_fits(0, 0, 0, 4, 4));
    assert!(!letterbox_fits(usize::MAX, 4, 4, 70_000, 70_000));
}

#[test]
fn blur_preconditions_are_checked() {
    assert!(blur_fits(9, 3, 1, 1));
    assert!(!blur_fits(8, 3, 1, 1));
    assert!(!blur_fits(9, 0, 1, 1));
    assert!(blur_fits(6, 2, 1, 0));
    assert!(!blur_fits(usize::MAX, 3, 1, 0x7FFF_FFFF));
}

fn d65() -> lcms2::CIExyY {
    lcms2::CIExyY { x: 0.3127, y: 0.3290, Y: 1.0 }
}

#[test]
fn icc_other_rgb_profile_converts_whole_pixels() {
    let primaries = lcms2::CIExyYTRIPLE {
        Red: lcms2::CIExyY { x: 0.64, y: 0.33, Y: 1.0 },
        Green: lcms2::CIExyY { x: 0.21, y: 0.71, Y: 1.0 },
        Blue: lcms2::CIExyY { x: 0.15, y: 0.06, Y: 1.0 },
    };
    let curve = lcms2::ToneCurve::new(2.2);
    let wide = lcms2::Profile::new_rgb(&d65(), &primaries, &[&curve, &curve, &curve]).unwrap().icc().unwrap();
    let before = vec![100u8, 150, 200, 255, 7];
    let mut px = before.clone();
    assert!(matches!(to_srgb_inplace(&mut px, Some(&wide)), Ok(true)));
    assert_ne!(px[..4], before[..4]);
    assert_eq!(px[4], 7);
    let mut px2 = before.clone();
    assert!(to_srgb_inplace_soft(&mut px2, Some(&wide)));
    assert_eq!(px2, px);
}

#[test]
fn icc_gray_profile_cannot_build_an_rgb_transform() {
    let gray = lcms2::Profile::new_gray(&d65(), &lcms2::ToneCurve::new(2.2)).unwrap().icc().unwrap();
    let mut px = vec![1u8, 2, 3, 4];
    let err = to_srgb_inplace(&mut px, Some(&gray)).unwrap_err();
    assert!(matches!(err, ImageError::Icc(m) if m.starts_with("build transform: Could not create the object.")));
    assert!(!to_srgb_inplace_soft(&mut px, Some(&gray)));
    assert_eq!(px, vec![1, 2, 3, 4]);
}

// ---- resizer ----

#[test]
fn nearest_resize_repeats_the_pixel() {
    let out = resize_rgba(&[1, 2, 3, 4], 1, 1, 2, 2, ResizeFilter::Nearest).unwrap();
    assert_eq!(out, [1u8, 2, 3, 4].repeat(4));
}

#[test]
fn resize_refuses_a_short_source() {
    let err = resize_rgba(&[0, 0, 0], 1, 1, 1, 1, ResizeFilter::Box).unwrap_err();
    assert!(matches!(err, ImageError::Resize(m) if m == "Size of buffer is smaller than required"));
}

#[test]
fn gamma_aware_resize_at_the_same_size_keeps_the_bytes() {
    let src = vec![10u8, 128, 250, 77, 0, 255, 3, 255];
    let out = resize_rgba_gamma_aware(&src, 2, 1, 2, 1, ResizeFilter::Lanczos3).unwrap();
    assert_eq!(out, src);
}

#[test]
fn gamma_aware_resize_widens_through_linear_light() {
    let out = resize_rgba_gamma_aware(&[200, 100, 50, 255], 1, 1, 2, 1, ResizeFilter::Nearest).unwrap();
    assert_eq!(out, [200u8, 100, 50, 255].repeat(2));
}
