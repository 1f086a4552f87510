use media_proxy::api::{format_readme, format_yaml, parse_dims, placeholder_request, PlaceholderError};
use media_proxy::config::{default_hw_prefer, default_resolver_timeout, HwConfig, ResolverConfig, YoutubeConfig};
use media_proxy::control::fields::{
    output_id_byte, resolve_start, Fit, HwPref, StartDefaults, StartRequest,
};
use media_proxy::error::{ControlError, MediaError};
use media_proxy::output::sink::PixelFormat;
use media_proxy::platform::{auto_candidates, pick_hw_backend, HwBackend, TargetOs};
use media_proxy::resolver::{NoopResolver, ResolveRequest};
use media_proxy::error::ResolverError;
use media_proxy::viewer::{decode_565, decode_to_rgb888, FrameBuf};

// ---- platform ----

#[test]
fn pick_auto_returns_first_available() {
    let avail = [HwBackend::Qsv, HwBackend::Vaapi];
    assert_eq!(pick_hw_backend("auto", &avail, TargetOs::OtherUnix), Some(HwBackend::Vaapi));
    assert_eq!(pick_hw_backend("auto", &avail, TargetOs::Windows), Some(HwBackend::Qsv));
    assert_eq!(pick_hw_backend("auto", &avail, TargetOs::Macos), None);
}

#[test]
fn pick_specific_honored() {
    let avail = [HwBackend::Cuda];
    assert_eq!(pick_hw_backend("cuda", &avail, TargetOs::OtherUnix), Some(HwBackend::Cuda));
    assert_eq!(pick_hw_backend("d3d11", &avail, TargetOs::OtherUnix), None);
}

#[test]
fn pick_none() {
    let avail = [HwBackend::Cuda];
    assert_eq!(pick_hw_backend("none", &avail, TargetOs::OtherUnix), None);
}

#[test]
fn backend_names() {
    assert_eq!(HwBackend::from_str_canon("D3D11"), Some(HwBackend::D3d11va));
    assert_eq!(HwBackend::D3d11va.as_ffmpeg_flag(), "d3d11va");
    assert_eq!(auto_candidates(TargetOs::Macos), vec![HwBackend::Videotoolbox]);
    assert_eq!(pick_hw_backend("", &[HwBackend::Cuda], TargetOs::OtherUnix), Some(HwBackend::Cuda));
}

// ---- config ----

#[test]
fn config_defaults() {
    assert_eq!(default_hw_prefer(), "auto");
    assert_eq!(HwConfig::default().prefer, "auto");
    assert!(YoutubeConfig::default().cache.enabled);
    assert_eq!(YoutubeConfig::default().cache.max_size, 5 * 1024 * 1024);
    assert!(ResolverConfig::default().url.is_none());
    assert_eq!(default_resolver_timeout(), 30_000);
}

// ---- control ----

#[test]
fn output_ids_keep_low_byte() {
    assert_eq!(output_id_byte(7), 7);
    assert_eq!(output_id_byte(0x1FF), 0xFF);
    assert_eq!(output_id_byte(-1), 0xFF);
    assert_eq!(Fit::Cover.as_str(), "cover");
    assert_eq!(HwPref::Disabled.as_canon(), None);
    assert_eq!(HwPref::Vaapi.as_canon(), Some("vaapi"));
}

fn request() -> StartRequest {
    StartRequest {
        out: 1,
        w: 64,
        h: 32,
        source: Ok("http://x/y.gif".to_string()),
        ddp_port: None,
        ema_in_range: true,
        expand: None,
        fit: None,
        fmt: None,
        host_parse_error: None,
        looping: None,
        hw: None,
        pace: None,
    }
}

fn defaults() -> StartDefaults {
    StartDefaults { expand_mode: 2, fit: "cover".to_string(), looping: true }
}

fn bad(r: Result<media_proxy::control::fields::StartChoice, ControlError>) -> String {
    match r {
        Err(ControlError::BadRequest(m)) => m,
        _ => panic!("expected a bad request"),
    }
}

#[test]
fn start_request_defaults_and_errors() {
    let c = resolve_start(request(), &defaults()).ok().unwrap();
    assert_eq!(c.ddp_port, 4048);
    assert_eq!(c.fit, Fit::Cover);
    assert_eq!(c.fmt, PixelFormat::Rgb888);
    assert_eq!(c.expand, 2);
    assert!(c.looping);
    assert_eq!(c.hw, HwPref::Auto);
    assert_eq!(bad(resolve_start(StartRequest { w: 0, ..request() }, &defaults())), "w/h must be > 0");
    assert_eq!(bad(resolve_start(StartRequest { h: 5000, ..request() }, &defaults())), "w/h must be \u{2264} 4096");
    assert_eq!(bad(resolve_start(StartRequest { out: -1, ..request() }, &defaults())), "out must be \u{2265} 0");
    assert_eq!(bad(resolve_start(StartRequest { ddp_port: Some(0), ..request() }, &defaults())), "ddp_port must be > 0");
    assert_eq!(bad(resolve_start(StartRequest { expand: Some(3), ..request() }, &defaults())), "expand must be 0, 1, or 2");
    assert_eq!(
        bad(resolve_start(StartRequest { fmt: Some("yuv".to_string()), ..request() }, &defaults())),
        "unknown fmt: yuv"
    );
    assert_eq!(
        bad(resolve_start(StartRequest { source: Err("bad source".to_string()), out: -1, ..request() }, &defaults())),
        "bad source"
    );
}

#[test]
fn error_codes_and_media_errors() {
    assert_eq!(ControlError::Protocol("x".into()).code(), "proto");
    assert_eq!(ControlError::UnknownOutput(3).code(), "bad_request");
    let e = MediaError::Decode { source_url: "u".into(), message: "m".into(), retryable: true };
    assert!(e.is_retryable());
    assert_eq!(e.source_url(), "u");
    assert!(!MediaError::NotFound { source_url: "v".into() }.is_retryable());
}

// ---- resolver ----

#[test]
fn noop_resolver_names_the_url() {
    let req = ResolveRequest { url: "http://a".into(), target_h: 1, target_w: 1, hw_prefer: None, prefer_60fps: true };
    match NoopResolver.resolve(&req) {
        ResolverError::Unavailable(m) => {
            assert_eq!(m, "no resolver available \u{2014} install yt-dlp or set resolver.url to handle: http://a")
        }
        _ => panic!("expected unavailable"),
    }
}

// ---- api ----

#[test]
fn dimensions_and_placeholders() {
    assert_eq!(parse_dims("64x32"), Some((64, 32)));
    assert_eq!(parse_dims("800"), Some((800, 800)));
    assert_eq!(parse_dims("8x"), None);
    assert_eq!(placeholder_request("64x64", None).unwrap().err(), Some(PlaceholderError::ExtensionRequired));
    assert_eq!(placeholder_request("axb.png", None).unwrap().err(), Some(PlaceholderError::InvalidDimensions));
    assert_eq!(placeholder_request("5x64.png", None).unwrap().err(), Some(PlaceholderError::DimensionsOutOfRange));
    let p = placeholder_request("600x400/orange/white.png", None).unwrap().ok().unwrap();
    assert_eq!((p.width, p.height, p.bg, p.fg), (600, 400, [255, 165, 0], [255, 255, 255]));
    assert_eq!(p.text, "600x400");
    let p = placeholder_request("64.png", Some("a\\nb")).unwrap().ok().unwrap();
    assert_eq!((p.bg, p.fg), ([204, 204, 204], [0, 0, 0]));
    assert_eq!(p.text, "a\nb");
    assert_eq!(PlaceholderError::InvalidDimensions.message(), "Invalid dimensions format");
    // A two-byte character where a one-byte channel is expected.
    assert!(placeholder_request("64x64/\u{e9}1.png", None).is_none());
}

#[test]
fn export_texts() {
    let yaml = format_yaml(&["  - a".to_string(), "  - b".to_string()], &["f0".to_string(), "f1".to_string()], 200, 2);
    assert!(yaml.starts_with("# ESPHome animimg configuration\n"));
    assert!(yaml.contains("# Frames: 2\n# Total animation duration: 200ms\n\nimage:\n  - a\n  - b\nlvgl:\n"));
    assert!(yaml.contains("src:\n            - f0\n            - f1\nduration: 200ms\nrepeat_count: forever\n"));
    let readme = format_readme(3, 64, 32);
    assert!(readme.contains("This ZIP contains 3 frames at 64x32 for the ESPHome LVGL\n"));
}

// ---- viewer ----

#[test]
fn unpacks_565() {
    assert_eq!(decode_565(&[0xFF, 0xFF], true), vec![255, 255, 255]);
    assert_eq!(decode_565(&[0xF8, 0x00, 0x07], true), vec![255, 0, 0]);
    assert_eq!(decode_565(&[0x00, 0xF8], false), vec![255, 0, 0]);
    assert_eq!(decode_to_rgb888(&[1, 2, 3], 0x0B), vec![1, 2, 3]);
    assert!(decode_to_rgb888(&[1, 2, 3], 0x01).is_empty());
}

#[test]
fn frames_assemble_from_payloads() {
    let mut fb = FrameBuf::new(0x0B, 6, 0);
    fb.write_payload(2, &[7, 8]);
    assert_eq!(fb.data, vec![0, 0, 7, 8, 0, 0]);
    fb.write_payload(5, &[1, 1]);
    assert_eq!(fb.data, vec![0, 0, 7, 8, 0, 0]);
}
