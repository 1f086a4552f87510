use image::ImageEncoder;
use media_proxy::config::{
    default_expand_mode, default_fit, default_frame_cache_mb, default_frame_cache_min_frames, default_image_method,
    default_spread_max_fps, default_true, HwConfig, LogConfig, PlaybackConfig, PlaybackStillConfig, ResolverConfig,
    YoutubeConfig,
};
use media_proxy::api::{export_dims_ok, fit_from_request, frame_entry};
use media_proxy::control::fields::{merge_update, pixel_format_str, Fit, HwPref, StreamSettings, UpdateRequest};
use media_proxy::control::protocol::error_response;
use media_proxy::control::ws::{host_or_default, is_benign_disconnect, ws_step, Phase, WsAction, WsEvent};
use media_proxy::error::{ControlError, ImageError};
use media_proxy::image::animated::webp::{next_read, rgb_to_rgba, WebpRead};
use media_proxy::image::animated::{admit_frame, animated_kind, check_decoded, Kind};
use media_proxy::image::pipeline::{pack_linear, unpack_linear};
use media_proxy::output::sink::PixelFormat;
use media_proxy::viewer::{PacketOutcome, ViewerState, RENDER_INTERVAL_NS};

// ---- update merging ----

fn settings() -> StreamSettings {
    StreamSettings {
        width: 64,
        height: 32,
        source: "http://a/x.gif".into(),
        ddp_port: 4048,
        looping: true,
        expand: 0,
        hw: HwPref::Auto,
        fit: Fit::Auto,
        fmt: PixelFormat::Rgb888,
        pace: 0,
    }
}

fn no_update() -> UpdateRequest {
    UpdateRequest {
        w: None,
        h: None,
        ddp_port: None,
        looping: None,
        expand: None,
        hw: None,
        fit: None,
        pace: None,
        source: None,
        fmt: None,
        ema_in_range: true,
    }
}

#[test]
fn update_overlays_set_fields_only() {
    let upd = UpdateRequest {
        w: Some(128),
        pace: Some(30),
        fmt: Some("RGB565LE".into()),
        source: Some(Ok("http://b/y.png".into())),
        ..no_update()
    };
    let s = merge_update(settings(), upd).unwrap();
    assert_eq!((s.width, s.height, s.pace), (128, 32, 30));
    assert_eq!(s.fmt, PixelFormat::Rgb565Le);
    assert_eq!(s.source, "http://b/y.png");
    assert!(s.looping);
    // An unknown format is ignored; a bad source is refused.
    let s = merge_update(settings(), UpdateRequest { fmt: Some("cmyk".into()), ..no_update() }).unwrap();
    assert_eq!(s.fmt, PixelFormat::Rgb888);
    let err = merge_update(settings(), UpdateRequest { source: Some(Err("bad src".into())), ..no_update() });
    assert!(matches!(err, Err(ControlError::BadRequest(m)) if m == "bad src"));
}

#[test]
fn updates_pass_the_start_checks() {
    let refused = |upd: UpdateRequest, msg: &str| {
        let r = merge_update(settings(), upd);
        assert!(matches!(r, Err(ControlError::BadRequest(ref m)) if m == msg), "{msg}");
    };
    refused(UpdateRequest { w: Some(0), ..no_update() }, "w/h must be > 0");
    refused(UpdateRequest { h: Some(5000), ..no_update() }, "w/h must be \u{2264} 4096");
    refused(UpdateRequest { ddp_port: Some(0), ..no_update() }, "ddp_port must be > 0");
    refused(UpdateRequest { ema_in_range: false, ..no_update() }, "ema must be in [0.0, 1.0]");
    refused(UpdateRequest { expand: Some(3), ..no_update() }, "expand must be 0, 1, or 2");
    assert!(merge_update(settings(), UpdateRequest { w: Some(4096), expand: Some(2), ..no_update() }).is_ok());
}

#[test]
fn applied_format_names() {
    assert_eq!(pixel_format_str(PixelFormat::Rgb888), "rgb888");
    assert_eq!(pixel_format_str(PixelFormat::Rgb565Be), "rgb565be");
    assert_eq!(pixel_format_str(PixelFormat::Rgb565Le), "rgb565le");
}

// ---- error frames ----

#[test]
fn error_frames_carry_code_and_message() {
    let e = error_response(&ControlError::Protocol("boom".into()));
    assert_eq!((e.code.as_str(), e.message.as_str()), ("proto", "protocol: boom"));
    let e = error_response(&ControlError::BadRequest("w/h must be > 0".into()));
    assert_eq!((e.code.as_str(), e.message.as_str()), ("bad_request", "bad request: w/h must be > 0"));
    let e = error_response(&ControlError::UnknownOutput(-3));
    assert_eq!(e.message, "unknown output: -3");
    let json_err = serde_json::from_str::<u32>("x").unwrap_err();
    let e = error_response(&ControlError::Json(json_err));
    assert_eq!(e.code, "bad_request");
    assert!(e.message.starts_with("json: "));
}

// ---- connection protocol ----

fn reply(a: &WsAction) -> (String, String, bool) {
    match a {
        WsAction::Reply { code, message, close } => (code.clone(), message.clone(), *close),
        _ => panic!("expected a reply"),
    }
}

#[test]
fn hello_must_come_first() {
    let (p, a) = ws_step(Phase::AwaitHello, WsEvent::Text(Ok(true)));
    assert_eq!(p, Phase::Open);
    assert!(matches!(a, WsAction::Dispatch));
    let (p, a) = ws_step(Phase::AwaitHello, WsEvent::Text(Ok(false)));
    assert_eq!(p, Phase::Closed);
    assert_eq!(reply(&a), ("proto".into(), "expect 'hello' first".into(), true));
    let (_, a) = ws_step(Phase::AwaitHello, WsEvent::Text(Err("eof".into())));
    assert_eq!(reply(&a), ("proto".into(), "invalid hello: eof".into(), true));
    let (_, a) = ws_step(Phase::AwaitHello, WsEvent::OtherFrame);
    assert_eq!(reply(&a), ("proto".into(), "expected text message".into(), false));
    let (p, a) = ws_step(Phase::AwaitHello, WsEvent::Timeout);
    assert_eq!(p, Phase::Closed);
    assert!(matches!(a, WsAction::Stop));
}

#[test]
fn open_connection_dispatches_and_heartbeats() {
    let (p, a) = ws_step(Phase::Open, WsEvent::Text(Err("bad".into())));
    assert_eq!(p, Phase::Open);
    assert_eq!(reply(&a), ("bad_request".into(), "bad".into(), false));
    assert!(matches!(ws_step(Phase::Open, WsEvent::OtherFrame).1, WsAction::Idle));
    assert!(matches!(ws_step(Phase::Open, WsEvent::Tick { idle_ns: 45_000_000_000 }).1, WsAction::Ping));
    let (p, a) = ws_step(Phase::Open, WsEvent::Tick { idle_ns: 45_000_000_001 });
    assert_eq!(p, Phase::Closed);
    assert!(matches!(a, WsAction::Stop));
    assert!(matches!(ws_step(Phase::Open, WsEvent::CloseFrame).1, WsAction::Stop));
    assert!(matches!(ws_step(Phase::Closed, WsEvent::Text(Ok(true))).1, WsAction::Stop));
}

#[test]
fn disconnect_texts_and_host_fallback() {
    assert!(is_benign_disconnect("Connection RESET by peer"));
    assert!(is_benign_disconnect("Broken pipe (os error 32)"));
    assert!(!is_benign_disconnect("protocol violation"));
    assert_eq!(host_or_default(Some("10.0.0.2:8788")), "10.0.0.2:8788");
    assert_eq!(host_or_default(None), "localhost");
}

// ---- animated-image export ----

#[test]
fn export_frame_names() {
    let (file, id, entry) = frame_entry(0);
    assert_eq!(file, "frame_001.png");
    assert_eq!(id, "frame_001");
    assert_eq!(entry, "  - file: images/frame_001.png\n    id: frame_001\n    type: RGB565");
    assert_eq!(frame_entry(99).1, "frame_100");
    assert_eq!(frame_entry(1233).1, "frame_1234");
    assert_eq!(fit_from_request("pad"), Fit::Pad);
    assert_eq!(fit_from_request("auto"), Fit::Auto);
    assert_eq!(fit_from_request("stretch"), Fit::Cover);
    assert!(export_dims_ok(1, 4096));
    assert!(!export_dims_ok(0, 10));
    assert!(!export_dims_ok(10, 4097));
}

// ---- animation decoding decisions ----

#[test]
fn animations_route_by_container() {
    assert!(matches!(animated_kind(b"GIF89a...."), Ok(Kind::Gif)));
    let err = animated_kind(b"not an image").unwrap_err();
    assert!(matches!(err, ImageError::Decode(m) if m == "animated dispatcher called for single-frame input"));
    assert!(admit_frame(9_999).is_ok());
    assert!(matches!(admit_frame(10_000), Err(ImageError::Decode(m)) if m == "animated: exceeded max frames (10000)"));
    assert!(matches!(check_decoded(0), Err(ImageError::Decode(m)) if m == "animated: no frames decoded"));
    assert!(check_decoded(1).is_ok());
}

#[test]
fn webp_reads_and_expansion() {
    assert_eq!(next_read(None, 0), WebpRead::Image);
    assert_eq!(next_read(None, 1), WebpRead::Done);
    assert_eq!(next_read(Some(2), 1), WebpRead::Frame);
    assert_eq!(next_read(Some(2), 2), WebpRead::Done);
    assert_eq!(rgb_to_rgba(&[255, 0, 0, 1, 2, 3, 9]), vec![255, 0, 0, 255, 1, 2, 3, 255]);
}

#[test]
fn gamma_packing_roundtrips() {
    let src = [0u8, 128, 255, 7, 12, 34, 56, 200];
    let packed = pack_linear(&src, 2, 1);
    assert_eq!(packed[0], 0);
    assert_eq!(packed[2], 65535);
    assert_eq!(packed[3], 7 * 257);
    assert_eq!(unpack_linear(&packed, 2, 1), src.to_vec());
}

// ---- viewer ----

fn packet(flags: u8, cfg: u8, out: u8, offset: u32, payload: &[u8]) -> Vec<u8> {
    let mut p = vec![flags, 0, cfg, out];
    p.extend_from_slice(&offset.to_be_bytes());
    p.extend_from_slice(&(payload.len() as u16).to_be_bytes());
    p.extend_from_slice(payload);
    p
}

#[test]
fn viewer_assembles_and_paces_drawing() {
    let mut v = ViewerState::new();
    let t0 = 1_000_000_000;
    assert_eq!(v.on_packet(&[1, 2, 3], 1, 2, 1, t0), PacketOutcome::Ignored);
    assert_eq!(v.on_packet(&packet(0, 0x0B, 2, 0, &[1]), 1, 2, 1, t0), PacketOutcome::Ignored);
    assert_eq!(v.on_packet(&packet(0, 0x0B, 1, 0, &[1, 2, 3]), 1, 2, 1, t0), PacketOutcome::Stored { render: false });
    assert_eq!(v.on_packet(&packet(1, 0x0B, 1, 3, &[4, 5, 6]), 1, 2, 1, t0), PacketOutcome::Stored { render: true });
    assert_eq!(v.bytes_seen, 6);
    let (cfg, data) = v.snapshot(t0).unwrap();
    assert_eq!((cfg, data), (0x0B, vec![1, 2, 3, 4, 5, 6]));
    // Too soon after the drawing.
    assert_eq!(
        v.on_packet(&packet(1, 0x0B, 1, 0, &[9]), 1, 2, 1, t0 + RENDER_INTERVAL_NS - 1),
        PacketOutcome::Stored { render: false }
    );
    // A payload past the end is dropped; an unknown format is reported.
    v.on_packet(&packet(0, 0x0B, 1, 5, &[7, 7]), 1, 2, 1, t0);
    assert_eq!(v.frame.as_ref().unwrap().data, vec![9, 2, 3, 4, 5, 6]);
    assert_eq!(v.on_packet(&packet(0, 0x42, 1, 0, &[1]), 1, 2, 1, t0), PacketOutcome::UnknownFormat(0x42));
    // A new format starts the frame afresh.
    v.on_packet(&packet(0, 0x61, 1, 0, &[0xF8, 0x00]), 1, 2, 1, t0);
    assert_eq!(v.frame.as_ref().unwrap().data, vec![0xF8, 0x00, 0, 0]);
}

// ---- resolver decisions ----

use media_proxy::error::ResolverError;
use media_proxy::resolver::{check_status, should_cache};

#[test]
fn cache_disabled_overrides_loop_and_size() {
    assert!(!should_cache(Some(1_000_000), true, false, 5_000_000));
}

#[test]
fn cache_enabled_requires_loop_and_size_under_limit() {
    assert!(should_cache(Some(1_000_000), true, true, 5_000_000));
    assert!(!should_cache(Some(1_000_000), false, true, 5_000_000));
    assert!(!should_cache(Some(1_000_000), true, true, 500_000));
}

#[test]
fn cache_enabled_unknown_size_does_not_cache() {
    assert!(!should_cache(None, true, true, 5_000_000));
}

#[test]
fn sidecar_status_errors() {
    assert!(check_status(200, "ok").is_ok());
    let err = check_status(503, "down").unwrap_err();
    assert!(matches!(err, ResolverError::Unavailable(m) if m == "HTTP 503: down"));
    let long: String = std::iter::repeat('x').take(300).collect();
    let err = check_status(404, &long).unwrap_err();
    assert!(matches!(err, ResolverError::Unavailable(m) if m.len() == "HTTP 404: ".len() + 200));
}

// ---- session streams ----

use media_proxy::control::session::{client_id, ClientKey, SessionStreams};
use media_proxy::output::ddp::registry::DestAddr;
use media_proxy::output::sink::StreamId;

fn ckey(out: u8) -> ClientKey {
    ClientKey::Ddp { dest: DestAddr::V4(0x0A00_0002), output_id: out }
}

#[test]
fn session_restart_replaces_and_stop_detaches() {
    let mut s = SessionStreams::new();
    assert_eq!(s.attach(ckey(1), StreamId::new(1)), None);
    assert_eq!(s.attach(ckey(2), StreamId::new(2)), None);
    // A restart on output 1 replaces its stream, which is to be cancelled.
    assert_eq!(s.attach(ckey(1), StreamId::new(3)), Some(StreamId::new(1)));
    assert_eq!(s.stream_for(&ckey(1)), Some(StreamId::new(3)));
    assert_eq!(s.detach(&ckey(2)), Some(StreamId::new(2)));
    assert_eq!(s.detach(&ckey(2)), None);
    let mut left = s.drain();
    left.sort_by_key(|id| id.0);
    assert_eq!(left, vec![StreamId::new(3)]);
    assert_eq!(s.stream_for(&ckey(1)), None);
    assert_eq!(client_id(7), "ws-7");
}

// ---- configuration and decoding limits ----

use media_proxy::config::{config_format, ConfigFormat};
use media_proxy::image::decode::{check_input_size, icc_container, IccContainer, MAX_SIZE_LIMIT};

#[test]
fn config_formats_by_extension() {
    assert_eq!(config_format("YML"), Ok(ConfigFormat::Yaml));
    assert_eq!(config_format("toml"), Ok(ConfigFormat::Toml));
    assert_eq!(config_format("Json"), Ok(ConfigFormat::Json));
    assert_eq!(config_format("INI"), Err("unknown config extension: ini".to_string()));
    assert_eq!(config_format(""), Err("unknown config extension: ".to_string()));
}

#[test]
fn decoding_limits_and_containers() {
    assert!(check_input_size(MAX_SIZE_LIMIT).is_ok());
    assert!(matches!(
        check_input_size(MAX_SIZE_LIMIT + 1),
        Err(ImageError::DecompressionBomb { actual, limit }) if actual == MAX_SIZE_LIMIT + 1 && limit == MAX_SIZE_LIMIT
    ));
    assert_eq!(icc_container(&[0x89, b'P', b'N', b'G', 0]), IccContainer::Png);
    assert_eq!(icc_container(&[0xFF, 0xD8]), IccContainer::Jpeg);
    assert_eq!(icc_container(b"GIF8"), IccContainer::Other);
}

#[test]
fn opaque_webp_expands_rgb_to_rgba() {
    let mut data = Vec::new();
    image::codecs::webp::WebPEncoder::new_lossless(&mut data)
        .write_image(&[255, 0, 0], 1, 1, image::ExtendedColorType::Rgb8)
        .unwrap();
    let mut decoder = image_webp::WebPDecoder::new(std::io::Cursor::new(data)).unwrap();
    assert!(!decoder.is_animated() && !decoder.has_alpha());
    let frame_count = if decoder.is_animated() { Some(decoder.num_frames()) } else { None };
    assert_eq!(next_read(frame_count, 0), WebpRead::Image);
    let mut buf = vec![0u8; decoder.output_buffer_size().unwrap()];
    decoder.read_image(&mut buf).unwrap();
    assert_eq!(rgb_to_rgba(&buf), [255, 0, 0, 255]);
    assert_eq!(next_read(frame_count, 1), WebpRead::Done);
}

#[test]
fn defaults_are_stable() {
    assert_eq!(HwConfig::default().prefer, "auto");
    assert_eq!(default_expand_mode(), 2);
    assert_eq!(default_fit(), "auto");
    assert!(PlaybackConfig::default().looping);
    let yt = YoutubeConfig::default();
    assert!(yt.prefer_60fps);
    assert!(yt.cache.enabled);
    assert_eq!(yt.cache.max_size, 5 * 1024 * 1024);
    assert_eq!(default_image_method(), "lanczos");
    assert!(default_true());
    assert_eq!(default_frame_cache_mb(), 32);
    assert_eq!(default_frame_cache_min_frames(), 5);
    assert_eq!(LogConfig::default().rate_ms, 5000);
    assert_eq!(default_spread_max_fps(), 60);
    assert_eq!(PlaybackStillConfig::default().redundancy, 3);
    let r = ResolverConfig::default();
    assert!(r.url.is_none());
    assert_eq!(r.timeout_ms, 30_000);
}
