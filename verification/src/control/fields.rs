//! Control protocol fields, and the checks and defaults that resolve a
//! `start_stream` request.

use vstd::prelude::*;

use crate::error::ControlError;
use crate::output::sink::pixel_format_named;
use crate::output::sink::PixelFormat;
use crate::text::chars_eq_str;
use crate::text::chars_of;
use crate::text::extend_chars;
use crate::text::lower_seq;
use crate::text::string_from_chars;

verus! {

#[derive(Debug, Clone, Copy, PartialEq, Eq, Structural)]
pub enum Fit {
    Pad,
    Cover,
    Auto,
}

impl Default for Fit {
    fn default() -> (r: Fit)
        ensures
            r == Fit::Auto,
    {
        Fit::Auto
    }
}

pub open spec fn fit_name(f: Fit) -> Seq<char> {
    match f {
        Fit::Pad => "pad"@,
        Fit::Cover => "cover"@,
        Fit::Auto => "auto"@,
    }
}

impl Fit {
    pub fn as_str(self) -> (r: &'static str)
        ensures
            r@ == fit_name(self),
    {
        proof {
            reveal_strlit("pad");
            reveal_strlit("cover");
            reveal_strlit("auto");
        }
        match self {
            Fit::Pad => "pad",
            Fit::Cover => "cover",
            Fit::Auto => "auto",
        }
    }
}

#[derive(Debug, Clone, Copy, PartialEq, Eq, Structural)]
pub enum HwPref {
    Auto,
    Disabled,
    Cuda,
    Qsv,
    Vaapi,
    Videotoolbox,
    D3d11va,
}

impl Default for HwPref {
    fn default() -> (r: HwPref)
        ensures
            r == HwPref::Auto,
    {
        HwPref::Auto
    }
}

/// The lower-case name that `ffmpeg -hwaccel` and the backend parser accept;
/// none for `Disabled` (the preference `none`).
pub open spec fn hw_canon(h: HwPref) -> Option<Seq<char>> {
    match h {
        HwPref::Auto => Some("auto"@),
        HwPref::Disabled => None,
        HwPref::Cuda => Some("cuda"@),
        HwPref::Qsv => Some("qsv"@),
        HwPref::Vaapi => Some("vaapi"@),
        HwPref::Videotoolbox => Some("videotoolbox"@),
        HwPref::D3d11va => Some("d3d11va"@),
    }
}

impl HwPref {
    pub fn as_canon(self) -> (r: Option<&'static str>)
        ensures
            match hw_canon(self) {
                Some(n) => r matches Some(s) && s@ == n,
                None => r is None,
            },
    {
        proof {
            reveal_strlit("auto");
            reveal_strlit("cuda");
            reveal_strlit("qsv");
            reveal_strlit("vaapi");
            reveal_strlit("videotoolbox");
            reveal_strlit("d3d11va");
        }
        match self {
            HwPref::Auto => Some("auto"),
            HwPref::Disabled => None,
            HwPref::Cuda => Some("cuda"),
            HwPref::Qsv => Some("qsv"),
            HwPref::Vaapi => Some("vaapi"),
            HwPref::Videotoolbox => Some("videotoolbox"),
            HwPref::D3d11va => Some("d3d11va"),
        }
    }
}

/// `stop_stream` request.
#[derive(Debug, Clone)]
pub struct StopStream {
    pub out: i32,
    pub ddp_host: Option<String>,
}

/// The DDP header's output id for a wire-level output: its low 8 bits.
pub fn output_id_byte(out: i32) -> (r: u8)
    ensures
        r == out % 256,
{
    let v: i32 = out & 0xFF;
    assert(v == out % 256) by (bit_vector)
        requires
            v == out & 0xFF,
    ;
    v as u8
}

/// Largest stream width or height: far above any LED display, it only
/// refuses requests that would make huge per-frame allocations.
pub const MAX_OUTPUT_DIM: u32 = 4096;

/// The resolved fields of a `start_stream` request (the source as the
/// caller normalized it; the addresses and the smoothing factor are handled
/// by the caller).
pub struct StartChoice {
    pub source: String,
    pub ddp_port: u16,
    pub looping: bool,
    pub expand: u8,
    pub hw: HwPref,
    pub fit: Fit,
    pub fmt: PixelFormat,
    pub pace: u32,
}

/// The parts of a `start_stream` request that the checks read, with the
/// results of the checks the caller makes (normalizing the source, the
/// range of the smoothing factor, parsing the DDP host).
pub struct StartRequest {
    pub out: i32,
    pub w: u32,
    pub h: u32,
    pub source: Result<String, String>,
    pub ddp_port: Option<u16>,
    pub ema_in_range: bool,
    pub expand: Option<u8>,
    pub fit: Option<Fit>,
    pub fmt: Option<String>,
    pub host_parse_error: Option<String>,
    pub looping: Option<bool>,
    pub hw: Option<HwPref>,
    pub pace: Option<u32>,
}

/// The defaults a start request falls back on.
pub struct StartDefaults {
    pub expand_mode: u8,
    pub fit: String,
    pub looping: bool,
}

/// The fit a configured name selects: `pad`, `cover`, anything else auto.
pub open spec fn fit_from_config(s: Seq<char>) -> Fit {
    if s == "pad"@ {
        Fit::Pad
    } else if s == "cover"@ {
        Fit::Cover
    } else {
        Fit::Auto
    }
}

/// The checks of a start request in order, each failure a bad request with
/// its message: a zero dimension, a dimension above [`MAX_OUTPUT_DIM`], the
/// source's own error, a negative output, port 0, a smoothing factor outside
/// `[0, 1]`, an expand mode above 2, an unknown pixel format (default
/// `rgb888`), an unparsable host. Otherwise the resolved fields: port 4048,
/// looping from the configuration, automatic hardware, fit from the
/// configuration, no pacing, by default.
pub open spec fn start_outcome(req: StartRequest, d: StartDefaults) -> Result<(Seq<char>, u16, bool, u8, HwPref, Fit, PixelFormat, u32), Seq<char>> {
    let expand = match req.expand {
        Some(e) => e,
        None => d.expand_mode,
    };
    let fmt_str = match req.fmt {
        Some(f) => f@,
        None => "rgb888"@,
    };
    if req.w == 0 || req.h == 0 {
        Err("w/h must be > 0"@)
    } else if req.w > 4096 || req.h > 4096 {
        Err("w/h must be \u{2264} 4096"@)
    } else if req.source is Err {
        Err(req.source->Err_0@)
    } else if req.out < 0 {
        Err("out must be \u{2265} 0"@)
    } else if req.ddp_port == Some(0u16) {
        Err("ddp_port must be > 0"@)
    } else if !req.ema_in_range {
        Err("ema must be in [0.0, 1.0]"@)
    } else if expand > 2 {
        Err("expand must be 0, 1, or 2"@)
    } else if pixel_format_named(fmt_str) is None {
        Err("unknown fmt: "@ + fmt_str)
    } else if req.host_parse_error is Some {
        Err("ddp_host parse: "@ + req.host_parse_error->Some_0@)
    } else {
        Ok(
            (
                req.source->Ok_0@,
                match req.ddp_port {
                    Some(p) => p,
                    None => 4048u16,
                },
                match req.looping {
                    Some(l) => l,
                    None => d.looping,
                },
                expand,
                match req.hw {
                    Some(h) => h,
                    None => HwPref::Auto,
                },
                match req.fit {
                    Some(f) => f,
                    None => fit_from_config(d.fit@),
                },
                pixel_format_named(fmt_str)->Some_0,
                match req.pace {
                    Some(p) => p,
                    None => 0u32,
                },
            ),
        )
    }
}

/// A start request's own settings win over the defaults: each field that
/// the request sets is the resolved value, and only an unset field takes
/// its default (port 4048, the configured looping and expand mode,
/// automatic hardware, the configured fit, no pacing, RGB888). A request
/// is accepted exactly when its size lies in `1..=4096` both ways, its
/// source, smoothing factor, format and host are good, its output is not
/// negative, its port is not 0 and its expand mode is at most 2.
pub proof fn lemma_start_request_wins(req: StartRequest, d: StartDefaults)
    ensures
        start_outcome(req, d) is Ok <==> {
            &&& 1 <= req.w <= 4096 && 1 <= req.h <= 4096
            &&& req.source is Ok
            &&& req.out >= 0
            &&& req.ddp_port != Some(0u16)
            &&& req.ema_in_range
            &&& (match req.expand {
                Some(e) => e,
                None => d.expand_mode,
            }) <= 2
            &&& pixel_format_named(
                match req.fmt {
                    Some(f) => f@,
                    None => "rgb888"@,
                },
            ) is Some
            &&& req.host_parse_error is None
        },
        start_outcome(req, d) matches Ok((src, port, lp, ex, hw, fit, fmt, pace)) ==> {
            &&& req.source matches Ok(s) && src == s@
            &&& (req.ddp_port matches Some(p) ==> port == p) && (req.ddp_port is None ==> port == 4048)
            &&& (req.looping matches Some(l) ==> lp == l) && (req.looping is None ==> lp == d.looping)
            &&& (req.expand matches Some(e) ==> ex == e) && (req.expand is None ==> ex == d.expand_mode)
            &&& (req.hw matches Some(h) ==> hw == h) && (req.hw is None ==> hw == HwPref::Auto)
            &&& (req.fit matches Some(f) ==> fit == f) && (req.fit is None ==> fit == fit_from_config(d.fit@))
            &&& (req.pace matches Some(p) ==> pace == p) && (req.pace is None ==> pace == 0)
            &&& req.fmt is None ==> fmt == PixelFormat::Rgb888
            &&& 1 <= port && ex <= 2
        },
{
    reveal_strlit("rgb888");
    let name = "rgb888"@;
    assert(lower_seq(name) =~= name);
}

fn bad_request(lit: &str) -> (r: ControlError)
    ensures
        r matches ControlError::BadRequest(m) && m@ == lit@,
{
    ControlError::BadRequest(string_from_chars(&chars_of(lit)))
}

fn bad_request_with(lit: &str, tail: &str) -> (r: ControlError)
    ensures
        r matches ControlError::BadRequest(m) && m@ == lit@ + tail@,
{
    let mut v = chars_of(lit);
    let t = chars_of(tail);
    extend_chars(&mut v, &t);
    ControlError::BadRequest(string_from_chars(&v))
}

/// Checks and resolves a start request (see [`start_outcome`]).
pub fn resolve_start(req: StartRequest, d: &StartDefaults) -> (r: Result<StartChoice, ControlError>)
    ensures
        match start_outcome(req, *d) {
            Ok((src, port, lp, ex, hw, fit, fmt, pace)) => r matches Ok(c) && c.source@ == src
                && c.ddp_port == port && c.looping == lp && c.expand == ex && c.hw == hw && c.fit
                == fit && c.fmt == fmt && c.pace == pace,
            Err(m) => r matches Err(ControlError::BadRequest(s)) && s@ == m,
        },
{
    proof {
        reveal_strlit("rgb888");
    }
    let ghost req0 = req;
    if req.w == 0 || req.h == 0 {
        return Err(bad_request("w/h must be > 0"));
    }
    if req.w > MAX_OUTPUT_DIM || req.h > MAX_OUTPUT_DIM {
        return Err(bad_request("w/h must be \u{2264} 4096"));
    }
    let source = match req.source {
        Ok(s) => s,
        Err(e) => {
            return Err(ControlError::BadRequest(e));
        },
    };
    if req.out < 0 {
        return Err(bad_request("out must be \u{2265} 0"));
    }
    if let Some(0) = req.ddp_port {
        return Err(bad_request("ddp_port must be > 0"));
    }
    if !req.ema_in_range {
        return Err(bad_request("ema must be in [0.0, 1.0]"));
    }
    let expand = match req.expand {
        Some(e) => e,
        None => d.expand_mode,
    };
    if expand > 2 {
        return Err(bad_request("expand must be 0, 1, or 2"));
    }
    let fit = match req.fit {
        Some(f) => f,
        None => {
            let dv = chars_of(d.fit.as_str());
            if chars_eq_str(&dv, "pad") {
                Fit::Pad
            } else if chars_eq_str(&dv, "cover") {
                Fit::Cover
            } else {
                Fit::Auto
            }
        },
    };
    let fmt_string = match req.fmt {
        Some(f) => f,
        None => string_from_chars(&chars_of("rgb888")),
    };
    let fmt = match PixelFormat::from_str_canon(fmt_string.as_str()) {
        Some(f) => f,
        None => {
            return Err(bad_request_with("unknown fmt: ", fmt_string.as_str()));
        },
    };
    if let Some(e) = req.host_parse_error {
        return Err(bad_request_with("ddp_host parse: ", e.as_str()));
    }
    Ok(
        StartChoice {
            source,
            ddp_port: match req.ddp_port {
                Some(p) => p,
                None => 4048,
            },
            looping: match req.looping {
                Some(l) => l,
                None => d.looping,
            },
            expand,
            hw: match req.hw {
                Some(h) => h,
                None => HwPref::Auto,
            },
            fit,
            fmt,
            pace: match req.pace {
                Some(p) => p,
                None => 0,
            },
        },
    )
}

/// The canonical name of a pixel format, as the `applied` view reports it.
pub open spec fn pixel_format_name(f: PixelFormat) -> Seq<char> {
    match f {
        PixelFormat::Rgb888 => "rgb888"@,
        PixelFormat::Rgb565Le => "rgb565le"@,
        PixelFormat::Rgb565Be => "rgb565be"@,
    }
}

pub fn pixel_format_str(f: PixelFormat) -> (r: &'static str)
    ensures
        r@ == pixel_format_name(f),
{
    proof {
        reveal_strlit("rgb888");
        reveal_strlit("rgb565le");
        reveal_strlit("rgb565be");
    }
    match f {
        PixelFormat::Rgb888 => "rgb888",
        PixelFormat::Rgb565Le => "rgb565le",
        PixelFormat::Rgb565Be => "rgb565be",
    }
}

/// The fields of a running stream that an `update` can replace; the caller
/// keeps the DDP host and the smoothing factor, which it merges itself.
pub struct StreamSettings {
    pub width: u32,
    pub height: u32,
    pub source: String,
    pub ddp_port: u16,
    pub looping: bool,
    pub expand: u8,
    pub hw: HwPref,
    pub fit: Fit,
    pub fmt: PixelFormat,
    pub pace: u32,
}

/// The fields of an `update` request, a new source with the result of
/// normalizing it, and whether a new smoothing factor lies in `[0, 1]`
/// (true when the update sets none).
pub struct UpdateRequest {
    pub w: Option<u32>,
    pub h: Option<u32>,
    pub ddp_port: Option<u16>,
    pub looping: Option<bool>,
    pub expand: Option<u8>,
    pub hw: Option<HwPref>,
    pub fit: Option<Fit>,
    pub pace: Option<u32>,
    pub source: Option<Result<String, String>>,
    pub fmt: Option<String>,
    pub ema_in_range: bool,
}

/// The value given, or the prior one.
pub open spec fn or_prior<T>(v: Option<T>, prior: T) -> T {
    match v {
        Some(x) => x,
        None => prior,
    }
}

/// The pixel format after an update: a recognized name replaces it, an
/// unknown one is ignored.
pub open spec fn merged_fmt(v: Option<String>, prior: PixelFormat) -> PixelFormat {
    match v {
        Some(s) => match pixel_format_named(s@) {
            Some(f) => f,
            None => prior,
        },
        None => prior,
    }
}

/// Why an update is refused: the merged fields go through the checks of a
/// start request, in its order — a zero dimension, a dimension above
/// [`MAX_OUTPUT_DIM`], the new source's own error, port 0, a smoothing
/// factor outside `[0, 1]`, an expand mode above 2.
pub open spec fn update_refusal(prior: StreamSettings, upd: UpdateRequest) -> Option<Seq<char>> {
    let w = or_prior(upd.w, prior.width);
    let h = or_prior(upd.h, prior.height);
    if w == 0 || h == 0 {
        Some("w/h must be > 0"@)
    } else if w > 4096 || h > 4096 {
        Some("w/h must be \u{2264} 4096"@)
    } else if upd.source matches Some(Err(e)) {
        Some(upd.source->Some_0->Err_0@)
    } else if or_prior(upd.ddp_port, prior.ddp_port) == 0 {
        Some("ddp_port must be > 0"@)
    } else if !upd.ema_in_range {
        Some("ema must be in [0.0, 1.0]"@)
    } else if or_prior(upd.expand, prior.expand) > 2 {
        Some("expand must be 0, 1, or 2"@)
    } else {
        None
    }
}

/// An update's own settings win over the prior ones: each field that an
/// accepted update sets is the new value, each it leaves unset keeps the
/// prior value; and an accepted update leaves fields that pass the start
/// checks: a size in `1..=4096` both ways, a port other than 0, and an
/// expand mode of at most 2.
pub proof fn lemma_update_wins(prior: StreamSettings, upd: UpdateRequest)
    requires
        update_refusal(prior, upd) is None,
    ensures
        (upd.w matches Some(v) ==> or_prior(upd.w, prior.width) == v) && (upd.w is None ==> or_prior(
            upd.w,
            prior.width,
        ) == prior.width),
        (upd.h matches Some(v) ==> or_prior(upd.h, prior.height) == v) && (upd.h is None ==> or_prior(
            upd.h,
            prior.height,
        ) == prior.height),
        (upd.ddp_port matches Some(v) ==> or_prior(upd.ddp_port, prior.ddp_port) == v) && (upd.ddp_port is None
            ==> or_prior(upd.ddp_port, prior.ddp_port) == prior.ddp_port),
        (upd.looping matches Some(v) ==> or_prior(upd.looping, prior.looping) == v) && (upd.looping is None
            ==> or_prior(upd.looping, prior.looping) == prior.looping),
        (upd.expand matches Some(v) ==> or_prior(upd.expand, prior.expand) == v) && (upd.expand is None
            ==> or_prior(upd.expand, prior.expand) == prior.expand),
        (upd.pace matches Some(v) ==> or_prior(upd.pace, prior.pace) == v) && (upd.pace is None ==> or_prior(
            upd.pace,
            prior.pace,
        ) == prior.pace),
        1 <= or_prior(upd.w, prior.width) <= 4096 && 1 <= or_prior(upd.h, prior.height) <= 4096,
        or_prior(upd.ddp_port, prior.ddp_port) >= 1,
        or_prior(upd.expand, prior.expand) <= 2,
{
}

/// Overlays an update onto a stream's fields: each field the update sets
/// replaces the prior value, the rest stay, and an unknown pixel format is
/// ignored; merged fields that fail the checks of a start request (see
/// [`update_refusal`]) are a bad request with its message.
pub fn merge_update(prior: StreamSettings, upd: UpdateRequest) -> (r: Result<StreamSettings, ControlError>)
    ensures
        match update_refusal(prior, upd) {
            Some(m) => r matches Err(ControlError::BadRequest(e)) && e@ == m,
            None => r matches Ok(s) && s.width == or_prior(upd.w, prior.width) && s.height == or_prior(
                upd.h,
                prior.height,
            ) && s.ddp_port == or_prior(upd.ddp_port, prior.ddp_port) && s.looping == or_prior(
                upd.looping,
                prior.looping,
            ) && s.expand == or_prior(upd.expand, prior.expand) && s.hw == or_prior(upd.hw, prior.hw)
                && s.fit == or_prior(upd.fit, prior.fit) && s.pace == or_prior(upd.pace, prior.pace)
                && s.source@ == (match upd.source {
                Some(Ok(n)) => n@,
                _ => prior.source@,
            }) && s.fmt == merged_fmt(upd.fmt, prior.fmt),
        },
{
    let ghost p0 = prior;
    let ghost u0 = upd;
    let mut out = prior;
    if let Some(v) = upd.w {
        out.width = v;
    }
    if let Some(v) = upd.h {
        out.height = v;
    }
    if out.width == 0 || out.height == 0 {
        return Err(bad_request("w/h must be > 0"));
    }
    if out.width > MAX_OUTPUT_DIM || out.height > MAX_OUTPUT_DIM {
        return Err(bad_request("w/h must be \u{2264} 4096"));
    }
    match upd.source {
        Some(Ok(s)) => {
            out.source = s;
        },
        Some(Err(e)) => {
            return Err(ControlError::BadRequest(e));
        },
        None => {},
    }
    if let Some(v) = upd.ddp_port {
        out.ddp_port = v;
    }
    if out.ddp_port == 0 {
        return Err(bad_request("ddp_port must be > 0"));
    }
    if !upd.ema_in_range {
        return Err(bad_request("ema must be in [0.0, 1.0]"));
    }
    if let Some(v) = upd.expand {
        out.expand = v;
    }
    if out.expand > 2 {
        return Err(bad_request("expand must be 0, 1, or 2"));
    }
    if let Some(v) = upd.looping {
        out.looping = v;
    }
    if let Some(v) = upd.hw {
        out.hw = v;
    }
    if let Some(v) = upd.fit {
        out.fit = v;
    }
    if let Some(v) = upd.pace {
        out.pace = v;
    }
    if let Some(s) = upd.fmt {
        if let Some(f) = PixelFormat::from_str_canon(s.as_str()) {
            out.fmt = f;
        }
    }
    Ok(out)
}

} // verus!
