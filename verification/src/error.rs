//! Error taxonomy of the subsystems. Each subsystem owns its own enum; the
//! `message` methods give the text the program shows for an error.

use vstd::prelude::*;

use crate::num::decimal;
use crate::num::push_decimal;
use crate::text::chars_of;
use crate::text::extend_chars;
use crate::text::string_from_chars;

verus! {

/// Media-layer error, independent of the decoding library.
///
/// `retryable` says whether a retry loop should try again; `source_url`
/// carries the input URL so that logs can name the stream.
#[derive(Debug, Clone)]
pub enum MediaError {
    Network { source_url: String, message: String, error_code: Option<i32>, retryable: bool },
    Format { source_url: String, message: String },
    Decode { source_url: String, message: String, retryable: bool },
    NotFound { source_url: String },
    Other { source_url: String, message: String },
}

impl MediaError {
    /// Network and decode errors flagged retryable; nothing else.
    pub open spec fn retryable_spec(&self) -> bool {
        match self {
            MediaError::Network { retryable, .. } => *retryable,
            MediaError::Decode { retryable, .. } => *retryable,
            _ => false,
        }
    }

    /// The URL that every variant carries.
    pub open spec fn source_url_spec(&self) -> Seq<char> {
        match self {
            MediaError::Network { source_url, .. } => source_url@,
            MediaError::Format { source_url, .. } => source_url@,
            MediaError::Decode { source_url, .. } => source_url@,
            MediaError::NotFound { source_url } => source_url@,
            MediaError::Other { source_url, .. } => source_url@,
        }
    }

    pub fn is_retryable(&self) -> (r: bool)
        ensures
            r == self.retryable_spec(),
    {
        match self {
            MediaError::Network { retryable, .. } => *retryable,
            MediaError::Decode { retryable, .. } => *retryable,
            _ => false,
        }
    }

    pub fn source_url(&self) -> (r: &str)
        ensures
            r@ == self.source_url_spec(),
    {
        match self {
            MediaError::Network { source_url, .. } => source_url.as_str(),
            MediaError::Format { source_url, .. } => source_url.as_str(),
            MediaError::Decode { source_url, .. } => source_url.as_str(),
            MediaError::NotFound { source_url } => source_url.as_str(),
            MediaError::Other { source_url, .. } => source_url.as_str(),
        }
    }
}

#[derive(Debug, Clone)]
pub enum VideoError {
    Media(MediaError),
    Ffmpeg(String),
    FilterGraph(String),
}

#[derive(Debug, Clone)]
pub enum ImageError {
    Media(MediaError),
    Decode(String),
    Resize(String),
    DecompressionBomb { actual: usize, limit: usize },
    Icc(String),
}

#[derive(Debug, Clone)]
pub enum OutputError {
    AddressInUse(String),
    Sink(String),
}

#[derive(Debug, Clone)]
pub enum ResolverError {
    Http(String),
    InvalidResponse(String),
    Unavailable(String),
}

#[derive(Debug, Clone)]
pub enum StreamError {
    Media(MediaError),
    Video(VideoError),
    Image(ImageError),
    Output(OutputError),
    Resolver(ResolverError),
    InvalidTransition { from: &'static str, to: &'static str },
    Cancelled,
}

#[verifier::external_type_specification]
#[verifier::external_body]
pub struct ExJsonError(serde_json::Error);

/// Errors of the control protocol.
#[derive(Debug)]
pub enum ControlError {
    Protocol(String),
    BadRequest(String),
    UnknownOutput(i32),
    Json(serde_json::Error),
}

/// The wire-level code of an error, as sent in `{"type":"error","code":...}`.
pub open spec fn control_code(e: &ControlError) -> Seq<char> {
    match e {
        ControlError::Protocol(_) => "proto"@,
        _ => "bad_request"@,
    }
}

impl ControlError {
    pub fn code(&self) -> (r: &'static str)
        ensures
            r@ == control_code(self),
    {
        proof {
            reveal_strlit("proto");
            reveal_strlit("bad_request");
        }
        match self {
            ControlError::Protocol(_) => "proto",
            ControlError::BadRequest(_) => "bad_request",
            ControlError::UnknownOutput(_) => "bad_request",
            ControlError::Json(_) => "bad_request",
        }
    }
}

#[derive(Debug, Clone)]
pub enum RenderError {
    Font(String),
    Parse(String),
}

/// A signed number in decimal, with a leading `-` when negative.
pub open spec fn signed_decimal(n: int) -> Seq<char> {
    if n < 0 {
        seq!['-'] + decimal((-n) as nat)
    } else {
        decimal(n as nat)
    }
}

/// `Display` of `serde_json::Error`: its message, with the line and column
/// where parsing stopped. What that text is, is not stated.
#[verifier::external_body]
fn json_error_text(e: &serde_json::Error) -> String {
    format!("{}", e)
}

/// The characters of `prefix` followed by those of `rest`.
fn prefixed(prefix: &str, rest: &[char]) -> (r: String)
    ensures
        r@ == prefix@ + rest@,
{
    let mut v = chars_of(prefix);
    extend_chars(&mut v, rest);
    string_from_chars(&v)
}

/// The message of an error: the kind of error, a colon, and its detail;
/// for a JSON error, only the kind is stated here (its detail is the parser's
/// own text).
pub open spec fn control_message(e: &ControlError) -> Option<Seq<char>> {
    match e {
        ControlError::Protocol(m) => Some("protocol: "@ + m@),
        ControlError::BadRequest(m) => Some("bad request: "@ + m@),
        ControlError::UnknownOutput(o) => Some("unknown output: "@ + signed_decimal(*o as int)),
        ControlError::Json(_) => None,
    }
}

/// Whether `text` is the message of `e` (see [`control_message`]).
pub open spec fn is_control_message(e: &ControlError, text: Seq<char>) -> bool {
    match control_message(e) {
        Some(m) => text == m,
        None => text.len() >= 6 && text.take(6) == "json: "@,
    }
}

impl ControlError {
    /// The message of an error, as the error frame sends it.
    pub fn message(&self) -> (r: String)
        ensures
            is_control_message(self, r@),
    {
        match self {
            ControlError::Protocol(m) => prefixed("protocol: ", &chars_of(m.as_str())),
            ControlError::BadRequest(m) => prefixed("bad request: ", &chars_of(m.as_str())),
            ControlError::UnknownOutput(o) => {
                let mut v: Vec<char> = Vec::new();
                let mag: u64 = if *o < 0 {
                    v.push('-');
                    (-(*o as i64)) as u64
                } else {
                    *o as u64
                };
                push_decimal(&mut v, mag);
                prefixed("unknown output: ", &v)
            },
            ControlError::Json(e) => {
                let text = json_error_text(e);
                let r = prefixed("json: ", &chars_of(text.as_str()));
                proof {
                    reveal_strlit("json: ");
                    assert(r@.take(6) =~= "json: "@);
                }
                r
            },
        }
    }
}

/// The text of `a`, then of `b`, then of `c`.
fn concat3(a: &str, b: &[char], c: &str) -> (r: Vec<char>)
    ensures
        r@ == a@ + b@ + c@,
{
    let mut v = chars_of(a);
    extend_chars(&mut v, b);
    extend_chars(&mut v, &chars_of(c));
    v
}

/// The message of a media error: its kind, the source in parentheses, and
/// the detail.
pub open spec fn media_message(e: &MediaError) -> Seq<char> {
    match e {
        MediaError::Network { source_url, message, .. } => "network error ("@ + source_url@ + "): "@ + message@,
        MediaError::Format { source_url, message } => "format error ("@ + source_url@ + "): "@ + message@,
        MediaError::Decode { source_url, message, .. } => "decode error ("@ + source_url@ + "): "@ + message@,
        MediaError::NotFound { source_url } => "not found: "@ + source_url@,
        MediaError::Other { source_url, message } => "media error ("@ + source_url@ + "): "@ + message@,
    }
}

impl MediaError {
    /// The message of the error (see [`media_message`]).
    pub fn message(&self) -> (r: String)
        ensures
            r@ == media_message(self),
    {
        let v = match self {
            MediaError::Network { source_url, message, .. } => {
                let mut v = concat3("network error (", &chars_of(source_url.as_str()), "): ");
                extend_chars(&mut v, &chars_of(message.as_str()));
                v
            },
            MediaError::Format { source_url, message } => {
                let mut v = concat3("format error (", &chars_of(source_url.as_str()), "): ");
                extend_chars(&mut v, &chars_of(message.as_str()));
                v
            },
            MediaError::Decode { source_url, message, .. } => {
                let mut v = concat3("decode error (", &chars_of(source_url.as_str()), "): ");
                extend_chars(&mut v, &chars_of(message.as_str()));
                v
            },
            MediaError::NotFound { source_url } => concat3("not found: ", &chars_of(source_url.as_str()), ""),
            MediaError::Other { source_url, message } => {
                let mut v = concat3("media error (", &chars_of(source_url.as_str()), "): ");
                extend_chars(&mut v, &chars_of(message.as_str()));
                v
            },
        };
        proof {
            reveal_strlit("");
        }
        string_from_chars(&v)
    }
}

/// The message of an image error: a media error's own, or the kind and
/// the detail.
pub open spec fn image_message(e: &ImageError) -> Seq<char> {
    match e {
        ImageError::Media(m) => media_message(m),
        ImageError::Decode(s) => "decode: "@ + s@,
        ImageError::Resize(s) => "resize: "@ + s@,
        ImageError::DecompressionBomb { actual, limit } => "bomb: image exceeds size limit ("@ + decimal(
            *actual as nat,
        ) + " > "@ + decimal(*limit as nat) + " bytes)"@,
        ImageError::Icc(s) => "icc: "@ + s@,
    }
}

impl ImageError {
    /// The message of the error (see [`image_message`]).
    pub fn message(&self) -> (r: String)
        ensures
            r@ == image_message(self),
    {
        match self {
            ImageError::Media(m) => m.message(),
            ImageError::Decode(s) => prefixed("decode: ", &chars_of(s.as_str())),
            ImageError::Resize(s) => prefixed("resize: ", &chars_of(s.as_str())),
            ImageError::DecompressionBomb { actual, limit } => {
                let mut v = chars_of("bomb: image exceeds size limit (");
                push_decimal(&mut v, *actual as u64);
                extend_chars(&mut v, &chars_of(" > "));
                push_decimal(&mut v, *limit as u64);
                extend_chars(&mut v, &chars_of(" bytes)"));
                string_from_chars(&v)
            },
            ImageError::Icc(s) => prefixed("icc: ", &chars_of(s.as_str())),
        }
    }
}

/// The message of an output error.
pub open spec fn output_message(e: &OutputError) -> Seq<char> {
    match e {
        OutputError::AddressInUse(s) => "address already in use: "@ + s@,
        OutputError::Sink(s) => "sink: "@ + s@,
    }
}

impl OutputError {
    pub fn message(&self) -> (r: String)
        ensures
            r@ == output_message(self),
    {
        match self {
            OutputError::AddressInUse(s) => prefixed("address already in use: ", &chars_of(s.as_str())),
            OutputError::Sink(s) => prefixed("sink: ", &chars_of(s.as_str())),
        }
    }
}

/// The message of a resolver error.
pub open spec fn resolver_message(e: &ResolverError) -> Seq<char> {
    match e {
        ResolverError::Http(s) => "http: "@ + s@,
        ResolverError::InvalidResponse(s) => "invalid response: "@ + s@,
        ResolverError::Unavailable(s) => "unavailable: "@ + s@,
    }
}

impl ResolverError {
    pub fn message(&self) -> (r: String)
        ensures
            r@ == resolver_message(self),
    {
        match self {
            ResolverError::Http(s) => prefixed("http: ", &chars_of(s.as_str())),
            ResolverError::InvalidResponse(s) => prefixed("invalid response: ", &chars_of(s.as_str())),
            ResolverError::Unavailable(s) => prefixed("unavailable: ", &chars_of(s.as_str())),
        }
    }
}

/// The message of a rendering error.
pub open spec fn render_message(e: &RenderError) -> Seq<char> {
    match e {
        RenderError::Font(s) => "font: "@ + s@,
        RenderError::Parse(s) => "parse: "@ + s@,
    }
}

impl RenderError {
    pub fn message(&self) -> (r: String)
        ensures
            r@ == render_message(self),
    {
        match self {
            RenderError::Font(s) => prefixed("font: ", &chars_of(s.as_str())),
            RenderError::Parse(s) => prefixed("parse: ", &chars_of(s.as_str())),
        }
    }
}

} // verus!
