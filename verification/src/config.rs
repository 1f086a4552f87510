//! Configuration sections and their defaults. Loading the layers (defaults,
//! file, environment) happens where the program starts.

use vstd::prelude::*;

use crate::text::chars_eq_str;
use crate::text::chars_of;
use crate::text::extend_chars;
use crate::text::lower_seq;
use crate::text::lower_vec;
use crate::text::string_from_chars;

verus! {

/// An owned copy of a string literal.
fn owned(lit: &str) -> (r: String)
    ensures
        r@ == lit@,
{
    string_from_chars(&chars_of(lit))
}

pub fn default_hw_prefer() -> (r: String)
    ensures
        r@ == "auto"@,
{
    owned("auto")
}

pub fn default_expand_mode() -> (r: u8)
    ensures
        r == 2,
{
    2
}

pub fn default_fit() -> (r: String)
    ensures
        r@ == "auto"@,
{
    owned("auto")
}

pub fn default_probe_frames() -> (r: u32)
    ensures
        r == 24,
{
    24
}

pub fn default_luma_thresh() -> (r: u8)
    ensures
        r == 16,
{
    16
}

pub fn default_min_bar_px() -> (r: u32)
    ensures
        r == 2,
{
    2
}

pub fn default_yt_cache_max() -> (r: u64)
    ensures
        r == 5 * 1024 * 1024,
{
    5 * 1024 * 1024
}

pub fn default_image_method() -> (r: String)
    ensures
        r@ == "lanczos"@,
{
    owned("lanczos")
}

pub fn default_frame_cache_mb() -> (r: u32)
    ensures
        r == 32,
{
    32
}

pub fn default_frame_cache_min_frames() -> (r: u32)
    ensures
        r == 5,
{
    5
}

pub fn default_unsharp_threshold() -> (r: i32)
    ensures
        r == 2,
{
    2
}

pub fn default_log_rate_ms() -> (r: u64)
    ensures
        r == 5000,
{
    5000
}

pub fn default_spread_max_fps() -> (r: u32)
    ensures
        r == 60,
{
    60
}

pub fn default_user_agent() -> (r: String)
    ensures
        r@ == "Mozilla/5.0 (Windows NT 10.0; Win64; x64) AppleWebKit/537.36 (KHTML, like Gecko) Chrome/140.0.0.0 Safari/537.36"@,
{
    owned(
        "Mozilla/5.0 (Windows NT 10.0; Win64; x64) AppleWebKit/537.36 (KHTML, like Gecko) Chrome/140.0.0.0 Safari/537.36",
    )
}

pub fn default_redundancy() -> (r: u32)
    ensures
        r == 3,
{
    3
}

/// Cold-start budget of the resolver: interpreter start, extractor imports,
/// a JavaScript runtime spawn and the API round trips; warm runs take about
/// two seconds, the first call after installation five to ten.
pub fn default_resolver_timeout() -> (r: u64)
    ensures
        r == 30_000,
{
    30_000
}

pub fn default_true() -> (r: bool)
    ensures
        r,
{
    true
}

#[derive(Debug, Clone)]
pub struct HwConfig {
    pub prefer: String,
}

impl Default for HwConfig {
    fn default() -> (r: HwConfig)
        ensures
            r.prefer@ == "auto"@,
    {
        HwConfig { prefer: default_hw_prefer() }
    }
}

#[derive(Debug, Clone)]
pub struct PlaybackConfig {
    pub looping: bool,
}

impl Default for PlaybackConfig {
    fn default() -> (r: PlaybackConfig)
        ensures
            r.looping,
    {
        PlaybackConfig { looping: true }
    }
}

#[derive(Debug, Clone)]
pub struct YoutubeCacheConfig {
    pub enabled: bool,
    pub max_size: u64,
}

impl Default for YoutubeCacheConfig {
    fn default() -> (r: YoutubeCacheConfig)
        ensures
            r.enabled,
            r.max_size == 5 * 1024 * 1024,
    {
        YoutubeCacheConfig { enabled: true, max_size: default_yt_cache_max() }
    }
}

#[derive(Debug, Clone)]
pub struct YoutubeConfig {
    pub prefer_60fps: bool,
    pub cache: YoutubeCacheConfig,
}

impl Default for YoutubeConfig {
    fn default() -> (r: YoutubeConfig)
        ensures
            r.prefer_60fps,
            r.cache.enabled,
            r.cache.max_size == 5 * 1024 * 1024,
    {
        YoutubeConfig { prefer_60fps: true, cache: YoutubeCacheConfig::default() }
    }
}

/// Logging options (the log level is chosen where logging is set up).
#[derive(Debug, Clone)]
pub struct LogConfig {
    pub send_ms: bool,
    pub rate_ms: u64,
    pub metrics: bool,
}

impl Default for LogConfig {
    fn default() -> (r: LogConfig)
        ensures
            !r.send_ms,
            r.rate_ms == 5000,
            r.metrics,
    {
        LogConfig { send_ms: false, rate_ms: default_log_rate_ms(), metrics: true }
    }
}

#[derive(Debug, Clone)]
pub struct PlaybackStillConfig {
    /// Each packet of a still frame is sent this many times.
    pub redundancy: u32,
}

impl Default for PlaybackStillConfig {
    fn default() -> (r: PlaybackStillConfig)
        ensures
            r.redundancy == 3,
    {
        PlaybackStillConfig { redundancy: default_redundancy() }
    }
}

#[derive(Debug, Clone)]
pub struct ResolverConfig {
    /// External resolver URL; when unset the local extractor is used if
    /// present, and direct media works without either.
    pub url: Option<String>,
    pub timeout_ms: u64,
}

impl Default for ResolverConfig {
    fn default() -> (r: ResolverConfig)
        ensures
            r.url is None,
            r.timeout_ms == 30_000,
    {
        ResolverConfig { url: None, timeout_ms: default_resolver_timeout() }
    }
}

/// The formats of a configuration file.
#[derive(Debug, Clone, Copy, PartialEq, Eq, Structural)]
pub enum ConfigFormat {
    Yaml,
    Toml,
    Json,
}

/// The format a configuration file's extension names, in any case:
/// `yaml` or `yml`, `toml`, `json`; anything else (or none) is refused,
/// naming the lower-cased extension.
pub open spec fn config_format_of(ext: Seq<char>) -> Result<ConfigFormat, Seq<char>> {
    let e = lower_seq(ext);
    if e == "yaml"@ || e == "yml"@ {
        Ok(ConfigFormat::Yaml)
    } else if e == "toml"@ {
        Ok(ConfigFormat::Toml)
    } else if e == "json"@ {
        Ok(ConfigFormat::Json)
    } else {
        Err("unknown config extension: "@ + e)
    }
}

/// Chooses the format of a configuration file by its extension (see
/// [`config_format_of`]; a file without one has the empty extension).
pub fn config_format(ext: &str) -> (r: Result<ConfigFormat, String>)
    ensures
        match config_format_of(ext@) {
            Ok(f) => r == Ok::<ConfigFormat, String>(f),
            Err(m) => r matches Err(s) && s@ == m,
        },
{
    let e = lower_vec(&chars_of(ext));
    if chars_eq_str(&e, "yaml") || chars_eq_str(&e, "yml") {
        Ok(ConfigFormat::Yaml)
    } else if chars_eq_str(&e, "toml") {
        Ok(ConfigFormat::Toml)
    } else if chars_eq_str(&e, "json") {
        Ok(ConfigFormat::Json)
    } else {
        let mut v = chars_of("unknown config extension: ");
        extend_chars(&mut v, &e);
        Err(string_from_chars(&v))
    }
}

} // verus!
