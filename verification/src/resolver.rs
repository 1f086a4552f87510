//! Requests to resolve a source URL to playable media, and the resolver
//! used when none is configured.

use vstd::prelude::*;

use crate::error::ResolverError;
use crate::num::decimal;
use crate::num::push_decimal;
use crate::text::chars_of;
use crate::text::slice_to_vec;
use crate::text::extend_chars;
use crate::text::string_from_chars;

verus! {

#[derive(Debug, Clone)]
pub struct ResolveRequest {
    pub url: String,
    pub target_h: u32,
    pub target_w: u32,
    pub hw_prefer: Option<String>,
    pub prefer_60fps: bool,
}

/// Rejects extraction requests when no resolver is configured (direct media
/// is handled before any resolver is asked).
#[derive(Debug, Clone, Copy, Default)]
pub struct NoopResolver;

pub open spec fn noop_message(url: Seq<char>) -> Seq<char> {
    "no resolver available \u{2014} install yt-dlp or set resolver.url to handle: "@ + url
}

impl NoopResolver {
    /// The answer to every request: unavailable, naming the URL.
    pub fn resolve(&self, req: &ResolveRequest) -> (r: ResolverError)
        ensures
            r matches ResolverError::Unavailable(m) && m@ == noop_message(req.url@),
    {
        let mut v = chars_of("no resolver available \u{2014} install yt-dlp or set resolver.url to handle: ");
        let u = chars_of(req.url.as_str());
        extend_chars(&mut v, &u);
        ResolverError::Unavailable(string_from_chars(&v))
    }
}

/// Whether a resolved source may be cached for looping playback: caching
/// is on, the playback loops, and the source's size is known and within
/// `max_bytes`.
pub fn should_cache(filesize: Option<u64>, looping: bool, enabled: bool, max_bytes: u64) -> (r: bool)
    ensures
        r == (enabled && looping && (filesize matches Some(sz) && sz <= max_bytes)),
{
    enabled && looping && match filesize {
        Some(sz) => sz <= max_bytes,
        None => false,
    }
}

/// The error of a resolver sidecar's answer: none for a success status
/// (200 to 299); otherwise unavailable, naming the status and the first 200
/// characters of the body.
pub open spec fn status_error_text(status: u16, body: Seq<char>) -> Option<Seq<char>> {
    if 200 <= status < 300 {
        None
    } else {
        Some("HTTP "@ + decimal(status as nat) + ": "@ + body.take(if body.len() < 200 { body.len() as int } else { 200 }))
    }
}

/// Checks a resolver sidecar's status (see [`status_error_text`]).
pub fn check_status(status: u16, body: &str) -> (r: Result<(), ResolverError>)
    ensures
        match status_error_text(status, body@) {
            None => r is Ok,
            Some(m) => r matches Err(ResolverError::Unavailable(s)) && s@ == m,
        },
{
    if 200 <= status && status < 300 {
        return Ok(());
    }
    let b = chars_of(body);
    let k: usize = if b.len() < 200 {
        b.len()
    } else {
        200
    };
    let snippet = slice_to_vec(&b, 0, k);
    let mut v = chars_of("HTTP ");
    push_decimal(&mut v, status as u64);
    extend_chars(&mut v, &chars_of(": "));
    extend_chars(&mut v, &snippet);
    proof {
        assert(snippet@ =~= body@.take(k as int));
    }
    Err(ResolverError::Unavailable(string_from_chars(&v)))
}

} // verus!
