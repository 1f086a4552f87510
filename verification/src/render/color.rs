//! Named CSS colors and short or full hexadecimal color parsing.

use vstd::prelude::*;

use crate::num::parse_hex_u8;
use crate::num::parse_int_chars;
use crate::num::lemma_parse_range;
use crate::outcome::Outcome;
use crate::text::{chars_eq_str, chars_of, char_utf8_width, lower_seq, lower_vec, utf8_len, utf8_width};

verus! {

/// The named colors: CSS names and their RGB values.
pub open spec fn named_color(name: Seq<char>) -> Option<[u8; 3]> {
    if name == "aliceblue"@ {
        Some([240u8, 248u8, 255u8])
    } else if name == "aqua"@ || name == "cyan"@ {
        Some([0u8, 255u8, 255u8])
    } else if name == "aquamarine"@ {
        Some([127u8, 255u8, 212u8])
    } else if name == "beige"@ {
        Some([245u8, 245u8, 220u8])
    } else if name == "black"@ {
        Some([0u8, 0u8, 0u8])
    } else if name == "blue"@ {
        Some([0u8, 0u8, 255u8])
    } else if name == "brown"@ {
        Some([165u8, 42u8, 42u8])
    } else if name == "chartreuse"@ {
        Some([127u8, 255u8, 0u8])
    } else if name == "chocolate"@ {
        Some([210u8, 105u8, 30u8])
    } else if name == "coral"@ {
        Some([255u8, 127u8, 80u8])
    } else if name == "crimson"@ {
        Some([220u8, 20u8, 60u8])
    } else if name == "darkblue"@ {
        Some([0u8, 0u8, 139u8])
    } else if name == "darkcyan"@ {
        Some([0u8, 139u8, 139u8])
    } else if name == "darkgray"@ || name == "darkgrey"@ {
        Some([169u8, 169u8, 169u8])
    } else if name == "darkgreen"@ {
        Some([0u8, 100u8, 0u8])
    } else if name == "darkorange"@ {
        Some([255u8, 140u8, 0u8])
    } else if name == "darkred"@ {
        Some([139u8, 0u8, 0u8])
    } else if name == "darkviolet"@ {
        Some([148u8, 0u8, 211u8])
    } else if name == "fuchsia"@ || name == "magenta"@ {
        Some([255u8, 0u8, 255u8])
    } else if name == "gold"@ {
        Some([255u8, 215u8, 0u8])
    } else if name == "gray"@ || name == "grey"@ {
        Some([128u8, 128u8, 128u8])
    } else if name == "green"@ {
        Some([0u8, 128u8, 0u8])
    } else if name == "hotpink"@ {
        Some([255u8, 105u8, 180u8])
    } else if name == "indigo"@ {
        Some([75u8, 0u8, 130u8])
    } else if name == "khaki"@ {
        Some([240u8, 230u8, 140u8])
    } else if name == "lavender"@ {
        Some([230u8, 230u8, 250u8])
    } else if name == "lightblue"@ {
        Some([173u8, 216u8, 230u8])
    } else if name == "lightgray"@ || name == "lightgrey"@ {
        Some([211u8, 211u8, 211u8])
    } else if name == "lightgreen"@ {
        Some([144u8, 238u8, 144u8])
    } else if name == "lightpink"@ {
        Some([255u8, 182u8, 193u8])
    } else if name == "lime"@ {
        Some([0u8, 255u8, 0u8])
    } else if name == "maroon"@ {
        Some([128u8, 0u8, 0u8])
    } else if name == "navy"@ {
        Some([0u8, 0u8, 128u8])
    } else if name == "olive"@ {
        Some([128u8, 128u8, 0u8])
    } else if name == "orange"@ {
        Some([255u8, 165u8, 0u8])
    } else if name == "orangered"@ {
        Some([255u8, 69u8, 0u8])
    } else if name == "pink"@ {
        Some([255u8, 192u8, 203u8])
    } else if name == "plum"@ {
        Some([221u8, 160u8, 221u8])
    } else if name == "purple"@ {
        Some([128u8, 0u8, 128u8])
    } else if name == "red"@ {
        Some([255u8, 0u8, 0u8])
    } else if name == "salmon"@ {
        Some([250u8, 128u8, 114u8])
    } else if name == "silver"@ {
        Some([192u8, 192u8, 192u8])
    } else if name == "skyblue"@ {
        Some([135u8, 206u8, 235u8])
    } else if name == "teal"@ {
        Some([0u8, 128u8, 128u8])
    } else if name == "tomato"@ {
        Some([255u8, 99u8, 71u8])
    } else if name == "turquoise"@ {
        Some([64u8, 224u8, 208u8])
    } else if name == "violet"@ {
        Some([238u8, 130u8, 238u8])
    } else if name == "white"@ {
        Some([255u8, 255u8, 255u8])
    } else if name == "yellow"@ {
        Some([255u8, 255u8, 0u8])
    } else if name == "yellowgreen"@ {
        Some([154u8, 205u8, 50u8])
    } else {
        None
    }
}

/// Looks a lower-case name up in the table of named colors.
pub fn named_chars(name: &[char]) -> (r: Option<[u8; 3]>)
    ensures
        r == named_color(name@),
{
    if chars_eq_str(name, "aliceblue") {
        Some([240u8, 248u8, 255u8])
    } else if chars_eq_str(name, "aqua") || chars_eq_str(name, "cyan") {
        Some([0u8, 255u8, 255u8])
    } else if chars_eq_str(name, "aquamarine") {
        Some([127u8, 255u8, 212u8])
    } else if chars_eq_str(name, "beige") {
        Some([245u8, 245u8, 220u8])
    } else if chars_eq_str(name, "black") {
        Some([0u8, 0u8, 0u8])
    } else if chars_eq_str(name, "blue") {
        Some([0u8, 0u8, 255u8])
    } else if chars_eq_str(name, "brown") {
        Some([165u8, 42u8, 42u8])
    } else if chars_eq_str(name, "chartreuse") {
        Some([127u8, 255u8, 0u8])
    } else if chars_eq_str(name, "chocolate") {
        Some([210u8, 105u8, 30u8])
    } else if chars_eq_str(name, "coral") {
        Some([255u8, 127u8, 80u8])
    } else if chars_eq_str(name, "crimson") {
        Some([220u8, 20u8, 60u8])
    } else if chars_eq_str(name, "darkblue") {
        Some([0u8, 0u8, 139u8])
    } else if chars_eq_str(name, "darkcyan") {
        Some([0u8, 139u8, 139u8])
    } else if chars_eq_str(name, "darkgray") || chars_eq_str(name, "darkgrey") {
        Some([169u8, 169u8, 169u8])
    } else if chars_eq_str(name, "darkgreen") {
        Some([0u8, 100u8, 0u8])
    } else if chars_eq_str(name, "darkorange") {
        Some([255u8, 140u8, 0u8])
    } else if chars_eq_str(name, "darkred") {
        Some([139u8, 0u8, 0u8])
    } else if chars_eq_str(name, "darkviolet") {
        Some([148u8, 0u8, 211u8])
    } else if chars_eq_str(name, "fuchsia") || chars_eq_str(name, "magenta") {
        Some([255u8, 0u8, 255u8])
    } else if chars_eq_str(name, "gold") {
        Some([255u8, 215u8, 0u8])
    } else if chars_eq_str(name, "gray") || chars_eq_str(name, "grey") {
        Some([128u8, 128u8, 128u8])
    } else if chars_eq_str(name, "green") {
        Some([0u8, 128u8, 0u8])
    } else if chars_eq_str(name, "hotpink") {
        Some([255u8, 105u8, 180u8])
    } else if chars_eq_str(name, "indigo") {
        Some([75u8, 0u8, 130u8])
    } else if chars_eq_str(name, "khaki") {
        Some([240u8, 230u8, 140u8])
    } else if chars_eq_str(name, "lavender") {
        Some([230u8, 230u8, 250u8])
    } else if chars_eq_str(name, "lightblue") {
        Some([173u8, 216u8, 230u8])
    } else if chars_eq_str(name, "lightgray") || chars_eq_str(name, "lightgrey") {
        Some([211u8, 211u8, 211u8])
    } else if chars_eq_str(name, "lightgreen") {
        Some([144u8, 238u8, 144u8])
    } else if chars_eq_str(name, "lightpink") {
        Some([255u8, 182u8, 193u8])
    } else if chars_eq_str(name, "lime") {
        Some([0u8, 255u8, 0u8])
    } else if chars_eq_str(name, "maroon") {
        Some([128u8, 0u8, 0u8])
    } else if chars_eq_str(name, "navy") {
        Some([0u8, 0u8, 128u8])
    } else if chars_eq_str(name, "olive") {
        Some([128u8, 128u8, 0u8])
    } else if chars_eq_str(name, "orange") {
        Some([255u8, 165u8, 0u8])
    } else if chars_eq_str(name, "orangered") {
        Some([255u8, 69u8, 0u8])
    } else if chars_eq_str(name, "pink") {
        Some([255u8, 192u8, 203u8])
    } else if chars_eq_str(name, "plum") {
        Some([221u8, 160u8, 221u8])
    } else if chars_eq_str(name, "purple") {
        Some([128u8, 0u8, 128u8])
    } else if chars_eq_str(name, "red") {
        Some([255u8, 0u8, 0u8])
    } else if chars_eq_str(name, "salmon") {
        Some([250u8, 128u8, 114u8])
    } else if chars_eq_str(name, "silver") {
        Some([192u8, 192u8, 192u8])
    } else if chars_eq_str(name, "skyblue") {
        Some([135u8, 206u8, 235u8])
    } else if chars_eq_str(name, "teal") {
        Some([0u8, 128u8, 128u8])
    } else if chars_eq_str(name, "tomato") {
        Some([255u8, 99u8, 71u8])
    } else if chars_eq_str(name, "turquoise") {
        Some([64u8, 224u8, 208u8])
    } else if chars_eq_str(name, "violet") {
        Some([238u8, 130u8, 238u8])
    } else if chars_eq_str(name, "white") {
        Some([255u8, 255u8, 255u8])
    } else if chars_eq_str(name, "yellow") {
        Some([255u8, 255u8, 0u8])
    } else if chars_eq_str(name, "yellowgreen") {
        Some([154u8, 205u8, 50u8])
    } else {
        None
    }
}
/// Looks a lower-case name up in the table of named colors.
pub fn named(name: &str) -> (r: Option<[u8; 3]>)
    ensures
        r == named_color(name@),
{
    let v = chars_of(name);
    named_chars(&v)
}

/// `s` without its leading `'#'` characters.
pub open spec fn strip_hashes(s: Seq<char>) -> Seq<char>
    decreases s.len(),
{
    if s.len() > 0 && s[0] == '#' {
        strip_hashes(s.drop_first())
    } else {
        s
    }
}

/// The number of leading characters of `h` whose UTF-8 encoding is exactly
/// `bytes` long, if `bytes` falls on a character boundary.
pub open spec fn byte_prefix(h: Seq<char>, bytes: nat) -> Option<nat>
    decreases h.len(),
{
    if bytes == 0 {
        Some(0)
    } else if h.len() == 0 || utf8_width(h[0]) > bytes {
        None
    } else {
        match byte_prefix(h.drop_first(), (bytes - utf8_width(h[0])) as nat) {
            Some(n) => Some(n + 1),
            None => None,
        }
    }
}

/// Reads one color channel from the front of `h`: the next `bytes` bytes
/// (one digit written twice when `bytes == 1`, two digits when `bytes == 2`)
/// in base 16. Slicing inside a character panics.
pub open spec fn hex_channel(h: Seq<char>, bytes: nat) -> Outcome<(Option<u8>, Seq<char>)> {
    match byte_prefix(h, bytes) {
        None => Outcome::Panics,
        Some(n) => {
            let piece = h.take(n as int);
            let digits = if bytes == 1 {
                piece + piece
            } else {
                piece
            };
            let v = match parse_hex_u8(digits) {
                Ok(x) => Some(x as u8),
                Err(_) => None,
            };
            Outcome::Returns((v, h.skip(n as int)))
        },
    }
}

/// Reads the three channels of a hexadecimal color, stopping at the first
/// channel that is not a number.
pub open spec fn hex_color(h: Seq<char>, bytes: nat) -> Outcome<Option<[u8; 3]>> {
    match hex_channel(h, bytes) {
        Outcome::Panics => Outcome::Panics,
        Outcome::Returns((None, _)) => Outcome::Returns(None),
        Outcome::Returns((Some(r), h1)) => match hex_channel(h1, bytes) {
            Outcome::Panics => Outcome::Panics,
            Outcome::Returns((None, _)) => Outcome::Returns(None),
            Outcome::Returns((Some(g), h2)) => match hex_channel(h2, bytes) {
                Outcome::Panics => Outcome::Panics,
                Outcome::Returns((None, _)) => Outcome::Returns(None),
                Outcome::Returns((Some(b), _)) => Outcome::Returns(Some([r, g, b])),
            },
        },
    }
}

/// Color parsing: a named color (ASCII case-insensitive), else `#rgb` or
/// `#rrggbb` (any number of leading `'#'`), where the lengths count UTF-8
/// bytes. Text that puts a channel boundary inside a multi-byte character
/// makes the parse panic.
pub open spec fn parse_color(s: Seq<char>) -> Outcome<Option<[u8; 3]>> {
    match named_color(lower_seq(s)) {
        Some(c) => Outcome::Returns(Some(c)),
        None => {
            let h = strip_hashes(s);
            let n = utf8_len(h);
            if n == 3 {
                hex_color(h, 1)
            } else if n == 6 {
                hex_color(h, 2)
            } else {
                Outcome::Returns(None)
            }
        },
    }
}

/// Exec form of [`byte_prefix`] on `h[start..]`.
pub(crate) fn byte_prefix_exec(h: &[char], start: usize, bytes: usize) -> (r: Option<usize>)
    requires
        start <= h.len(),
        bytes <= 2,
    ensures
        match byte_prefix(h@.skip(start as int), bytes as nat) {
            Some(n) => r == Some(n as usize),
            None => r is None,
        },
    decreases bytes,
{
    let ghost t = h@.skip(start as int);
    proof {
        lemma_byte_prefix_len(t, bytes as nat);
    }
    if bytes == 0 {
        return Some(0);
    }
    if start >= h.len() {
        return None;
    }
    let w = char_utf8_width(h[start]);
    assert(t[0] == h@[start as int]);
    if w > bytes {
        return None;
    }
    assert(t.drop_first() =~= h@.skip(start + 1));
    match byte_prefix_exec(h, start + 1, bytes - w) {
        Some(n) => Some(n + 1),
        None => None,
    }
}

/// Exec form of [`hex_channel`] on `h[start..]`; returns the value and the
/// index after the channel, or `Err(())` where the spec panics.
fn hex_channel_exec(h: &[char], start: usize, bytes: usize) -> (r: Result<(Option<u8>, usize), ()>)
    requires
        start <= h.len(),
        bytes == 1 || bytes == 2,
    ensures
        match hex_channel(h@.skip(start as int), bytes as nat) {
            Outcome::Panics => r is Err,
            Outcome::Returns((v, rest)) => r matches Ok((v2, next)) && v2 == v && start <= next
                <= h.len() && rest == h@.skip(next as int),
        },
{
    let ghost t = h@.skip(start as int);
    match byte_prefix_exec(h, start, bytes) {
        None => Err(()),
        Some(n) => {
            proof {
                lemma_byte_prefix_len(t, bytes as nat);
            }
            let mut digits: Vec<char> = Vec::new();
            digits.push(h[start]);
            if bytes == 1 {
                digits.push(h[start]);
            } else if n == 2 {
                digits.push(h[start + 1]);
            }
            proof {
                if bytes == 1 {
                    assert(digits@ =~= t.take(n as int) + t.take(n as int));
                } else {
                    assert(digits@ =~= t.take(n as int));
                }
            }
            proof {
                lemma_parse_range(digits@, 16, false, 0, 255);
            }
            let v = match parse_int_chars(&digits, 16, false, 0, 255) {
                Ok(x) => Some(x as u8),
                Err(_) => None,
            };
            assert(t.skip(n as int) =~= h@.skip(start + n));
            Ok((v, start + n))
        },
    }
}

pub proof fn lemma_byte_prefix_len(h: Seq<char>, bytes: nat)
    ensures
        byte_prefix(h, bytes) matches Some(n) ==> n <= bytes && n <= h.len() && (bytes > 0 ==> n
            >= 1),
    decreases h.len(),
{
    if bytes > 0 && h.len() > 0 && utf8_width(h[0]) <= bytes {
        lemma_byte_prefix_len(h.drop_first(), (bytes - utf8_width(h[0])) as nat);
    }
}

/// Exec form of [`hex_color`] on `h[start..]`.
fn hex_color_exec(h: &[char], start: usize, bytes: usize) -> (r: Result<Option<[u8; 3]>, ()>)
    requires
        start <= h.len(),
        bytes == 1 || bytes == 2,
    ensures
        match hex_color(h@.skip(start as int), bytes as nat) {
            Outcome::Panics => r is Err,
            Outcome::Returns(v) => r == Ok::<Option<[u8; 3]>, ()>(v),
        },
{
    let (r, i1) = match hex_channel_exec(h, start, bytes) {
        Err(()) => {
            return Err(());
        },
        Ok((None, _)) => {
            return Ok(None);
        },
        Ok((Some(r), i1)) => (r, i1),
    };
    let (g, i2) = match hex_channel_exec(h, i1, bytes) {
        Err(()) => {
            return Err(());
        },
        Ok((None, _)) => {
            return Ok(None);
        },
        Ok((Some(g), i2)) => (g, i2),
    };
    match hex_channel_exec(h, i2, bytes) {
        Err(()) => Err(()),
        Ok((None, _)) => Ok(None),
        Ok((Some(b), _)) => Ok(Some([r, g, b])),
    }
}

/// Exec form of `utf8_len`, saturated at 7.
pub(crate) fn utf8_len_exec(h: &[char], start: usize) -> (r: usize)
    requires
        start <= h.len(),
    ensures
        r == if utf8_len(h@.skip(start as int)) < 7 {
            utf8_len(h@.skip(start as int))
        } else {
            7
        },
    decreases h.len() - start,
{
    if start == h.len() {
        assert(h@.skip(start as int).len() == 0);
        return 0;
    }
    let w = char_utf8_width(h[start]);
    let rest = utf8_len_exec(h, start + 1);
    assert(h@.skip(start as int).drop_first() =~= h@.skip(start + 1));
    assert(h@.skip(start as int)[0] == h@[start as int]);
    if w + rest < 7 {
        w + rest
    } else {
        7
    }
}

/// Parses a color name or hexadecimal color (see [`parse_color`]), or
/// `Err(())` where the parse panics.
pub fn try_parse_chars(s: &[char]) -> (r: Result<Option<[u8; 3]>, ()>)
    ensures
        match parse_color(s@) {
            Outcome::Panics => r is Err,
            Outcome::Returns(v) => r == Ok::<Option<[u8; 3]>, ()>(v),
        },
{
    let lower = lower_vec(s);
    if let Some(rgb) = named_chars(&lower) {
        return Ok(Some(rgb));
    }
    let mut start: usize = 0;
    assert(s@.skip(0) =~= s@);
    while start < s.len() && s[start] == '#'
        invariant
            start <= s.len(),
            strip_hashes(s@) == strip_hashes(s@.skip(start as int)),
        decreases s.len() - start,
    {
        assert(s@.skip(start as int).drop_first() =~= s@.skip(start + 1));
        start = start + 1;
    }
    assert(s@.skip(0) =~= s@);
    let n = utf8_len_exec(s, start);
    if n == 3 {
        hex_color_exec(s, start, 1)
    } else if n == 6 {
        hex_color_exec(s, start, 2)
    } else {
        Ok(None)
    }
}

/// Parses a color name or hexadecimal color (see [`parse_color`]).
pub fn parse_chars(s: &[char]) -> (r: Option<[u8; 3]>)
    requires
        parse_color(s@).is_normal(),
    ensures
        r == parse_color(s@).value(),
{
    match try_parse_chars(s) {
        Ok(v) => v,
        Err(()) => {
            assert(false);
            None
        },
    }
}

/// Parses a color name or hexadecimal color (see [`parse_color`]).
pub fn parse(s: &str) -> (r: Option<[u8; 3]>)
    requires
        parse_color(s@).is_normal(),
    ensures
        r == parse_color(s@).value(),
{
    let v = chars_of(s);
    parse_chars(&v)
}

/// Weighted sRGB brightness of a color, scaled by `255 * 10000`.
pub open spec fn brightness(bg: [u8; 3]) -> int {
    2126 * bg[0] + 7152 * bg[1] + 722 * bg[2]
}

/// The two colors at exactly half brightness that single-precision
/// evaluation of the brightness formula places below one half.
pub open spec fn rounds_below_half(bg: [u8; 3]) -> bool {
    bg == [160u8, 119u8, 116u8] || bg == [225u8, 102u8, 93u8]
}

/// The text color that contrasts with `bg`: white on dark backgrounds,
/// black on light ones.
pub open spec fn contrast_color(bg: [u8; 3]) -> [u8; 3] {
    if brightness(bg) < 1275000 || rounds_below_half(bg) {
        [255u8, 255u8, 255u8]
    } else {
        [0u8, 0u8, 0u8]
    }
}

/// Selects black or white from weighted sRGB brightness.
pub fn auto_contrast(bg: [u8; 3]) -> (r: [u8; 3])
    ensures
        r == contrast_color(bg),
{
    let lum: u32 = 2126 * (bg[0] as u32) + 7152 * (bg[1] as u32) + 722 * (bg[2] as u32);
    let tie = (bg[0] == 160 && bg[1] == 119 && bg[2] == 116) || (bg[0] == 225 && bg[1] == 102
        && bg[2] == 93);
    proof {
        assert(tie == rounds_below_half(bg)) by {
            if bg[0] == 160 && bg[1] == 119 && bg[2] == 116 {
                assert(bg =~= [160u8, 119u8, 116u8]);
            }
            if bg[0] == 225 && bg[1] == 102 && bg[2] == 93 {
                assert(bg =~= [225u8, 102u8, 93u8]);
            }
        }
    }
    if lum < 1275000 || tie {
        [255, 255, 255]
    } else {
        [0, 0, 0]
    }
}

} // verus!
