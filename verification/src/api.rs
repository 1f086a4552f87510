//! The text and request handling of the HTTP endpoints: placeholder image
//! requests, and the files of the animated-image export.

use vstd::prelude::*;

use crate::num::decimal;
use crate::num::parse_int_chars;
use crate::num::parse_u32;
use crate::num::lemma_parse_range;
use crate::num::push_decimal;
use crate::outcome::Outcome;
use crate::render::color::auto_contrast;
use crate::render::color::contrast_color;
use crate::render::color::try_parse_chars;
use crate::render::color::parse_color;
use crate::control::fields::Fit;
use crate::control::fields::MAX_OUTPUT_DIM;
use crate::text::chars_eq_str;
use crate::text::chars_of;
use crate::text::extend_chars;
use crate::text::find_char_from;
use crate::text::find_from;
use crate::text::lemma_find_from_bounds;
use crate::text::slice_to_vec;
use crate::text::split_on;
use crate::text::split_vec;
use crate::text::string_from_chars;
use crate::text::views;

verus! {

/// The query of a placeholder request.
#[derive(Debug, Clone)]
pub struct PlaceholderQuery {
    pub text: Option<String>,
}

/// A value of the type `u32` spelled by `s` (see [`parse_u32`]).
pub open spec fn u32_of(s: Seq<char>) -> Option<int> {
    match parse_u32(s) {
        Ok(v) => Some(v),
        Err(_) => None,
    }
}

/// Dimensions written `WxH`, or `N` for a square.
pub open spec fn dims_of(s: Seq<char>) -> Option<(u32, u32)> {
    let k = find_from(s, 'x', 0);
    if k < s.len() {
        match (u32_of(s.take(k)), u32_of(s.skip(k + 1))) {
            (Some(w), Some(h)) => Some((w as u32, h as u32)),
            _ => None,
        }
    } else {
        match u32_of(s) {
            Some(n) => Some((n as u32, n as u32)),
            None => None,
        }
    }
}

fn parse_u32_chars(s: &[char]) -> (r: Option<u32>)
    ensures
        match u32_of(s@) {
            Some(v) => r == Some(v as u32),
            None => r is None,
        },
{
    proof {
        lemma_parse_range(s@, 10, false, 0, 0xFFFF_FFFF);
    }
    match parse_int_chars(s, 10, false, 0, 0xFFFF_FFFF) {
        Ok(v) => Some(v as u32),
        Err(_) => None,
    }
}

/// Parses dimensions (see [`dims_of`]).
pub fn parse_dims(s: &str) -> (r: Option<(u32, u32)>)
    ensures
        r == dims_of(s@),
{
    let v = chars_of(s);
    parse_dims_chars(&v)
}

fn parse_dims_chars(v: &[char]) -> (r: Option<(u32, u32)>)
    ensures
        r == dims_of(v@),
{
    proof {
        lemma_find_from_bounds(v@, 'x', 0);
    }
    let k = find_char_from(v, 'x', 0);
    if k < v.len() {
        let a = slice_to_vec(v, 0, k);
        let b = slice_to_vec(v, k + 1, v.len());
        assert(a@ =~= v@.take(k as int));
        assert(b@ =~= v@.skip(k + 1));
        match (parse_u32_chars(&a), parse_u32_chars(&b)) {
            (Some(w), Some(h)) => Some((w, h)),
            _ => None,
        }
    } else {
        match parse_u32_chars(v) {
            Some(n) => Some((n, n)),
            None => None,
        }
    }
}

/// Why a placeholder request is refused.
#[derive(Debug, Clone, Copy, PartialEq, Eq, Structural)]
pub enum PlaceholderError {
    ExtensionRequired,
    InvalidDimensions,
    DimensionsOutOfRange,
}

pub open spec fn placeholder_error_text(e: PlaceholderError) -> Seq<char> {
    match e {
        PlaceholderError::ExtensionRequired => "Extension required. Use .png"@,
        PlaceholderError::InvalidDimensions => "Invalid dimensions format"@,
        PlaceholderError::DimensionsOutOfRange => "Dimensions must be 10-4096px"@,
    }
}

impl PlaceholderError {
    /// The text of the refusal.
    pub fn message(self) -> (r: &'static str)
        ensures
            r@ == placeholder_error_text(self),
    {
        match self {
            PlaceholderError::ExtensionRequired => "Extension required. Use .png",
            PlaceholderError::InvalidDimensions => "Invalid dimensions format",
            PlaceholderError::DimensionsOutOfRange => "Dimensions must be 10-4096px",
        }
    }
}

/// What a placeholder image shows.
#[derive(Debug, Clone)]
pub struct PlaceholderPlan {
    pub width: u32,
    pub height: u32,
    pub bg: [u8; 3],
    pub fg: [u8; 3],
    pub text: String,
}

/// `s` with every `\n` written as two characters (backslash, `n`) turned
/// into a line break, left to right.
pub open spec fn unescape_newlines(s: Seq<char>) -> Seq<char>
    decreases s.len(),
{
    if s.len() >= 2 && s[0] == '\\' && s[1] == 'n' {
        seq!['\n'] + unescape_newlines(s.skip(2))
    } else if s.len() >= 1 {
        seq![s[0]] + unescape_newlines(s.skip(1))
    } else {
        seq![]
    }
}

/// The color named by the part at `i` of the path, if there is such a part
/// and it names one; panics where color parsing does.
pub open spec fn part_color(parts: Seq<Seq<char>>, i: int) -> Outcome<Option<[u8; 3]>> {
    if i < parts.len() {
        parse_color(parts[i])
    } else {
        Outcome::Returns(None)
    }
}

/// A placeholder request: the path must end in `.png`; its first segment
/// gives the dimensions (each 10 to 4096); the second, when it is a color,
/// the background (default light gray); the third the text color (default
/// the contrasting color); the query the text (default `WxH`), with `\n`
/// escapes turned into line breaks.
pub open spec fn placeholder_outcome(spec: Seq<char>, text: Option<Seq<char>>) -> Outcome<Result<(u32, u32, [u8; 3], [u8; 3], Seq<char>), PlaceholderError>> {
    if !(spec.len() >= 4 && spec.skip(spec.len() - 4) == ".png"@) {
        Outcome::Returns(Err(PlaceholderError::ExtensionRequired))
    } else {
        let parts = split_on(spec.take(spec.len() - 4), '/');
        match dims_of(parts[0]) {
            None => Outcome::Returns(Err(PlaceholderError::InvalidDimensions)),
            Some((w, h)) => if !(10 <= w <= 4096 && 10 <= h <= 4096) {
                Outcome::Returns(Err(PlaceholderError::DimensionsOutOfRange))
            } else {
                match part_color(parts, 1) {
                    Outcome::Panics => Outcome::Panics,
                    Outcome::Returns(bgo) => {
                        let bg = match bgo {
                            Some(c) => c,
                            None => [204u8, 204u8, 204u8],
                        };
                        match part_color(parts, 2) {
                            Outcome::Panics => Outcome::Panics,
                            Outcome::Returns(fgo) => {
                                let fg = match fgo {
                                    Some(c) => c,
                                    None => contrast_color(bg),
                                };
                                let t = match text {
                                    Some(t) => t,
                                    None => decimal(w as nat) + seq!['x'] + decimal(h as nat),
                                };
                                Outcome::Returns(Ok((w, h, bg, fg, unescape_newlines(t))))
                            },
                        }
                    },
                }
            },
        }
    }
}

fn unescape_newlines_exec(s: &[char]) -> (r: Vec<char>)
    ensures
        r@ == unescape_newlines(s@),
{
    let mut r: Vec<char> = Vec::new();
    let mut i: usize = 0;
    assert(s@.skip(0) =~= s@);
    while i < s.len()
        invariant
            i <= s.len(),
            unescape_newlines(s@) == r@ + unescape_newlines(s@.skip(i as int)),
        decreases s.len() - i,
    {
        let ghost t = s@.skip(i as int);
        if i + 1 < s.len() && s[i] == '\\' && s[i + 1] == 'n' {
            assert(t[0] == '\\' && t[1] == 'n');
            assert(t.skip(2) =~= s@.skip(i + 2));
            r.push('\n');
            proof {
                assert(r@ + unescape_newlines(s@.skip(i + 2)) =~= r@.drop_last() + (seq!['\n'] + unescape_newlines(t.skip(2))));
            }
            i = i + 2;
        } else {
            assert(t[0] == s@[i as int]);
            assert(t.skip(1) =~= s@.skip(i + 1));
            r.push(s[i]);
            proof {
                assert(r@ + unescape_newlines(s@.skip(i + 1)) =~= r@.drop_last() + (seq![t[0]] + unescape_newlines(t.skip(1))));
            }
            i = i + 1;
        }
    }
    assert(unescape_newlines(s@.skip(i as int)) =~= seq![]);
    assert(r@ + seq![] =~= r@);
    r
}

/// The color at part `i` (see [`part_color`]), or `Err(())` where parsing
/// it panics.
fn part_color_exec(parts: &Vec<Vec<char>>, i: usize) -> (r: Result<Option<[u8; 3]>, ()>)
    ensures
        match part_color(views(parts@), i as int) {
            Outcome::Panics => r is Err,
            Outcome::Returns(v) => r == Ok::<Option<[u8; 3]>, ()>(v),
        },
{
    if i < parts.len() {
        assert(views(parts@)[i as int] == parts@[i as int]@);
        try_parse_chars(&parts[i])
    } else {
        Ok(None)
    }
}

/// Resolves a placeholder request (see [`placeholder_outcome`]); `None`
/// where a color in the path makes the parse panic.
pub fn placeholder_request(spec: &str, text: Option<&str>) -> (r: Option<Result<PlaceholderPlan, PlaceholderError>>)
    ensures
        match placeholder_outcome(spec@, match text { Some(t) => Some(t@), None => None }) {
            Outcome::Panics => r is None,
            Outcome::Returns(Ok((w, h, bg, fg, t))) => r matches Some(Ok(p)) && p.width == w && p.height
                == h && p.bg == bg && p.fg == fg && p.text@ == t,
            Outcome::Returns(Err(e)) => r == Some(Err::<PlaceholderPlan, PlaceholderError>(e)),
        },
{
    proof {
        reveal_strlit(".png");
    }
    let s = chars_of(spec);
    let n = s.len();
    let suffix = if n >= 4 {
        slice_to_vec(&s, n - 4, n)
    } else {
        Vec::new()
    };
    if !(n >= 4 && crate::text::chars_eq_str(&suffix, ".png")) {
        proof {
            if n >= 4 {
                assert(suffix@ =~= s@.skip(n - 4));
            }
        }
        return Some(Err(PlaceholderError::ExtensionRequired));
    }
    assert(suffix@ =~= s@.skip(n - 4));
    let body = slice_to_vec(&s, 0, n - 4);
    assert(body@ =~= s@.take(n - 4));
    let parts = split_vec(&body, '/');
    proof {
        crate::text::lemma_split_nonempty(body@, '/');
    }
    assert(views(parts@)[0] == parts@[0]@);
    let (w, h) = match parse_dims_chars(&parts[0]) {
        Some(d) => d,
        None => {
            return Some(Err(PlaceholderError::InvalidDimensions));
        },
    };
    if !(10 <= w && w <= 4096 && 10 <= h && h <= 4096) {
        return Some(Err(PlaceholderError::DimensionsOutOfRange));
    }
    let bg = match part_color_exec(&parts, 1) {
        Err(()) => {
            return None;
        },
        Ok(Some(c)) => c,
        Ok(None) => [204u8, 204u8, 204u8],
    };
    let fg = match part_color_exec(&parts, 2) {
        Err(()) => {
            return None;
        },
        Ok(Some(c)) => c,
        Ok(None) => auto_contrast(bg),
    };
    let raw: Vec<char> = match text {
        Some(t) => chars_of(t),
        None => {
            let mut v: Vec<char> = Vec::new();
            push_decimal(&mut v, w as u64);
            v.push('x');
            push_decimal(&mut v, h as u64);
            assert(v@ =~= decimal(w as nat) + seq!['x'] + decimal(h as nat));
            v
        },
    };
    let t = unescape_newlines_exec(&raw);
    Some(Ok(PlaceholderPlan { width: w, height: h, bg, fg, text: string_from_chars(&t) }))
}

// ---------------------------------------------------------------------------
// The animated-image export
// ---------------------------------------------------------------------------

/// Frames exported when the request sets no limit.
pub fn default_frame_limit() -> (r: u32)
    ensures
        r == 100,
{
    100
}

/// Fit of the export when the request names none.
pub fn default_fit() -> (r: String)
    ensures
        r@ == "cover"@,
{
    string_from_chars(&chars_of("cover"))
}

/// The pieces joined with `sep` between them.
pub open spec fn join(pieces: Seq<Seq<char>>, sep: Seq<char>) -> Seq<char>
    decreases pieces.len(),
{
    if pieces.len() == 0 {
        seq![]
    } else if pieces.len() == 1 {
        pieces[0]
    } else {
        join(pieces.drop_last(), sep) + sep + pieces.last()
    }
}

/// The configuration that shows the exported frames as an animation: the
/// image entries, then the widget with the frame ids, each on its own line
/// after twelve spaces and a dash.
pub open spec fn yaml_text(images: Seq<Seq<char>>, ids: Seq<Seq<char>>, total_ms: u64, frame_count: usize) -> Seq<char> {
    let ids_block = join(Seq::new(ids.len(), |i: int| "            - "@ + ids[i]), "\n"@);
    let images_block = join(images, "\n"@);
    "# ESPHome animimg configuration\n# Generated by media-proxy animimg API\n#\n# Frames: "@ + decimal(frame_count as nat)
        + "\n# Total animation duration: "@ + decimal(total_ms as nat) + "ms\n\nimage:\n"@ + images_block
        + "\nlvgl:\npages:\n- id: animation_page\nwidgets:\n- animimg:\nid: my_animation\nsrc:\n"@ + ids_block
        + "\nduration: "@ + decimal(total_ms as nat) + "ms\nrepeat_count: forever\n"@
}

/// The views of a sequence of strings.
pub open spec fn string_views(v: Seq<String>) -> Seq<Seq<char>> {
    Seq::new(v.len(), |i: int| v[i]@)
}

fn push_str(out: &mut Vec<char>, lit: &str)
    ensures
        final(out)@ == old(out)@ + lit@,
{
    let v = chars_of(lit);
    extend_chars(out, &v);
}

/// Appends each piece, with `sep` between them.
fn push_joined(out: &mut Vec<char>, pieces: &[String], prefix: &str, sep: &str)
    ensures
        final(out)@ == old(out)@ + join(Seq::new(pieces@.len(), |i: int| prefix@ + pieces@[i]@), sep@),
{
    let ghost ps = Seq::new(pieces@.len(), |i: int| prefix@ + pieces@[i]@);
    let ghost o = out@;
    let mut i: usize = 0;
    while i < pieces.len()
        invariant
            i <= pieces@.len(),
            ps == Seq::new(pieces@.len(), |i: int| prefix@ + pieces@[i]@),
            out@ == o + join(ps.take(i as int), sep@),
        decreases pieces.len() - i,
    {
        if i > 0 {
            push_str(out, sep);
        }
        push_str(out, prefix);
        let p = chars_of(pieces[i].as_str());
        extend_chars(out, &p);
        proof {
            let t = ps.take(i + 1);
            assert(t.drop_last() =~= ps.take(i as int));
            assert(t.last() == prefix@ + pieces@[i as int]@);
            if i == 0 {
                assert(join(t, sep@) == t[0]);
            }
        }
        i = i + 1;
    }
    assert(ps.take(i as int) =~= ps);
}

/// The configuration of the export (see [`yaml_text`]).
pub fn format_yaml(images: &[String], ids: &[String], total_ms: u64, frame_count: usize) -> (r: String)
    ensures
        r@ == yaml_text(string_views(images@), string_views(ids@), total_ms, frame_count),
{
    let mut v: Vec<char> = Vec::new();
    push_str(&mut v, "# ESPHome animimg configuration\n# Generated by media-proxy animimg API\n#\n# Frames: ");
    push_decimal(&mut v, frame_count as u64);
    push_str(&mut v, "\n# Total animation duration: ");
    push_decimal(&mut v, total_ms);
    push_str(&mut v, "ms\n\nimage:\n");
    push_joined(&mut v, images, "", "\n");
    push_str(&mut v, "\nlvgl:\npages:\n- id: animation_page\nwidgets:\n- animimg:\nid: my_animation\nsrc:\n");
    push_joined(&mut v, ids, "            - ", "\n");
    push_str(&mut v, "\nduration: ");
    push_decimal(&mut v, total_ms);
    push_str(&mut v, "ms\nrepeat_count: forever\n");
    proof {
        reveal_strlit("");
        assert(Seq::new(images@.len(), |i: int| ""@ + images@[i]@) =~= string_views(images@));
        assert(Seq::new(ids@.len(), |i: int| "            - "@ + ids@[i]@) =~= Seq::new(
            string_views(ids@).len(),
            |i: int| "            - "@ + string_views(ids@)[i],
        ));
    }
    assert(v@ =~= yaml_text(string_views(images@), string_views(ids@), total_ms, frame_count));
    string_from_chars(&v)
}

/// The README of the export.
pub open spec fn readme_text(frame_count: usize, width: u32, height: u32) -> Seq<char> {
    "ESPHome LVGL AnimImg Files\n==========================\n\nThis ZIP contains "@ + decimal(frame_count as nat)
        + " frames at "@ + decimal(width as nat) + "x"@ + decimal(height as nat)
        + " for the ESPHome LVGL\nanimimg widget.\n\nUsage:\n1. Extract the PNG files into your ESPHome project `images/` directory.\n2. Merge `animimg_config.yaml` into your ESPHome YAML.\n3. Tweak the widget position/size and flash the device.\n\nGenerated by media-proxy.\n"@
}

/// The README of the export (see [`readme_text`]).
pub fn format_readme(frame_count: usize, width: u32, height: u32) -> (r: String)
    ensures
        r@ == readme_text(frame_count, width, height),
{
    let mut v: Vec<char> = Vec::new();
    push_str(&mut v, "ESPHome LVGL AnimImg Files\n==========================\n\nThis ZIP contains ");
    push_decimal(&mut v, frame_count as u64);
    push_str(&mut v, " frames at ");
    push_decimal(&mut v, width as u64);
    push_str(&mut v, "x");
    push_decimal(&mut v, height as u64);
    push_str(
        &mut v,
        " for the ESPHome LVGL\nanimimg widget.\n\nUsage:\n1. Extract the PNG files into your ESPHome project `images/` directory.\n2. Merge `animimg_config.yaml` into your ESPHome YAML.\n3. Tweak the widget position/size and flash the device.\n\nGenerated by media-proxy.\n",
    );
    assert(v@ =~= readme_text(frame_count, width, height));
    string_from_chars(&v)
}

/// A number in decimal, zero-padded to at least three digits.
pub open spec fn pad3(n: nat) -> Seq<char> {
    if n < 10 {
        "00"@ + decimal(n)
    } else if n < 100 {
        "0"@ + decimal(n)
    } else {
        decimal(n)
    }
}

fn push_pad3(out: &mut Vec<char>, n: u64)
    ensures
        final(out)@ == old(out)@ + pad3(n as nat),
{
    proof {
        reveal_strlit("00");
        reveal_strlit("0");
    }
    if n < 10 {
        out.push('0');
        out.push('0');
    } else if n < 100 {
        out.push('0');
    }
    let ghost mid = out@;
    push_decimal(out, n);
    proof {
        if n < 10 {
            assert(out@ =~= old(out)@ + pad3(n as nat));
        } else if n < 100 {
            assert(out@ =~= old(out)@ + pad3(n as nat));
        }
    }
}

/// The names of the `i`-th frame (from zero) of the export, and its entry
/// in the ESPHome image list: the file `frame_NNN.png` and the id
/// `frame_NNN`, numbered from one.
pub open spec fn frame_entry_spec(i: nat) -> (Seq<char>, Seq<char>, Seq<char>) {
    let id = "frame_"@ + pad3(i + 1);
    let file = id + ".png"@;
    (file, id, "  - file: images/"@ + file + "\n    id: "@ + id + "\n    type: RGB565"@)
}

/// The file name, id and image-list entry of the `i`-th frame (see
/// [`frame_entry_spec`]).
pub fn frame_entry(i: u64) -> (r: (String, String, String))
    requires
        i < u64::MAX,
    ensures
        r.0@ == frame_entry_spec(i as nat).0,
        r.1@ == frame_entry_spec(i as nat).1,
        r.2@ == frame_entry_spec(i as nat).2,
{
    let mut id = chars_of("frame_");
    push_pad3(&mut id, i + 1);
    let mut file = id.clone();
    extend_chars(&mut file, &chars_of(".png"));
    let mut entry = chars_of("  - file: images/");
    extend_chars(&mut entry, &file);
    extend_chars(&mut entry, &chars_of("\n    id: "));
    extend_chars(&mut entry, &id);
    extend_chars(&mut entry, &chars_of("\n    type: RGB565"));
    proof {
        assert(entry@ =~= frame_entry_spec(i as nat).2);
    }
    (string_from_chars(&file), string_from_chars(&id), string_from_chars(&entry))
}

/// The fit an export request names: `pad`, `auto`, anything else cover.
pub open spec fn export_fit(s: Seq<char>) -> Fit {
    if s == "pad"@ {
        Fit::Pad
    } else if s == "auto"@ {
        Fit::Auto
    } else {
        Fit::Cover
    }
}

pub fn fit_from_request(s: &str) -> (r: Fit)
    ensures
        r == export_fit(s@),
{
    let v = chars_of(s);
    if chars_eq_str(&v, "pad") {
        Fit::Pad
    } else if chars_eq_str(&v, "auto") {
        Fit::Auto
    } else {
        Fit::Cover
    }
}

/// Whether the export's size is in range: each side from 1 to
/// [`MAX_OUTPUT_DIM`], as for a stream.
pub fn export_dims_ok(width: u32, height: u32) -> (r: bool)
    ensures
        r == (1 <= width <= MAX_OUTPUT_DIM && 1 <= height <= MAX_OUTPUT_DIM),
{
    !(width == 0 || height == 0 || width > MAX_OUTPUT_DIM || height > MAX_OUTPUT_DIM)
}

} // verus!
