//! BBCode to pixel-font rendering.
//!
//! Supported tags:
//! - `[color=red]…[/color]` or `[red]…[/red]`: text color
//! - `[font=8x16]…[/font]`: Spleen font size
//! - `[left]` / `[center]` / `[right]`: alignment of the following lines
//! - `[b]…[/b]`: bold, drawn twice one pixel apart
//!
//! Unknown tags stay in the text as written.

use vstd::prelude::*;

use crate::error::RenderError;
use crate::outcome::Outcome;
use crate::render::bdf::text_width;
use crate::render::bdf::BdfFont;
use crate::render::bdf::FontSpec;
use crate::render::blit::try_blit_chars;
use crate::render::blit::fits_i32;
use crate::render::blit::string_blit;
use crate::render::blit::Canvas;
use crate::render::color::try_parse_chars;
use crate::render::color::parse_color;
use crate::render::fonts::font_size_named;
use crate::render::fonts::get;
use crate::render::fonts::FontSet;
use crate::render::fonts::FontSize;
use crate::render::wrap::try_wrap_chars;
use crate::render::wrap::wrap_lines;
use crate::text::chars_eq_str;
use crate::text::chars_of;
use crate::text::extend_chars;
use crate::text::find_char_from;
use crate::text::find_from;
use crate::text::lemma_find_shift;
use crate::text::lemma_find_from_bounds;
use crate::text::lower_seq;
use crate::text::lower_vec;
use crate::text::slice_to_vec;
use crate::text::views;

verus! {

#[derive(Debug, Clone, Copy, PartialEq, Eq, Structural)]
pub enum Alignment {
    Left,
    Center,
    Right,
}

/// A stretch of text drawn with one style.
#[derive(Debug)]
pub struct Run {
    pub text: Vec<char>,
    pub color: [u8; 3],
    pub font: FontSize,
    pub bold: bool,
    pub align: Alignment,
}

/// A run as a mathematical value.
pub struct RunSpec {
    pub text: Seq<char>,
    pub color: [u8; 3],
    pub font: FontSize,
    pub bold: bool,
    pub align: Alignment,
}

impl View for Run {
    type V = RunSpec;

    open spec fn view(&self) -> RunSpec {
        RunSpec { text: self.text@, color: self.color, font: self.font, bold: self.bold, align: self.align }
    }
}

/// The views of a sequence of runs.
pub open spec fn run_views(v: Seq<Run>) -> Seq<RunSpec> {
    Seq::new(v.len(), |i: int| v[i]@)
}

/// The state of the markup parser: one stack per style (each keeps its
/// root entry), the finished runs, and the text not yet given a run.
pub struct ParserState {
    pub color_stack: Seq<[u8; 3]>,
    pub font_stack: Seq<FontSize>,
    pub bold_stack: Seq<bool>,
    pub align_stack: Seq<Alignment>,
    pub runs: Seq<RunSpec>,
    pub buf: Seq<char>,
    pub default_fg: [u8; 3],
}

/// The parser before any input: the default color, the 5x8 font, not bold,
/// left-aligned.
pub open spec fn initial_state(default_fg: [u8; 3]) -> ParserState {
    ParserState {
        color_stack: seq![default_fg],
        font_stack: seq![FontSize::S5x8],
        bold_stack: seq![false],
        align_stack: seq![Alignment::Left],
        runs: seq![],
        buf: seq![],
        default_fg,
    }
}

pub open spec fn current_color(st: ParserState) -> [u8; 3] {
    if st.color_stack.len() > 0 {
        st.color_stack.last()
    } else {
        st.default_fg
    }
}

pub open spec fn current_font(st: ParserState) -> FontSize {
    if st.font_stack.len() > 0 {
        st.font_stack.last()
    } else {
        FontSize::S8x16
    }
}

pub open spec fn current_bold(st: ParserState) -> bool {
    if st.bold_stack.len() > 0 {
        st.bold_stack.last()
    } else {
        false
    }
}

pub open spec fn current_align(st: ParserState) -> Alignment {
    if st.align_stack.len() > 0 {
        st.align_stack.last()
    } else {
        Alignment::Left
    }
}

/// The pending text becomes a run with the current style; it joins the last
/// run when that run has the same style.
pub open spec fn flush(st: ParserState) -> ParserState {
    if st.buf.len() == 0 {
        st
    } else {
        let color = current_color(st);
        let font = current_font(st);
        let bold = current_bold(st);
        let align = current_align(st);
        if st.runs.len() > 0 && st.runs.last().color == color && st.runs.last().font == font
            && st.runs.last().bold == bold && st.runs.last().align == align {
            let last = st.runs.last();
            ParserState {
                runs: st.runs.drop_last().push(RunSpec { text: last.text + st.buf, ..last }),
                buf: seq![],
                ..st
            }
        } else {
            ParserState {
                runs: st.runs.push(RunSpec { text: st.buf, color, font, bold, align }),
                buf: seq![],
                ..st
            }
        }
    }
}

/// Pops a stack unless only its root entry is left.
pub open spec fn pop_keep_root<T>(s: Seq<T>) -> Seq<T> {
    if s.len() > 1 {
        s.drop_last()
    } else {
        s
    }
}

/// `s` without its leading `'/'` characters.
pub open spec fn strip_slashes(s: Seq<char>) -> Seq<char>
    decreases s.len(),
{
    if s.len() > 0 && s[0] == '/' {
        strip_slashes(s.drop_first())
    } else {
        s
    }
}

/// Handles the body of one `[tag]`, `[tag=value]` or `[/tag]`: returns
/// whether the tag was recognized, and the new state. The name (before the
/// first `'='`) is compared without its leading slashes and case. A color
/// name or hexadecimal color as the name of a tag sets the color, and as
/// the name of a closing tag (`[red]…[/red]`) restores the one before.
/// Parsing a color panics where [`parse_color`] does.
pub open spec fn try_tag(st: ParserState, body: Seq<char>) -> Outcome<(bool, ParserState)> {
    let k = find_from(body, '=', 0);
    let name = if k < body.len() {
        body.take(k)
    } else {
        body
    };
    let value: Option<Seq<char>> = if k < body.len() {
        Some(body.skip(k + 1))
    } else {
        None
    };
    let closing = name.len() > 0 && name[0] == '/';
    let bare = lower_seq(strip_slashes(name));
    if bare == "color"@ {
        let s = flush(st);
        if closing {
            Outcome::Returns((true, ParserState { color_stack: pop_keep_root(s.color_stack), ..s }))
        } else {
            match value {
                None => Outcome::Returns((true, ParserState { color_stack: s.color_stack.push(st.default_fg), ..s })),
                Some(v) => if parse_color(v).is_normal() {
                    let rgb = match parse_color(v).value() {
                        Some(c) => c,
                        None => st.default_fg,
                    };
                    Outcome::Returns((true, ParserState { color_stack: s.color_stack.push(rgb), ..s }))
                } else {
                    Outcome::Panics
                },
            }
        }
    } else if bare == "font"@ {
        let s = flush(st);
        if closing {
            Outcome::Returns((true, ParserState { font_stack: pop_keep_root(s.font_stack), ..s }))
        } else {
            let fs = match value {
                Some(v) => match font_size_named(v) {
                    Some(f) => f,
                    None => current_font(s),
                },
                None => current_font(s),
            };
            Outcome::Returns((true, ParserState { font_stack: s.font_stack.push(fs), ..s }))
        }
    } else if bare == "b"@ {
        let s = flush(st);
        if closing {
            Outcome::Returns((true, ParserState { bold_stack: pop_keep_root(s.bold_stack), ..s }))
        } else {
            Outcome::Returns((true, ParserState { bold_stack: s.bold_stack.push(true), ..s }))
        }
    } else if bare == "left"@ || bare == "center"@ || bare == "right"@ {
        let s = flush(st);
        if closing {
            Outcome::Returns((true, ParserState { align_stack: pop_keep_root(s.align_stack), ..s }))
        } else {
            let a = if bare == "left"@ {
                Alignment::Left
            } else if bare == "center"@ {
                Alignment::Center
            } else {
                Alignment::Right
            };
            Outcome::Returns((true, ParserState { align_stack: s.align_stack.push(a), ..s }))
        }
    } else if parse_color(bare).is_normal() {
        match parse_color(bare).value() {
            Some(rgb) => {
                let s = flush(st);
                if closing {
                    Outcome::Returns((true, ParserState { color_stack: pop_keep_root(s.color_stack), ..s }))
                } else {
                    Outcome::Returns((true, ParserState { color_stack: s.color_stack.push(rgb), ..s }))
                }
            },
            None => Outcome::Returns((false, st)),
        }
    } else {
        Outcome::Panics
    }
}

/// A tag name of lower-case characters without `'='` or a leading `'/'`:
/// it is its own bare name, and behind one `'/'` too.
proof fn lemma_plain_tag(name: Seq<char>)
    requires
        name.len() > 0,
        name[0] != '/',
        forall|i: int| 0 <= i < name.len() ==> name[i] != '=' && !('A' <= #[trigger] name[i] && name[i] <= 'Z'),
    ensures
        find_from(name, '=', 0) == name.len(),
        find_from(seq!['/'] + name, '=', 0) == name.len() + 1,
        lower_seq(strip_slashes(name)) == name,
        lower_seq(strip_slashes(seq!['/'] + name)) == name,
{
    let closed = seq!['/'] + name;
    lemma_find_from_bounds(name, '=', 0);
    lemma_find_from_bounds(closed, '=', 0);
    if find_from(name, '=', 0) < name.len() {
        assert(name[find_from(name, '=', 0)] == '=');
    }
    if find_from(closed, '=', 0) < closed.len() {
        let k = find_from(closed, '=', 0);
        if k > 0 {
            assert(closed[k] == name[k - 1]);
        }
    }
    assert(closed.drop_first() =~= name);
    assert(strip_slashes(closed) == strip_slashes(closed.drop_first()));
    assert(lower_seq(name) =~= name);
}

/// `[left]` then `[/left]`: see [`lemma_style_tags_pair`].
proof fn lemma_left_pair(st: ParserState)
    requires
        st.align_stack.len() >= 1,
    ensures
        try_tag(st, "left"@) matches Outcome::Returns((true, s1)) && current_align(s1) == Alignment::Left
            && s1.color_stack == st.color_stack && s1.font_stack == st.font_stack && s1.bold_stack == st.bold_stack
            && (try_tag(s1, "/left"@) matches Outcome::Returns((true, s2)) && s2.align_stack == st.align_stack),
{
    reveal_strlit("color");
    reveal_strlit("font");
    reveal_strlit("b");
    reveal_strlit("left");
    reveal_strlit("center");
    reveal_strlit("right");
    reveal_strlit("/left");
    assert("/left"@ =~= seq!['/'] + "left"@);
    lemma_plain_tag("left"@);
    assert("left"@ != "font"@ && "left"@ != "color"@ && "left"@ != "b"@);
    let s = flush(st);
    let s1 = ParserState { align_stack: s.align_stack.push(Alignment::Left), ..s };
    assert(try_tag(st, "left"@) == Outcome::Returns((true, s1)));
    let f = flush(s1);
    assert(try_tag(s1, "/left"@) == Outcome::Returns((true, ParserState { align_stack: pop_keep_root(f.align_stack), ..f })));
    assert(pop_keep_root(f.align_stack) =~= st.align_stack);
}

/// `[center]` then `[/center]`: see [`lemma_style_tags_pair`].
proof fn lemma_center_pair(st: ParserState)
    requires
        st.align_stack.len() >= 1,
    ensures
        try_tag(st, "center"@) matches Outcome::Returns((true, s1)) && current_align(s1) == Alignment::Center
            && s1.color_stack == st.color_stack && s1.font_stack == st.font_stack && s1.bold_stack == st.bold_stack
            && (try_tag(s1, "/center"@) matches Outcome::Returns((true, s2)) && s2.align_stack == st.align_stack),
{
    reveal_strlit("color");
    reveal_strlit("font");
    reveal_strlit("b");
    reveal_strlit("left");
    reveal_strlit("center");
    reveal_strlit("right");
    reveal_strlit("/center");
    assert("/center"@ =~= seq!['/'] + "center"@);
    lemma_plain_tag("center"@);
    assert("center"@ != "font"@ && "center"@ != "color"@ && "center"@ != "b"@);
    let s = flush(st);
    let s1 = ParserState { align_stack: s.align_stack.push(Alignment::Center), ..s };
    assert(try_tag(st, "center"@) == Outcome::Returns((true, s1)));
    let f = flush(s1);
    assert(try_tag(s1, "/center"@) == Outcome::Returns((true, ParserState { align_stack: pop_keep_root(f.align_stack), ..f })));
    assert(pop_keep_root(f.align_stack) =~= st.align_stack);
}

/// `[right]` then `[/right]`: see [`lemma_style_tags_pair`].
proof fn lemma_right_pair(st: ParserState)
    requires
        st.align_stack.len() >= 1,
    ensures
        try_tag(st, "right"@) matches Outcome::Returns((true, s1)) && current_align(s1) == Alignment::Right
            && s1.color_stack == st.color_stack && s1.font_stack == st.font_stack && s1.bold_stack == st.bold_stack
            && (try_tag(s1, "/right"@) matches Outcome::Returns((true, s2)) && s2.align_stack == st.align_stack),
{
    reveal_strlit("color");
    reveal_strlit("font");
    reveal_strlit("b");
    reveal_strlit("left");
    reveal_strlit("center");
    reveal_strlit("right");
    reveal_strlit("/right");
    assert("/right"@ =~= seq!['/'] + "right"@);
    lemma_plain_tag("right"@);
    assert("right"@ != "font"@ && "right"@ != "color"@ && "right"@ != "b"@);
    let s = flush(st);
    let s1 = ParserState { align_stack: s.align_stack.push(Alignment::Right), ..s };
    assert(try_tag(st, "right"@) == Outcome::Returns((true, s1)));
    let f = flush(s1);
    assert(try_tag(s1, "/right"@) == Outcome::Returns((true, ParserState { align_stack: pop_keep_root(f.align_stack), ..f })));
    assert(pop_keep_root(f.align_stack) =~= st.align_stack);
}

/// `[b]` then `[/b]`: see [`lemma_style_tags_pair`].
proof fn lemma_bold_pair(st: ParserState)
    requires
        st.bold_stack.len() >= 1,
    ensures
        try_tag(st, "b"@) matches Outcome::Returns((true, s1)) && current_bold(s1) && s1.color_stack
            == st.color_stack && s1.font_stack == st.font_stack && s1.align_stack == st.align_stack && (try_tag(
            s1,
            "/b"@,
        ) matches Outcome::Returns((true, s2)) && s2.bold_stack == st.bold_stack),
{
    reveal_strlit("color");
    reveal_strlit("font");
    reveal_strlit("b");
    reveal_strlit("/b");
    assert("/b"@ =~= seq!['/'] + "b"@);
    lemma_plain_tag("b"@);
    assert("b"@ != "font"@ && "b"@ != "color"@);
    let s = flush(st);
    let s1 = ParserState { bold_stack: s.bold_stack.push(true), ..s };
    assert(try_tag(st, "b"@) == Outcome::Returns((true, s1)));
    let f = flush(s1);
    assert(try_tag(s1, "/b"@) == Outcome::Returns((true, ParserState { bold_stack: pop_keep_root(f.bold_stack), ..f })));
    assert(pop_keep_root(f.bold_stack) =~= st.bold_stack);
}

/// Alignment and bold tags come in pairs, whatever the parser's state:
/// `[left]`, `[center]` and `[right]` set the alignment of what follows and
/// `[b]` makes it bold, leaving the color, font and other styles; the
/// matching closing tag gives back the alignment or boldness from before.
pub proof fn lemma_style_tags_pair(st: ParserState)
    requires
        st.align_stack.len() >= 1,
        st.bold_stack.len() >= 1,
    ensures
        try_tag(st, "center"@) matches Outcome::Returns((true, s1)) && current_align(s1) == Alignment::Center
            && s1.color_stack == st.color_stack && s1.font_stack == st.font_stack && s1.bold_stack == st.bold_stack
            && (try_tag(s1, "/center"@) matches Outcome::Returns((true, s2)) && s2.align_stack == st.align_stack),
        try_tag(st, "left"@) matches Outcome::Returns((true, s1)) && current_align(s1) == Alignment::Left
            && s1.color_stack == st.color_stack && s1.font_stack == st.font_stack && s1.bold_stack == st.bold_stack
            && (try_tag(s1, "/left"@) matches Outcome::Returns((true, s2)) && s2.align_stack == st.align_stack),
        try_tag(st, "right"@) matches Outcome::Returns((true, s1)) && current_align(s1) == Alignment::Right
            && s1.color_stack == st.color_stack && s1.font_stack == st.font_stack && s1.bold_stack == st.bold_stack
            && (try_tag(s1, "/right"@) matches Outcome::Returns((true, s2)) && s2.align_stack == st.align_stack),
        try_tag(st, "b"@) matches Outcome::Returns((true, s1)) && current_bold(s1) && s1.color_stack
            == st.color_stack && s1.font_stack == st.font_stack && s1.align_stack == st.align_stack && (try_tag(
            s1,
            "/b"@,
        ) matches Outcome::Returns((true, s2)) && s2.bold_stack == st.bold_stack),
{
    lemma_left_pair(st);
    lemma_center_pair(st);
    lemma_right_pair(st);
    lemma_bold_pair(st);
}

/// Scans markup: a `'['` with a later `']'` whose body is a recognized tag
/// is consumed as a tag; any other `'['` is literal text, and so is
/// everything up to the next `'['`.
pub open spec fn scan(s: Seq<char>, st: ParserState) -> Outcome<ParserState>
    decreases s.len(),
{
    if s.len() == 0 {
        Outcome::Returns(st)
    } else if s[0] == '[' {
        let e = find_from(s, ']', 0);
        proof {
            lemma_find_from_bounds(s, ']', 0);
        }
        if e < s.len() {
            match try_tag(st, s.subrange(1, e)) {
                Outcome::Panics => Outcome::Panics,
                Outcome::Returns((true, st2)) => scan(s.skip(e + 1), st2),
                Outcome::Returns((false, _)) => scan(s.skip(1), ParserState { buf: st.buf.push('['), ..st }),
            }
        } else {
            scan(s.skip(1), ParserState { buf: st.buf.push('['), ..st })
        }
    } else {
        let n = find_from(s, '[', 0);
        proof {
            lemma_find_from_bounds(s, '[', 1);
            assert(n == find_from(s, '[', 1));
        }
        scan(s.skip(n), ParserState { buf: st.buf + s.take(n), ..st })
    }
}

/// The styled runs of a markup text, each with its style.
pub open spec fn parse_runs(text: Seq<char>, default_fg: [u8; 3]) -> Outcome<Seq<RunSpec>> {
    match scan(text, initial_state(default_fg)) {
        Outcome::Panics => Outcome::Panics,
        Outcome::Returns(st) => Outcome::Returns(flush(st).runs),
    }
}

// ---------------------------------------------------------------------------
// The parser
// ---------------------------------------------------------------------------

struct Parser {
    color_stack: Vec<[u8; 3]>,
    font_stack: Vec<FontSize>,
    bold_stack: Vec<bool>,
    align_stack: Vec<Alignment>,
    runs: Vec<Run>,
    buf: Vec<char>,
    default_fg: [u8; 3],
}

impl View for Parser {
    type V = ParserState;

    closed spec fn view(&self) -> ParserState {
        ParserState {
            color_stack: self.color_stack@,
            font_stack: self.font_stack@,
            bold_stack: self.bold_stack@,
            align_stack: self.align_stack@,
            runs: run_views(self.runs@),
            buf: self.buf@,
            default_fg: self.default_fg,
        }
    }
}

/// Equality of two colors.
fn rgb_eq(a: [u8; 3], b: [u8; 3]) -> (r: bool)
    ensures
        r == (a == b),
{
    if a[0] == b[0] && a[1] == b[1] && a[2] == b[2] {
        assert(a =~= b);
        true
    } else {
        false
    }
}

/// Pops a stack unless only its root entry is left.
fn pop_if<T>(stack: &mut Vec<T>)
    ensures
        final(stack)@ == pop_keep_root(old(stack)@),
{
    if stack.len() > 1 {
        stack.pop();
    }
}

impl Parser {
    fn new(default_fg: [u8; 3]) -> (p: Parser)
        ensures
            p@ == initial_state(default_fg),
    {
        let p = Parser {
            color_stack: vec![default_fg],
            font_stack: vec![FontSize::S5x8],
            bold_stack: vec![false],
            align_stack: vec![Alignment::Left],
            runs: Vec::new(),
            buf: Vec::new(),
            default_fg,
        };
        assert(run_views(p.runs@) =~= seq![]);
        assert(p@.color_stack =~= seq![default_fg]);
        assert(p@.font_stack =~= seq![FontSize::S5x8]);
        assert(p@.bold_stack =~= seq![false]);
        assert(p@.align_stack =~= seq![Alignment::Left]);
        p
    }

    fn current_color(&self) -> (r: [u8; 3])
        ensures
            r == current_color(self@),
    {
        let n = self.color_stack.len();
        if n > 0 {
            self.color_stack[n - 1]
        } else {
            self.default_fg
        }
    }

    fn current_font(&self) -> (r: FontSize)
        ensures
            r == current_font(self@),
    {
        let n = self.font_stack.len();
        if n > 0 {
            self.font_stack[n - 1]
        } else {
            FontSize::S8x16
        }
    }

    fn current_bold(&self) -> (r: bool)
        ensures
            r == current_bold(self@),
    {
        let n = self.bold_stack.len();
        if n > 0 {
            self.bold_stack[n - 1]
        } else {
            false
        }
    }

    fn current_align(&self) -> (r: Alignment)
        ensures
            r == current_align(self@),
    {
        let n = self.align_stack.len();
        if n > 0 {
            self.align_stack[n - 1]
        } else {
            Alignment::Left
        }
    }

    /// Handles the body of one tag (see [`try_tag`]); `Err(())` where a
    /// color in it makes the parse panic.
    fn try_tag(&mut self, body: &[char]) -> (r: Result<bool, ()>)
        ensures
            match try_tag(old(self)@, body@) {
                Outcome::Panics => r is Err,
                Outcome::Returns((b, st)) => r == Ok::<bool, ()>(b) && final(self)@ == st,
            },
    {
        proof {
            lemma_find_from_bounds(body@, '=', 0);
        }
        let k = find_char_from(body, '=', 0);
        let has_value = k < body.len();
        let name = slice_to_vec(body, 0, k);
        let value = if has_value {
            slice_to_vec(body, k + 1, body.len())
        } else {
            Vec::new()
        };
        proof {
            if has_value {
                assert(name@ =~= body@.take(k as int));
                assert(value@ =~= body@.skip(k + 1));
            } else {
                assert(name@ =~= body@);
            }
        }
        let closing = name.len() > 0 && name[0] == '/';
        let mut j: usize = 0;
        assert(name@.skip(0) =~= name@);
        while j < name.len() && name[j] == '/'
            invariant
                j <= name.len(),
                strip_slashes(name@) == strip_slashes(name@.skip(j as int)),
            decreases name.len() - j,
        {
            assert(name@.skip(j as int).drop_first() =~= name@.skip(j + 1));
            j = j + 1;
        }
        let stripped = slice_to_vec(&name, j, name.len());
        assert(stripped@ =~= name@.skip(j as int));
        let bare = lower_vec(&stripped);
        let ghost st = self@;
        if chars_eq_str(&bare, "color") {
            self.flush();
            if closing {
                pop_if(&mut self.color_stack);
            } else {
                let rgb = if has_value {
                    match try_parse_chars(&value) {
                        Err(()) => {
                            return Err(());
                        },
                        Ok(Some(c)) => c,
                        Ok(None) => self.default_fg,
                    }
                } else {
                    self.default_fg
                };
                self.color_stack.push(rgb);
            }
            Ok(true)
        } else if chars_eq_str(&bare, "font") {
            self.flush();
            if closing {
                pop_if(&mut self.font_stack);
            } else {
                let fs = if has_value {
                    match FontSize::from_chars(&value) {
                        Some(f) => f,
                        None => self.current_font(),
                    }
                } else {
                    self.current_font()
                };
                self.font_stack.push(fs);
            }
            Ok(true)
        } else if chars_eq_str(&bare, "b") {
            self.flush();
            if closing {
                pop_if(&mut self.bold_stack);
            } else {
                self.bold_stack.push(true);
            }
            Ok(true)
        } else if chars_eq_str(&bare, "left") || chars_eq_str(&bare, "center") || chars_eq_str(
            &bare,
            "right",
        ) {
            self.flush();
            if closing {
                pop_if(&mut self.align_stack);
            } else {
                let a = if chars_eq_str(&bare, "left") {
                    Alignment::Left
                } else if chars_eq_str(&bare, "center") {
                    Alignment::Center
                } else {
                    Alignment::Right
                };
                self.align_stack.push(a);
            }
            Ok(true)
        } else {
            match try_parse_chars(&bare) {
                Err(()) => Err(()),
                Ok(Some(rgb)) => {
                    self.flush();
                    if closing {
                        pop_if(&mut self.color_stack);
                    } else {
                        self.color_stack.push(rgb);
                    }
                    Ok(true)
                },
                Ok(None) => Ok(false),
            }
        }
    }

    /// Turns the pending text into a run (see [`flush`]).
    fn flush(&mut self)
        ensures
            final(self)@ == flush(old(self)@),
    {
        if self.buf.len() == 0 {
            return;
        }
        let color = self.current_color();
        let font = self.current_font();
        let bold = self.current_bold();
        let align = self.current_align();
        let n = self.runs.len();
        let ghost old_runs = self.runs@;
        if n > 0 && rgb_eq(self.runs[n - 1].color, color) && self.runs[n - 1].font == font
            && self.runs[n - 1].bold == bold && self.runs[n - 1].align == align {
            assert(run_views(old_runs).last() == old_runs[n - 1]@);
            let mut last = self.runs.pop().unwrap();
            extend_chars(&mut last.text, &self.buf);
            self.runs.push(last);
            self.buf = Vec::new();
            assert(run_views(self.runs@) =~= run_views(old_runs).drop_last().push(
                RunSpec { text: old_runs[n - 1]@.text + old(self)@.buf, ..old_runs[n - 1]@ },
            ));
        } else {
            let text = slice_to_vec(&self.buf, 0, self.buf.len());
            assert(text@ =~= old(self)@.buf);
            self.runs.push(Run { text, color, font, bold, align });
            self.buf = Vec::new();
            assert(run_views(self.runs@) =~= run_views(old_runs).push(
                RunSpec { text: old(self)@.buf, color, font, bold, align },
            ));
        }
        assert(self.buf@ =~= seq![]);
    }
}

/// Splits markup into styled runs (see [`parse_runs`]).
pub fn parse(text: &[char], default_fg: [u8; 3]) -> (r: Vec<Run>)
    requires
        parse_runs(text@, default_fg).is_normal(),
    ensures
        run_views(r@) == parse_runs(text@, default_fg).value(),
{
    match try_parse(text, default_fg) {
        Some(runs) => runs,
        None => {
            assert(false);
            Vec::new()
        },
    }
}

/// Splits markup into styled runs (see [`parse_runs`]), or `None` where a
/// color in a tag makes the parse panic.
pub fn try_parse(text: &[char], default_fg: [u8; 3]) -> (r: Option<Vec<Run>>)
    ensures
        match parse_runs(text@, default_fg) {
            Outcome::Panics => r is None,
            Outcome::Returns(v) => r matches Some(x) && run_views(x@) == v,
        },
{
    let mut p = Parser::new(default_fg);
    let ghost whole = scan(text@, initial_state(default_fg));
    let mut i: usize = 0;
    assert(text@.skip(0) =~= text@);
    while i < text.len()
        invariant
            i <= text.len(),
            whole == scan(text@, initial_state(default_fg)),
            whole == scan(text@.skip(i as int), p@),
        decreases text.len() - i,
    {
        let ghost t = text@.skip(i as int);
        let ghost st = p@;
        assert(t[0] == text@[i as int]);
        if text[i] == '[' {
            let e = find_char_from(text, ']', i);
            proof {
                lemma_find_shift(text@, ']', i as int, i as int);
                lemma_find_from_bounds(text@, ']', i + 1);
                assert(find_from(text@, ']', i as int) == find_from(text@, ']', i + 1));
                assert(t.skip(1) =~= text@.skip(i + 1));
            }
            let mut consumed = false;
            if e < text.len() {
                let body = slice_to_vec(text, i + 1, e);
                assert(body@ =~= t.subrange(1, e - i));
                match p.try_tag(&body) {
                    Err(()) => {
                        return None;
                    },
                    Ok(true) => {
                        assert(t.skip(e - i + 1) =~= text@.skip(e + 1));
                        i = e + 1;
                        consumed = true;
                    },
                    Ok(false) => {
                        assert(p@ == st);
                    },
                }
            }
            if !consumed {
                p.buf.push('[');
                assert(p@ == ParserState { buf: st.buf.push('['), ..st });
                i = i + 1;
            }
        } else {
            let next = find_char_from(text, '[', i);
            proof {
                lemma_find_shift(text@, '[', i as int, i as int);
                lemma_find_shift(text@, '[', i as int, i + 1);
                lemma_find_from_bounds(t, '[', 1);
            }
            let piece = slice_to_vec(text, i, next);
            extend_chars(&mut p.buf, &piece);
            assert(piece@ =~= t.take(next - i));
            assert(t.skip(next - i) =~= text@.skip(next as int));
            assert(p@ == ParserState { buf: st.buf + t.take(next - i), ..st });
            i = next;
        }
    }
    assert(text@.skip(i as int).len() == 0);
    p.flush();
    Some(p.runs)
}

// ---------------------------------------------------------------------------
// Rendering
// ---------------------------------------------------------------------------

#[derive(Debug)]
pub struct RenderOutput {
    pub rgb888: Vec<u8>,
    pub width: u32,
    pub height: u32,
}

/// `v as i32` for a value of the type `u32`.
pub open spec fn u32_as_i32(v: int) -> int {
    if v > 0x7FFF_FFFF {
        v - 0x1_0000_0000
    } else {
        v
    }
}

/// Division by a positive number rounding toward zero, as on `i32`.
pub open spec fn div_toward_zero(a: int, b: int) -> int {
    if a >= 0 {
        a / b
    } else {
        -((-a) / b)
    }
}

/// The pen column of a line `line_px` pixels wide on a canvas `w` pixels
/// wide; `None` where the `i32` arithmetic overflows.
pub open spec fn line_x(align: Alignment, w: u32, line_px: int) -> Option<int> {
    let d = u32_as_i32(w as int) - u32_as_i32(line_px);
    match align {
        Alignment::Left => Some(0),
        Alignment::Center => if fits_i32(d) {
            Some(div_toward_zero(d, 2))
        } else {
            None
        },
        Alignment::Right => if fits_i32(d) {
            Some(d)
        } else {
            None
        },
    }
}

/// Where a line starts: a left-aligned line at column 0; a right-aligned
/// one so that it ends at the canvas's right edge; a centered one so that
/// its left and right margins differ by at most one pixel, the left one
/// the smaller (for a line wider than the canvas, the overhangs likewise,
/// the left one the smaller).
pub proof fn lemma_line_x_alignment(w: u32, line_px: int)
    requires
        w <= 0x7FFF_FFFF,
        0 <= line_px <= 0x7FFF_FFFF,
    ensures
        line_x(Alignment::Left, w, line_px) == Some(0int),
        line_x(Alignment::Right, w, line_px) matches Some(x) && x + line_px == w,
        line_x(Alignment::Center, w, line_px) matches Some(x) && (line_px <= w ==> 0 <= (w - (x + line_px)) - x <= 1)
            && (line_px > w ==> 0 <= ((x + line_px) - w) - (0 - x) <= 1),
{
}

/// Draws a line of a run at column `x`, a second time one pixel to the right
/// for a bold run.
pub open spec fn line_blit(px: Seq<u8>, w: u32, h: u32, f: FontSpec, line: Seq<char>, x: int, y: int, run: RunSpec) -> Outcome<Seq<u8>> {
    match string_blit(px, w, h, f, line, x, y, run.color) {
        Outcome::Panics => Outcome::Panics,
        Outcome::Returns((px2, _)) => if !run.bold {
            Outcome::Returns(px2)
        } else if !fits_i32(x + 1) {
            Outcome::Panics
        } else {
            match string_blit(px2, w, h, f, line, x + 1, y, run.color) {
                Outcome::Panics => Outcome::Panics,
                Outcome::Returns((px3, _)) => Outcome::Returns(px3),
            }
        },
    }
}

/// Draws the wrapped lines of a run from row `cy` down, one font box height
/// apart, stopping before the first line that would end below the canvas.
/// Returns the pixels and the next row.
pub open spec fn render_lines(lines: Seq<Seq<char>>, f: FontSpec, d: u16, run: RunSpec, w: u32, h: u32, px: Seq<u8>, cy: int) -> Outcome<(Seq<u8>, int)>
    decreases lines.len(),
{
    if lines.len() == 0 {
        Outcome::Returns((px, cy))
    } else if !fits_i32(cy + f.fbb_h) {
        Outcome::Panics
    } else if cy + f.fbb_h > u32_as_i32(h as int) {
        Outcome::Returns((px, cy))
    } else {
        let lw = text_width(f, d, lines[0]);
        if lw > u32::MAX {
            Outcome::Panics
        } else {
            match line_x(run.align, w, lw as int) {
                None => Outcome::Panics,
                Some(x) => match line_blit(px, w, h, f, lines[0], x, cy, run) {
                    Outcome::Panics => Outcome::Panics,
                    Outcome::Returns(px2) => render_lines(lines.drop_first(), f, d, run, w, h, px2, cy + f.fbb_h),
                },
            }
        }
    }
}

/// Draws the runs in order, each wrapped to the canvas width with its font;
/// a font that did not parse ends the rendering with its error.
pub open spec fn render_runs(runs: Seq<RunSpec>, fonts: FontSet, w: u32, h: u32, px: Seq<u8>, cy: int) -> Outcome<Result<Seq<u8>, RenderError>>
    decreases runs.len(),
{
    if runs.len() == 0 {
        Outcome::Returns(Ok(px))
    } else {
        match fonts.slot(runs[0].font) {
            Err(e) => Outcome::Returns(Err(e)),
            Ok(font) => match wrap_lines(runs[0].text, font@, font.default_adv(), w) {
                Outcome::Panics => Outcome::Panics,
                Outcome::Returns(lines) => match render_lines(lines, font@, font.default_adv(), runs[0], w, h, px, cy) {
                    Outcome::Panics => Outcome::Panics,
                    Outcome::Returns((px2, cy2)) => render_runs(runs.drop_first(), fonts, w, h, px2, cy2),
                },
            },
        }
    }
}

/// The canvas before drawing: `w * h` pixels of `bg`.
pub open spec fn background(w: u32, h: u32, bg: [u8; 3]) -> Seq<u8> {
    Seq::new((w * h * 3) as nat, |i: int| bg[i % 3])
}

/// The canvas size, `w * h * 3` bytes, fits in memory addressing.
pub open spec fn background_fits(w: u32, h: u32, bg: [u8; 3]) -> bool {
    w * h * 3 <= usize::MAX
}

/// What rendering a markup text gives: the pixels, or the error of a font
/// that did not parse; panics where parsing a color, measuring a line, or the
/// pixel arithmetic does.
pub open spec fn bbcode_render(text: Seq<char>, w: u32, h: u32, fg: [u8; 3], bg: [u8; 3], fonts: FontSet) -> Outcome<Result<Seq<u8>, RenderError>> {
    match parse_runs(text, fg) {
        Outcome::Panics => Outcome::Panics,
        Outcome::Returns(runs) => if !background_fits(w, h, bg) {
            Outcome::Panics
        } else {
            render_runs(runs, fonts, w, h, background(w, h, bg), 0)
        },
    }
}

/// Two errors of the same kind with the same message.
pub open spec fn same_error(a: RenderError, b: RenderError) -> bool {
    match (a, b) {
        (RenderError::Font(x), RenderError::Font(y)) => x@ == y@,
        (RenderError::Parse(x), RenderError::Parse(y)) => x@ == y@,
        _ => false,
    }
}

/// A copy of an error.
fn copy_error(e: &RenderError) -> (r: RenderError)
    ensures
        same_error(r, *e),
{
    match e {
        RenderError::Font(m) => RenderError::Font(m.clone()),
        RenderError::Parse(m) => RenderError::Parse(m.clone()),
    }
}

/// Builds the canvas before drawing (see [`background`]).
fn build_background(width: u32, height: u32, bg: [u8; 3]) -> (r: Vec<u8>)
    requires
        background_fits(width, height, bg),
    ensures
        r@ == background(width, height, bg),
{
    let n: usize = (width as usize) * (height as usize) * 3;
    let mut canvas: Vec<u8> = Vec::new();
    let mut i: usize = 0;
    while i < n
        invariant
            i <= n,
            canvas@.len() == i,
            forall|k: int| 0 <= k < i ==> canvas@[k] == bg[k % 3],
        decreases n - i,
    {
        canvas.push(bg[i % 3]);
        i = i + 1;
    }
    assert(canvas@ =~= background(width, height, bg));
    canvas
}

/// `v as i32` for a `u32`.
fn u32_to_i32_wrapping(v: u32) -> (r: i64)
    ensures
        r == u32_as_i32(v as int),
{
    if v > 0x7FFF_FFFF {
        (v as i64) - 0x1_0000_0000
    } else {
        v as i64
    }
}

/// Draws the wrapped lines of a run (see [`render_lines`]); returns the next
/// row, or `None` where the arithmetic overflows (the canvas is then partly
/// drawn).
fn render_run_lines(canvas: &mut Canvas, font: &BdfFont, run: &Run, lines: &Vec<Vec<char>>, cursor_y: i32) -> (r: Option<i32>)
    ensures
        final(canvas).width == old(canvas).width,
        final(canvas).height == old(canvas).height,
        match render_lines(views(lines@), font@, font.default_adv(), run@, old(canvas).width, old(canvas).height, old(canvas).pixels@, cursor_y as int) {
            Outcome::Panics => r is None,
            Outcome::Returns((px, cy)) => r matches Some(y) && y == cy && final(canvas).pixels@ == px,
        },
{
    proof {
        crate::render::bdf::lemma_font_view_fields(font);
    }
    let ghost whole = render_lines(views(lines@), font@, font.default_adv(), run@, canvas.width, canvas.height, canvas.pixels@, cursor_y as int);
    let width = canvas.width;
    let height = canvas.height;
    let height_i = u32_to_i32_wrapping(height);
    let width_i = u32_to_i32_wrapping(width);
    let line_h: i32 = font.fbb_h as i32;
    let mut y: i32 = cursor_y;
    let mut j: usize = 0;
    assert(views(lines@).skip(0) =~= views(lines@));
    while j < lines.len()
        invariant
            j <= lines.len(),
            canvas.width == width,
            canvas.height == height,
            width == old(canvas).width,
            height == old(canvas).height,
            height_i == u32_as_i32(height as int),
            width_i == u32_as_i32(width as int),
            line_h == font@.fbb_h,
            whole == render_lines(views(lines@), font@, font.default_adv(), run@, old(canvas).width, old(canvas).height, old(canvas).pixels@, cursor_y as int),
            whole == render_lines(views(lines@).skip(j as int), font@, font.default_adv(), run@, width, height, canvas.pixels@, y as int),
        decreases lines.len() - j,
    {
        let ghost rest = views(lines@).skip(j as int);
        assert(rest[0] == lines@[j as int]@);
        assert(rest.drop_first() =~= views(lines@).skip(j + 1));
        if (y as i64) + (line_h as i64) > 0x7FFF_FFFF {
            return None;
        }
        if (y as i64) + (line_h as i64) > height_i {
            return Some(y);
        }
        let line = &lines[j];
        let lw = match font.try_measure_chars(line) {
            Some(v) => v,
            None => {
                return None;
            },
        };
        let li = u32_to_i32_wrapping(lw);
        let d: i64 = width_i - li;
        let x: i32 = match run.align {
            Alignment::Left => 0,
            Alignment::Center => {
                if d < -0x8000_0000 || d > 0x7FFF_FFFF {
                    return None;
                }
                let q: i64 = if d >= 0 {
                    d / 2
                } else {
                    -((-d) / 2)
                };
                q as i32
            },
            Alignment::Right => {
                if d < -0x8000_0000 || d > 0x7FFF_FFFF {
                    return None;
                }
                d as i32
            },
        };
        if try_blit_chars(canvas, font, line, x, y, run.color).is_none() {
            return None;
        }
        if run.bold {
            if (x as i64) + 1 > 0x7FFF_FFFF {
                return None;
            }
            if try_blit_chars(canvas, font, line, x + 1, y, run.color).is_none() {
                return None;
            }
        }
        y = y + line_h;
        j = j + 1;
    }
    assert(views(lines@).skip(j as int).len() == 0);
    Some(y)
}

/// Checks [`background_fits`].
fn background_fits_exec(width: u32, height: u32, bg: [u8; 3]) -> (r: bool)
    ensures
        r == background_fits(width, height, bg),
{
    assert((width as u128) * (height as u128) <= 0xFFFF_FFFF * 0xFFFF_FFFFu128) by (nonlinear_arith)
        requires
            width <= 0xFFFF_FFFF,
            height <= 0xFFFF_FFFF,
    ;
    let total: u128 = (width as u128) * (height as u128) * 3;
    total <= (usize::MAX as u128)
}

/// Renders `text` (possibly containing BBCode tags) into a `width` by
/// `height` RGB888 buffer with the fonts of `fonts` (see [`bbcode_render`]).
pub fn render_bbcode_text(text: &str, width: u32, height: u32, default_fg: [u8; 3], bg: [u8; 3], fonts: &FontSet) -> (r: Result<RenderOutput, RenderError>)
    requires
        bbcode_render(text@, width, height, default_fg, bg, *fonts).is_normal(),
    ensures
        match bbcode_render(text@, width, height, default_fg, bg, *fonts).value() {
            Ok(px) => r matches Ok(o) && o.rgb888@ == px && o.width == width && o.height == height,
            Err(e) => r matches Err(e2) && same_error(e2, e),
        },
{
    match try_render_bbcode_text(text, width, height, default_fg, bg, fonts) {
        Some(r) => r,
        None => {
            assert(false);
            Err(RenderError::Parse(String::new()))
        },
    }
}

/// [`render_bbcode_text`], or `None` on the inputs where rendering panics
/// (a malformed color in a tag, or arithmetic that overflows).
pub fn try_render_bbcode_text(text: &str, width: u32, height: u32, default_fg: [u8; 3], bg: [u8; 3], fonts: &FontSet) -> (r: Option<Result<RenderOutput, RenderError>>)
    ensures
        match bbcode_render(text@, width, height, default_fg, bg, *fonts) {
            Outcome::Panics => r is None,
            Outcome::Returns(Ok(px)) => r matches Some(Ok(o)) && o.rgb888@ == px && o.width == width
                && o.height == height,
            Outcome::Returns(Err(e)) => r matches Some(Err(e2)) && same_error(e2, e),
        },
{
    let chars = chars_of(text);
    let runs = match try_parse(&chars, default_fg) {
        Some(runs) => runs,
        None => {
            return None;
        },
    };
    if !background_fits_exec(width, height, bg) {
        return None;
    }
    let pixels = build_background(width, height, bg);
    let mut canvas = Canvas { pixels, width, height };
    let ghost whole = bbcode_render(text@, width, height, default_fg, bg, *fonts);
    let mut cursor_y: i32 = 0;
    let mut k: usize = 0;
    assert(run_views(runs@).skip(0) =~= run_views(runs@));
    while k < runs.len()
        invariant
            k <= runs.len(),
            canvas.width == width,
            canvas.height == height,
            whole == bbcode_render(text@, width, height, default_fg, bg, *fonts),
            whole == render_runs(run_views(runs@).skip(k as int), *fonts, width, height, canvas.pixels@, cursor_y as int),
        decreases runs.len() - k,
    {
        let ghost rest = run_views(runs@).skip(k as int);
        assert(rest[0] == runs@[k as int]@);
        assert(rest.drop_first() =~= run_views(runs@).skip(k + 1));
        let run = &runs[k];
        let font = match get(fonts, run.font) {
            Ok(f) => f,
            Err(e) => {
                return Some(Err(copy_error(e)));
            },
        };
        let lines = match try_wrap_chars(&run.text, font, width) {
            Some(lines) => lines,
            None => {
                return None;
            },
        };
        cursor_y = match render_run_lines(&mut canvas, font, run, &lines, cursor_y) {
            Some(y) => y,
            None => {
                return None;
            },
        };
        k = k + 1;
    }
    assert(run_views(runs@).skip(k as int).len() == 0);
    Some(Ok(RenderOutput { rgb888: canvas.pixels, width, height }))
}

} // verus!
