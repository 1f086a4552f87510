//! Word wrapping to a pixel width, using the advances of a BDF font.

use vstd::prelude::*;

use crate::outcome::Outcome;
use crate::render::bdf::text_width;
use crate::render::bdf::BdfFont;
use crate::render::bdf::FontSpec;
use crate::text::split_on;
use crate::text::split_vec;
use crate::text::string_from_chars;
use crate::text::views;
use crate::text::words;
use crate::text::words_vec;
use crate::text::chars_of;
use crate::text::extend_chars;

verus! {

/// The views of a sequence of strings.
pub open spec fn string_views(v: Seq<String>) -> Seq<Seq<char>> {
    Seq::new(v.len(), |i: int| v[i]@)
}

/// The line `current` with `word` appended after a space (or `word` alone).
pub open spec fn join_word(current: Seq<char>, word: Seq<char>) -> Seq<char> {
    if current.len() == 0 {
        word
    } else {
        current + seq![' '] + word
    }
}

/// Greedy filling of the words of one paragraph: a word joins the current
/// line while the line stays within `max` pixels; a word wider than `max` on
/// its own becomes a line of its own; otherwise the current line is closed.
/// Measuring a line wider than `u32::MAX` panics.
pub open spec fn wrap_words(ws: Seq<Seq<char>>, f: FontSpec, d: u16, max: u32, current: Seq<char>, acc: Seq<Seq<char>>) -> Outcome<Seq<Seq<char>>>
    decreases ws.len(),
{
    if ws.len() == 0 {
        Outcome::Returns(
            if current.len() > 0 {
                acc.push(current)
            } else {
                acc
            },
        )
    } else {
        let cand = join_word(current, ws[0]);
        if text_width(f, d, cand) > u32::MAX {
            Outcome::Panics
        } else if text_width(f, d, cand) <= max {
            wrap_words(ws.drop_first(), f, d, max, cand, acc)
        } else if current.len() == 0 {
            wrap_words(ws.drop_first(), f, d, max, current, acc.push(ws[0]))
        } else {
            wrap_words(ws.drop_first(), f, d, max, ws[0], acc.push(current))
        }
    }
}

/// Wraps each paragraph in turn; an empty paragraph gives an empty line.
pub open spec fn wrap_paragraphs(ps: Seq<Seq<char>>, f: FontSpec, d: u16, max: u32, acc: Seq<Seq<char>>) -> Outcome<Seq<Seq<char>>>
    decreases ps.len(),
{
    if ps.len() == 0 {
        Outcome::Returns(acc)
    } else if ps[0].len() == 0 {
        wrap_paragraphs(ps.drop_first(), f, d, max, acc.push(seq![]))
    } else {
        match wrap_words(words(ps[0], false), f, d, max, seq![], acc) {
            Outcome::Panics => Outcome::Panics,
            Outcome::Returns(acc2) => wrap_paragraphs(ps.drop_first(), f, d, max, acc2),
        }
    }
}

/// The lines of `text` wrapped to `max` pixels: paragraphs are separated by
/// `'\n'`, words by white space.
pub open spec fn wrap_lines(text: Seq<char>, f: FontSpec, d: u16, max: u32) -> Outcome<Seq<Seq<char>>> {
    wrap_paragraphs(split_on(text, '\n'), f, d, max, seq![])
}

/// Wraps the words of one paragraph onto `out` (see [`wrap_words`]);
/// `false` where measuring a line overflows.
fn wrap_paragraph(ws: &Vec<Vec<char>>, font: &BdfFont, max_width: u32, out: &mut Vec<Vec<char>>) -> (ok: bool)
    ensures
        match wrap_words(views(ws@), font@, font.default_adv(), max_width, seq![], views(old(out)@)) {
            Outcome::Panics => !ok,
            Outcome::Returns(v) => ok && views(final(out)@) == v,
        },
{
    let ghost whole = wrap_words(views(ws@), font@, font.default_adv(), max_width, seq![], views(out@));
    let mut current: Vec<char> = Vec::new();
    let mut i: usize = 0;
    assert(views(ws@).skip(0) =~= views(ws@));
    while i < ws.len()
        invariant
            i <= ws.len(),
            whole == wrap_words(views(ws@), font@, font.default_adv(), max_width, seq![], views(old(out)@)),
            whole == wrap_words(views(ws@).skip(i as int), font@, font.default_adv(), max_width, current@, views(out@)),
        decreases ws.len() - i,
    {
        let ghost rest = views(ws@).skip(i as int);
        assert(rest[0] == ws@[i as int]@);
        assert(rest.drop_first() =~= views(ws@).skip(i + 1));
        let word = &ws[i];
        let mut cand: Vec<char> = Vec::new();
        if current.len() == 0 {
            extend_chars(&mut cand, word);
        } else {
            extend_chars(&mut cand, &current);
            cand.push(' ');
            extend_chars(&mut cand, word);
        }
        assert(cand@ =~= join_word(current@, word@));
        let width = match font.try_measure_chars(&cand) {
            Some(v) => v,
            None => {
                return false;
            },
        };
        if width <= max_width {
            current = cand;
        } else if current.len() == 0 {
            let copy = crate::text::slice_to_vec(word, 0, word.len());
            assert(copy@ =~= word@);
            proof {
                crate::text::lemma_views_push(out@, copy);
            }
            out.push(copy);
        } else {
            proof {
                crate::text::lemma_views_push(out@, current);
            }
            out.push(current);
            current = crate::text::slice_to_vec(word, 0, word.len());
            assert(current@ =~= word@);
        }
        i = i + 1;
    }
    if current.len() > 0 {
        proof {
            crate::text::lemma_views_push(out@, current);
        }
        out.push(current);
    }
    true
}

/// Wraps text to `max_width` pixels (see [`wrap_lines`]).
pub fn wrap_chars(text: &[char], font: &BdfFont, max_width: u32) -> (r: Vec<Vec<char>>)
    requires
        wrap_lines(text@, font@, font.default_adv(), max_width).is_normal(),
    ensures
        views(r@) == wrap_lines(text@, font@, font.default_adv(), max_width).value(),
{
    match try_wrap_chars(text, font, max_width) {
        Some(lines) => lines,
        None => {
            assert(false);
            Vec::new()
        },
    }
}

/// Wraps text to `max_width` pixels (see [`wrap_lines`]), or `None` where
/// measuring a line overflows.
pub fn try_wrap_chars(text: &[char], font: &BdfFont, max_width: u32) -> (r: Option<Vec<Vec<char>>>)
    ensures
        match wrap_lines(text@, font@, font.default_adv(), max_width) {
            Outcome::Panics => r is None,
            Outcome::Returns(v) => r matches Some(x) && views(x@) == v,
        },
{
    let ghost whole = wrap_lines(text@, font@, font.default_adv(), max_width);
    let paragraphs = split_vec(text, '\n');
    let mut out: Vec<Vec<char>> = Vec::new();
    let mut i: usize = 0;
    assert(views(paragraphs@).skip(0) =~= views(paragraphs@));
    assert(views(out@) =~= seq![]);
    while i < paragraphs.len()
        invariant
            i <= paragraphs.len(),
            views(paragraphs@) == split_on(text@, '\n'),
            whole == wrap_lines(text@, font@, font.default_adv(), max_width),
            whole == wrap_paragraphs(views(paragraphs@).skip(i as int), font@, font.default_adv(), max_width, views(out@)),
        decreases paragraphs.len() - i,
    {
        let ghost rest = views(paragraphs@).skip(i as int);
        assert(rest[0] == paragraphs@[i as int]@);
        assert(rest.drop_first() =~= views(paragraphs@).skip(i + 1));
        let p = &paragraphs[i];
        if p.len() == 0 {
            let empty: Vec<char> = Vec::new();
            proof {
                crate::text::lemma_views_push(out@, empty);
                assert(empty@ =~= seq![]);
            }
            out.push(empty);
        } else {
            let ws = words_vec(p, false);
            if !wrap_paragraph(&ws, font, max_width, &mut out) {
                return None;
            }
        }
        i = i + 1;
    }
    assert(views(paragraphs@).skip(i as int).len() == 0);
    Some(out)
}

/// Wraps text to `max_width` pixels (see [`wrap_lines`]).
pub fn wrap(text: &str, font: &BdfFont, max_width: u32) -> (r: Vec<String>)
    requires
        wrap_lines(text@, font@, font.default_adv(), max_width).is_normal(),
    ensures
        string_views(r@) == wrap_lines(text@, font@, font.default_adv(), max_width).value(),
{
    let chars = chars_of(text);
    let lines = wrap_chars(&chars, font, max_width);
    let mut r: Vec<String> = Vec::new();
    let mut i: usize = 0;
    while i < lines.len()
        invariant
            i <= lines.len(),
            r@.len() == i,
            string_views(r@) =~= views(lines@).take(i as int),
        decreases lines.len() - i,
    {
        let s = string_from_chars(&lines[i]);
        let ghost r0 = r@;
        let ghost sv = s;
        r.push(s);
        assert(r@ == r0.push(sv));
        assert(sv@ == lines@[i as int]@);
        assert(r@[i as int]@ == lines@[i as int]@);
        assert forall|k: int| 0 <= k < i + 1 implies #[trigger] string_views(r@)[k] == views(lines@).take(i + 1)[k] by {
            if k < i {
                assert(r@[k] == r0[k]);
                assert(string_views(r0)[k] == views(lines@).take(i as int)[k]);
            }
        }
        assert(string_views(r@) =~= views(lines@).take(i + 1));
        i = i + 1;
    }
    assert(views(lines@).take(i as int) =~= views(lines@));
    r
}

} // verus!
