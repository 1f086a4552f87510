//! Character-level helpers shared by the parsers: ASCII case folding, white
//! space classes, trimming, splitting, decimal and hexadecimal numbers, and
//! conversions between `str` and character vectors.

use vstd::prelude::*;

verus! {

// ---------------------------------------------------------------------------
// Character classes
// ---------------------------------------------------------------------------

/// ASCII lower-casing of one character; other characters are unchanged.
pub open spec fn lower_char(c: char) -> char {
    if 'A' <= c && c <= 'Z' {
        ((c as u32) + 32) as char
    } else {
        c
    }
}

/// ASCII lower-casing of a character sequence.
pub open spec fn lower_seq(s: Seq<char>) -> Seq<char> {
    Seq::new(s.len(), |i: int| lower_char(s[i]))
}

/// Unicode `White_Space`, the class that `char::is_whitespace` tests.
pub open spec fn is_ws(c: char) -> bool {
    let u = c as u32;
    ||| 0x09 <= u && u <= 0x0D
    ||| u == 0x20
    ||| u == 0x85
    ||| u == 0xA0
    ||| u == 0x1680
    ||| 0x2000 <= u && u <= 0x200A
    ||| u == 0x2028
    ||| u == 0x2029
    ||| u == 0x202F
    ||| u == 0x205F
    ||| u == 0x3000
}

/// ASCII white space as `u8::is_ascii_whitespace` defines it (no vertical tab).
pub open spec fn is_ascii_ws(c: char) -> bool {
    c == ' ' || c == '\t' || c == '\n' || c == '\x0C' || c == '\r'
}

/// Number of bytes of the UTF-8 encoding of a character.
pub open spec fn utf8_width(c: char) -> nat {
    let u = c as u32;
    if u <= 0x7F {
        1
    } else if u <= 0x7FF {
        2
    } else if u <= 0xFFFF {
        3
    } else {
        4
    }
}

/// Number of bytes of the UTF-8 encoding of a character sequence.
pub open spec fn utf8_len(s: Seq<char>) -> nat
    decreases s.len(),
{
    if s.len() == 0 {
        0
    } else {
        utf8_width(s[0]) + utf8_len(s.drop_first())
    }
}

/// Lower-cases one character (ASCII only).
pub fn to_ascii_lower(c: char) -> (r: char)
    ensures
        r == lower_char(c),
{
    if 'A' <= c && c <= 'Z' {
        let v: u32 = (c as u32) + 32;
        char_from_ascii_code(v)
    } else {
        c
    }
}

/// The character with an ASCII code point.
fn char_from_ascii_code(v: u32) -> (r: char)
    requires
        v < 128,
    ensures
        r == v as char,
{
    (v as u8) as char
}

/// Tests Unicode white space.
pub fn char_is_ws(c: char) -> (r: bool)
    ensures
        r == is_ws(c),
{
    let u = c as u32;
    (0x09 <= u && u <= 0x0D) || u == 0x20 || u == 0x85 || u == 0xA0 || u == 0x1680 || (0x2000 <= u
        && u <= 0x200A) || u == 0x2028 || u == 0x2029 || u == 0x202F || u == 0x205F || u == 0x3000
}

/// Tests ASCII white space.
pub fn char_is_ascii_ws(c: char) -> (r: bool)
    ensures
        r == is_ascii_ws(c),
{
    c == ' ' || c == '\t' || c == '\n' || c == '\x0C' || c == '\r'
}

/// Byte width of the UTF-8 encoding of one character.
pub fn char_utf8_width(c: char) -> (r: usize)
    ensures
        r == utf8_width(c),
{
    let u = c as u32;
    if u <= 0x7F {
        1
    } else if u <= 0x7FF {
        2
    } else if u <= 0xFFFF {
        3
    } else {
        4
    }
}

// ---------------------------------------------------------------------------
// Conversions
// ---------------------------------------------------------------------------

/// The characters of a string slice, in order.
pub fn chars_of(s: &str) -> (v: Vec<char>)
    ensures
        v@ == s@,
{
    let mut v: Vec<char> = Vec::new();
    for c in it: s.chars()
        invariant
            v@ == it.seq().take(it.index() as int),
    {
        v.push(c);
    }
    v
}

/// A `String` holding the given characters (`FromIterator<&char>`).
#[verifier::external_body]
pub(crate) fn string_from_chars(v: &[char]) -> (s: String)
    ensures
        s@ == v@,
{
    v.iter().collect()
}

/// Lower-cases every ASCII letter of a character vector.
pub fn lower_vec(s: &[char]) -> (r: Vec<char>)
    ensures
        r@ == lower_seq(s@),
{
    let mut r: Vec<char> = Vec::new();
    let mut i: usize = 0;
    while i < s.len()
        invariant
            i <= s.len(),
            r@ =~= lower_seq(s@).take(i as int),
        decreases s.len() - i,
    {
        let c = to_ascii_lower(s[i]);
        r.push(c);
        i = i + 1;
    }
    r
}

/// Compares a character vector with the characters of a string slice.
pub fn chars_eq_str(v: &[char], lit: &str) -> (r: bool)
    ensures
        r == (v@ == lit@),
{
    let w = chars_of(lit);
    chars_eq(v, &w)
}

/// Compares two character sequences.
pub fn chars_eq(a: &[char], b: &[char]) -> (r: bool)
    ensures
        r == (a@ == b@),
{
    if a.len() != b.len() {
        return false;
    }
    let mut i: usize = 0;
    while i < a.len()
        invariant
            a.len() == b.len(),
            i <= a.len(),
            forall|k: int| 0 <= k < i ==> a@[k] == b@[k],
        decreases a.len() - i,
    {
        if a[i] != b[i] {
            return false;
        }
        i = i + 1;
    }
    assert(a@ =~= b@);
    true
}

/// Copies `s[start..end]`.
pub fn slice_to_vec(s: &[char], start: usize, end: usize) -> (r: Vec<char>)
    requires
        start <= end <= s.len(),
    ensures
        r@ == s@.subrange(start as int, end as int),
{
    let mut r: Vec<char> = Vec::new();
    let mut i: usize = start;
    while i < end
        invariant
            start <= i <= end <= s.len(),
            r@ =~= s@.subrange(start as int, i as int),
        decreases end - i,
    {
        r.push(s[i]);
        i = i + 1;
    }
    r
}

/// Appends the characters of `b` to `a`.
pub fn extend_chars(a: &mut Vec<char>, b: &[char])
    ensures
        final(a)@ == old(a)@ + b@,
{
    let mut i: usize = 0;
    let ghost a0 = a@;
    while i < b.len()
        invariant
            i <= b.len(),
            a@ =~= a0 + b@.take(i as int),
        decreases b.len() - i,
    {
        a.push(b[i]);
        i = i + 1;
    }
    assert(b@.take(b@.len() as int) =~= b@);
}

// ---------------------------------------------------------------------------
// Prefixes, trimming and searching
// ---------------------------------------------------------------------------

/// `p` is a prefix of `s`.
pub open spec fn has_prefix(s: Seq<char>, p: Seq<char>) -> bool {
    p.len() <= s.len() && s.take(p.len() as int) == p
}

/// Tests whether `s` starts with the characters of `lit`.
pub fn starts_with_str(s: &[char], lit: &str) -> (r: bool)
    ensures
        r == has_prefix(s@, lit@),
{
    let p = chars_of(lit);
    if p.len() > s.len() {
        return false;
    }
    let mut i: usize = 0;
    while i < p.len()
        invariant
            p@ == lit@,
            p.len() <= s.len(),
            i <= p.len(),
            forall|k: int| 0 <= k < i ==> s@[k] == p@[k],
        decreases p.len() - i,
    {
        if s[i] != p[i] {
            assert(s@.take(p@.len() as int)[i as int] == s@[i as int]);
            assert(s@.take(p@.len() as int)[i as int] != p@[i as int]);
            return false;
        }
        i = i + 1;
    }
    assert(s@.take(p@.len() as int) =~= p@);
    true
}

/// First index at or after `i` that does not satisfy `is_ws`.
pub open spec fn skip_ws(s: Seq<char>, i: int) -> int
    decreases s.len() - i,
{
    if 0 <= i < s.len() && is_ws(s[i]) {
        skip_ws(s, i + 1)
    } else {
        i
    }
}

/// One past the last index below `j` that does not satisfy `is_ws`.
pub open spec fn skip_ws_back(s: Seq<char>, lo: int, j: int) -> int
    decreases j - lo,
{
    if lo < j && j <= s.len() && is_ws(s[j - 1]) {
        skip_ws_back(s, lo, j - 1)
    } else {
        j
    }
}

pub proof fn lemma_skip_ws_bounds(s: Seq<char>, i: int)
    requires
        0 <= i <= s.len(),
    ensures
        i <= skip_ws(s, i) <= s.len(),
    decreases s.len() - i,
{
    if i < s.len() && is_ws(s[i]) {
        lemma_skip_ws_bounds(s, i + 1);
    }
}

pub proof fn lemma_skip_ws_back_bounds(s: Seq<char>, lo: int, j: int)
    requires
        0 <= lo <= j <= s.len(),
    ensures
        lo <= skip_ws_back(s, lo, j) <= j,
    decreases j - lo,
{
    if lo < j && is_ws(s[j - 1]) {
        lemma_skip_ws_back_bounds(s, lo, j - 1);
    }
}

/// `str::trim`: drops leading and trailing Unicode white space.
pub open spec fn trim(s: Seq<char>) -> Seq<char> {
    let a = skip_ws(s, 0);
    let b = skip_ws_back(s, a, s.len() as int);
    s.subrange(a, b)
}

/// Returns `s` without leading and trailing Unicode white space.
pub fn trim_vec(s: &[char]) -> (r: Vec<char>)
    ensures
        r@ == trim(s@),
{
    let mut a: usize = 0;
    while a < s.len() && char_is_ws(s[a])
        invariant
            a <= s.len(),
            skip_ws(s@, 0) == skip_ws(s@, a as int),
        decreases s.len() - a,
    {
        a = a + 1;
    }
    let mut b: usize = s.len();
    while a < b && char_is_ws(s[b - 1])
        invariant
            a <= b <= s.len(),
            skip_ws_back(s@, a as int, s.len() as int) == skip_ws_back(s@, a as int, b as int),
        decreases b - a,
    {
        b = b - 1;
    }
    slice_to_vec(s, a, b)
}

/// Index of the first occurrence of `c` in `s` at or after `i`, or `s.len()`.
pub open spec fn find_from(s: Seq<char>, c: char, i: int) -> int
    decreases s.len() - i,
{
    if i < 0 || i >= s.len() {
        s.len() as int
    } else if s[i] == c {
        i
    } else {
        find_from(s, c, i + 1)
    }
}

pub proof fn lemma_find_from_bounds(s: Seq<char>, c: char, i: int)
    requires
        0 <= i <= s.len(),
    ensures
        i <= find_from(s, c, i) <= s.len(),
        find_from(s, c, i) < s.len() ==> s[find_from(s, c, i)] == c,
        forall|k: int| i <= k < find_from(s, c, i) ==> s[k] != c,
    decreases s.len() - i,
{
    if i < s.len() && s[i] != c {
        lemma_find_from_bounds(s, c, i + 1);
    }
}

/// Finds the first `c` at or after `i`; returns `s.len()` when there is none.
pub fn find_char_from(s: &[char], c: char, i: usize) -> (r: usize)
    requires
        i <= s.len(),
    ensures
        r == find_from(s@, c, i as int),
        i <= r <= s.len(),
{
    proof {
        lemma_find_from_bounds(s@, c, i as int);
    }
    let mut j: usize = i;
    while j < s.len() && s[j] != c
        invariant
            i <= j <= s.len(),
            find_from(s@, c, i as int) == find_from(s@, c, j as int),
        decreases s.len() - j,
    {
        j = j + 1;
    }
    j
}

// ---------------------------------------------------------------------------
// Splitting
// ---------------------------------------------------------------------------

/// The views of a sequence of character vectors.
pub open spec fn views(v: Seq<Vec<char>>) -> Seq<Seq<char>> {
    Seq::new(v.len(), |i: int| v[i]@)
}

pub proof fn lemma_views_push(v: Seq<Vec<char>>, x: Vec<char>)
    ensures
        views(v.push(x)) == views(v).push(x@),
{
    assert(views(v.push(x)) =~= views(v).push(x@));
}

/// `str::split(sep)`: the pieces between separators, always at least one.
pub open spec fn split_on(s: Seq<char>, sep: char) -> Seq<Seq<char>>
    decreases s.len(),
{
    let k = find_from(s, sep, 0);
    proof {
        lemma_find_from_bounds(s, sep, 0);
    }
    if k >= s.len() {
        seq![s]
    } else {
        seq![s.take(k)] + split_on(s.skip(k + 1), sep)
    }
}

/// Splitting gives at least one piece.
pub proof fn lemma_split_nonempty(s: Seq<char>, sep: char)
    ensures
        split_on(s, sep).len() >= 1,
{
}

/// Splits `s` at every `sep`.
pub fn split_vec(s: &[char], sep: char) -> (r: Vec<Vec<char>>)
    ensures
        views(r@) == split_on(s@, sep),
{
    let mut r: Vec<Vec<char>> = Vec::new();
    let mut i: usize = 0;
    assert(s@.skip(0) =~= s@);
    assert(views(r@) =~= seq![]);
    loop
        invariant
            i <= s.len(),
            split_on(s@, sep) == views(r@) + split_on(s@.skip(i as int), sep),
        decreases s.len() - i,
    {
        let ghost t = s@.skip(i as int);
        let k = find_char_from(s, sep, i);
        proof {
            lemma_find_from_bounds(s@, sep, i as int);
            lemma_find_shift(s@, sep, i as int, i as int);
        }
        let piece = slice_to_vec(s, i, k);
        proof {
            assert(find_from(t, sep, 0) == k - i);
            assert(piece@ =~= t.take(k - i));
            lemma_views_push(r@, piece);
        }
        r.push(piece);
        if k >= s.len() {
            assert(split_on(t, sep) == seq![t.take(k - i)]);
            assert(t.take(k - i) =~= t);
            assert(views(r@) =~= views(r@.drop_last()) + seq![t]);
            return r;
        }
        assert(t.skip(k - i + 1) =~= s@.skip(k + 1));
        assert(views(r@) =~= views(r@.drop_last()) + seq![t.take(k - i)]);
        i = k + 1;
    }
}

/// `find_from` on a suffix corresponds to `find_from` on the whole sequence.
pub proof fn lemma_find_shift(s: Seq<char>, c: char, base: int, i: int)
    requires
        0 <= base <= i <= s.len(),
    ensures
        find_from(s.skip(base), c, i - base) == find_from(s, c, i) - base,
    decreases s.len() - i,
{
    if i < s.len() && s[i] != c {
        lemma_find_shift(s, c, base, i + 1);
    }
}

/// Length of the leading run of characters outside the white-space class.
pub open spec fn token_len(s: Seq<char>, ascii: bool) -> nat
    decreases s.len(),
{
    if s.len() == 0 || (if ascii { is_ascii_ws(s[0]) } else { is_ws(s[0]) }) {
        0
    } else {
        1 + token_len(s.drop_first(), ascii)
    }
}

/// White-space test for the chosen class.
pub open spec fn ws_class(c: char, ascii: bool) -> bool {
    if ascii {
        is_ascii_ws(c)
    } else {
        is_ws(c)
    }
}

/// `str::split_whitespace` (`ascii == false`) and `str::split_ascii_whitespace`
/// (`ascii == true`): the non-empty runs between white space.
pub open spec fn words(s: Seq<char>, ascii: bool) -> Seq<Seq<char>>
    decreases s.len(),
{
    if s.len() == 0 {
        seq![]
    } else if ws_class(s[0], ascii) {
        words(s.drop_first(), ascii)
    } else {
        let n = token_len(s, ascii);
        proof {
            lemma_token_len_bound(s, ascii);
        }
        if n == 0 {
            seq![]
        } else {
            seq![s.take(n as int)] + words(s.skip(n as int), ascii)
        }
    }
}

pub proof fn lemma_token_len_bound(s: Seq<char>, ascii: bool)
    ensures
        token_len(s, ascii) <= s.len(),
        s.len() > 0 && !ws_class(s[0], ascii) ==> token_len(s, ascii) >= 1,
    decreases s.len(),
{
    if s.len() > 0 && !ws_class(s[0], ascii) {
        lemma_token_len_bound(s.drop_first(), ascii);
    }
}

proof fn lemma_token_step(s: Seq<char>, i: int, j: int, ascii: bool)
    requires
        0 <= i <= j < s.len(),
        !ws_class(s[j], ascii),
        token_len(s.skip(i), ascii) == (j - i) + token_len(s.skip(j), ascii),
    ensures
        token_len(s.skip(i), ascii) == (j + 1 - i) + token_len(s.skip(j + 1), ascii),
{
    assert(s.skip(j).drop_first() =~= s.skip(j + 1));
}

/// Splits `s` into its white-space separated words.
pub fn words_vec(s: &[char], ascii: bool) -> (r: Vec<Vec<char>>)
    ensures
        views(r@) == words(s@, ascii),
{
    let mut r: Vec<Vec<char>> = Vec::new();
    let mut i: usize = 0;
    assert(s@.skip(0) =~= s@);
    assert(views(r@) =~= seq![]);
    while i < s.len()
        invariant
            i <= s.len(),
            words(s@, ascii) == views(r@) + words(s@.skip(i as int), ascii),
        decreases s.len() - i,
    {
        if char_in_ws_class(s[i], ascii) {
            assert(s@.skip(i as int).drop_first() =~= s@.skip(i + 1));
            i = i + 1;
        } else {
            let mut j: usize = i;
            while j < s.len() && !char_in_ws_class(s[j], ascii)
                invariant
                    i <= j <= s.len(),
                    token_len(s@.skip(i as int), ascii) == (j - i) + token_len(
                        s@.skip(j as int),
                        ascii,
                    ),
                decreases s.len() - j,
            {
                proof {
                    lemma_token_step(s@, i as int, j as int, ascii);
                }
                j = j + 1;
            }
            proof {
                lemma_token_bound_at_end(s@, j as int, ascii);
                lemma_token_len_bound(s@.skip(i as int), ascii);
            }
            let piece = slice_to_vec(s, i, j);
            let ghost t = s@.skip(i as int);
            proof {
                assert(token_len(t, ascii) == j - i);
                assert(piece@ =~= t.take((j - i) as int));
                assert(t.skip((j - i) as int) =~= s@.skip(j as int));
                lemma_views_push(r@, piece);
            }
            r.push(piece);
            assert(views(r@) =~= views(r@.drop_last()) + seq![piece@]);
            i = j;
        }
    }
    assert(words(s@.skip(i as int), ascii) =~= seq![]);
    assert(views(r@) + seq![] =~= views(r@));
    r
}

proof fn lemma_token_bound_at_end(s: Seq<char>, j: int, ascii: bool)
    requires
        0 <= j <= s.len(),
        j == s.len() || ws_class(s[j], ascii),
    ensures
        token_len(s.skip(j), ascii) == 0,
{
    if j < s.len() {
        assert(s.skip(j)[0] == s[j]);
    }
}

/// Tests the chosen white-space class.
pub fn char_in_ws_class(c: char, ascii: bool) -> (r: bool)
    ensures
        r == ws_class(c, ascii),
{
    if ascii {
        char_is_ascii_ws(c)
    } else {
        char_is_ws(c)
    }
}

/// The lines of a text: the pieces between `'\n'` separators, without an
/// empty piece after a final separator. Carriage returns stay in the pieces.
pub open spec fn raw_lines(s: Seq<char>) -> Seq<Seq<char>>
    decreases s.len(),
{
    if s.len() == 0 {
        seq![]
    } else {
        let k = find_from(s, '\n', 0);
        proof {
            lemma_find_from_bounds(s, '\n', 0);
        }
        if k >= s.len() {
            seq![s]
        } else {
            seq![s.take(k)] + raw_lines(s.skip(k + 1))
        }
    }
}

/// Splits a text into lines (see [`raw_lines`]).
pub fn lines_vec(s: &[char]) -> (r: Vec<Vec<char>>)
    ensures
        views(r@) == raw_lines(s@),
{
    let mut r: Vec<Vec<char>> = Vec::new();
    let mut i: usize = 0;
    assert(s@.skip(0) =~= s@);
    assert(views(r@) =~= seq![]);
    while i < s.len()
        invariant
            i <= s.len(),
            raw_lines(s@) == views(r@) + raw_lines(s@.skip(i as int)),
        decreases s.len() - i,
    {
        let ghost t = s@.skip(i as int);
        let k = find_char_from(s, '\n', i);
        proof {
            lemma_find_from_bounds(s@, '\n', i as int);
            lemma_find_shift(s@, '\n', i as int, i as int);
        }
        let piece = slice_to_vec(s, i, k);
        proof {
            assert(find_from(t, '\n', 0) == k - i);
            assert(piece@ =~= t.take(k - i));
            lemma_views_push(r@, piece);
        }
        r.push(piece);
        if k >= s.len() {
            assert(raw_lines(t) == seq![t.take(k - i)]);
            assert(t.take(k - i) =~= t);
            assert(views(r@) =~= views(r@.drop_last()) + seq![t]);
            assert(raw_lines(s@.skip(s.len() as int)) =~= seq![]);
            assert(views(r@) + seq![] =~= views(r@));
            return r;
        }
        assert(t.skip(k - i + 1) =~= s@.skip(k + 1));
        assert(views(r@) =~= views(r@.drop_last()) + seq![t.take(k - i)]);
        i = k + 1;
    }
    assert(raw_lines(s@.skip(i as int)) =~= seq![]);
    assert(views(r@) + seq![] =~= views(r@));
    r
}

/// Whether `p` occurs in `s` at position `i`.
pub open spec fn occurs_at(s: Seq<char>, p: Seq<char>, i: int) -> bool {
    0 <= i && i + p.len() <= s.len() && s.subrange(i, i + p.len()) == p
}

/// Whether `p` occurs in `s`.
pub open spec fn contains_seq(s: Seq<char>, p: Seq<char>) -> bool {
    exists|i: int| #[trigger] occurs_at(s, p, i)
}

fn matches_at(s: &[char], p: &[char], i: usize) -> (r: bool)
    requires
        i + p@.len() <= s@.len(),
    ensures
        r == occurs_at(s@, p@, i as int),
{
    let m = p.len();
    let n = s.len();
    let mut k: usize = 0;
    while k < m
        invariant
            m == p@.len(),
            n == s@.len(),
            i + m <= s@.len(),
            k <= m,
            forall|j: int| 0 <= j < k ==> s@[i + j] == p@[j],
        decreases m - k,
    {
        if s[i + k] != p[k] {
            assert(s@.subrange(i as int, i + m)[k as int] != p@[k as int]);
            return false;
        }
        k = k + 1;
    }
    assert(s@.subrange(i as int, i + m) =~= p@);
    true
}

/// Whether `p` occurs in `s` (see [`contains_seq`]).
pub fn chars_contain(s: &[char], p: &[char]) -> (r: bool)
    ensures
        r == contains_seq(s@, p@),
{
    let n = s.len();
    let m = p.len();
    if m > n {
        assert forall|i: int| !occurs_at(s@, p@, i) by {}
        return false;
    }
    let last: usize = n - m;
    let mut i: usize = 0;
    while i < last
        invariant
            n == s@.len(),
            m == p@.len(),
            m <= n,
            last == n - m,
            i <= last,
            forall|j: int| 0 <= j < i ==> !#[trigger] occurs_at(s@, p@, j),
        decreases last - i,
    {
        if matches_at(s, p, i) {
            return true;
        }
        i = i + 1;
    }
    if matches_at(s, p, last) {
        return true;
    }
    assert forall|j: int| !#[trigger] occurs_at(s@, p@, j) by {}
    false
}

} // verus!
