//! Integer parsing with the semantics of the standard `FromStr` and
//! `from_str_radix` for primitive integers, and decimal rendering.

use vstd::prelude::*;

verus! {

/// Value of `c` as a digit in `radix` (10 or 16), if it is one.
pub open spec fn digit_value(c: char, radix: nat) -> Option<int> {
    if '0' <= c && c <= '9' && (c as int) - ('0' as int) < radix {
        Some((c as int) - ('0' as int))
    } else if radix == 16 && 'a' <= c && c <= 'f' {
        Some((c as int) - ('a' as int) + 10)
    } else if radix == 16 && 'A' <= c && c <= 'F' {
        Some((c as int) - ('A' as int) + 10)
    } else {
        None
    }
}

/// Why a string is not an integer of a given type: the kinds that the
/// standard integer parser reports.
#[derive(Clone, Copy, Debug, PartialEq, Eq, Structural)]
pub enum IntErrorKind {
    Empty,
    InvalidDigit,
    PosOverflow,
    NegOverflow,
}

/// Reads `d` digit by digit from the left, starting from `acc`, adding (or,
/// for a negative number, subtracting) each digit after multiplying by the
/// radix; the first character that is no digit, or the first step that
/// leaves `[lo, hi]`, ends the scan with that error.
pub open spec fn scan_digits(d: Seq<char>, radix: nat, neg: bool, lo: int, hi: int, acc: int) -> Result<int, IntErrorKind>
    decreases d.len(),
{
    if d.len() == 0 {
        Ok(acc)
    } else {
        match digit_value(d[0], radix) {
            None => Err(IntErrorKind::InvalidDigit),
            Some(x) => {
                let v = if neg {
                    acc * radix - x
                } else {
                    acc * radix + x
                };
                if v < lo {
                    Err(IntErrorKind::NegOverflow)
                } else if v > hi {
                    Err(IntErrorKind::PosOverflow)
                } else {
                    scan_digits(d.drop_first(), radix, neg, lo, hi, v)
                }
            },
        }
    }
}

/// A successful scan ends inside `[lo, hi]`.
pub proof fn lemma_scan_range(d: Seq<char>, radix: nat, neg: bool, lo: int, hi: int, acc: int)
    requires
        lo <= acc <= hi,
    ensures
        scan_digits(d, radix, neg, lo, hi, acc) matches Ok(v) ==> lo <= v <= hi,
    decreases d.len(),
{
    if d.len() > 0 {
        if let Some(x) = digit_value(d[0], radix) {
            let v = if neg {
                acc * radix - x
            } else {
                acc * radix + x
            };
            if lo <= v <= hi {
                lemma_scan_range(d.drop_first(), radix, neg, lo, hi, v);
            }
        }
    }
}

/// A successful parse lies inside `[lo, hi]`.
pub proof fn lemma_parse_range(s: Seq<char>, radix: nat, signed: bool, lo: int, hi: int)
    requires
        lo <= 0 <= hi,
    ensures
        parse_int_result(s, radix, signed, lo, hi) matches Ok(v) ==> lo <= v <= hi,
{
    if s.len() > 0 {
        let neg = signed && s[0] == '-';
        let digits = if s[0] == '+' || neg {
            s.drop_first()
        } else {
            s
        };
        lemma_scan_range(digits, radix, neg, lo, hi, 0);
    }
}

/// Parsing a primitive integer type whose range is `[lo, hi]`, as the
/// standard `FromStr` and `from_str_radix` do: an optional sign (`-` only
/// for signed types; a sign alone is an invalid digit), then digits.
pub open spec fn parse_int_result(s: Seq<char>, radix: nat, signed: bool, lo: int, hi: int) -> Result<int, IntErrorKind> {
    if s.len() == 0 {
        Err(IntErrorKind::Empty)
    } else if s.len() == 1 && (s[0] == '+' || s[0] == '-') {
        Err(IntErrorKind::InvalidDigit)
    } else {
        let neg = signed && s[0] == '-';
        let digits = if s[0] == '+' || neg {
            s.drop_first()
        } else {
            s
        };
        scan_digits(digits, radix, neg, lo, hi, 0)
    }
}

/// The value of a successful parse (see [`parse_int_result`]).
pub open spec fn parse_int(s: Seq<char>, radix: nat, signed: bool, lo: int, hi: int) -> Option<int> {
    match parse_int_result(s, radix, signed, lo, hi) {
        Ok(v) => Some(v),
        Err(_) => None,
    }
}

/// `str::parse::<u16>`.
pub open spec fn parse_u16(s: Seq<char>) -> Result<int, IntErrorKind> {
    parse_int_result(s, 10, false, 0, 0xFFFF)
}

/// `str::parse::<i16>`.
pub open spec fn parse_i16(s: Seq<char>) -> Result<int, IntErrorKind> {
    parse_int_result(s, 10, true, -0x8000, 0x7FFF)
}

/// `str::parse::<i64>`.
pub open spec fn parse_i64(s: Seq<char>) -> Result<int, IntErrorKind> {
    parse_int_result(s, 10, true, -0x8000_0000_0000_0000, 0x7FFF_FFFF_FFFF_FFFF)
}

/// `str::parse::<u32>`.
pub open spec fn parse_u32(s: Seq<char>) -> Result<int, IntErrorKind> {
    parse_int_result(s, 10, false, 0, 0xFFFF_FFFF)
}

/// `u8::from_str_radix(s, 16)`.
pub open spec fn parse_hex_u8(s: Seq<char>) -> Result<int, IntErrorKind> {
    parse_int_result(s, 16, false, 0, 0xFF)
}

/// The message that the standard parse error displays for each kind.
pub open spec fn int_error_text(k: IntErrorKind) -> Seq<char> {
    match k {
        IntErrorKind::Empty => "cannot parse integer from empty string"@,
        IntErrorKind::InvalidDigit => "invalid digit found in string"@,
        IntErrorKind::PosOverflow => "number too large to fit in target type"@,
        IntErrorKind::NegOverflow => "number too small to fit in target type"@,
    }
}

/// The message of an integer parse error (see [`int_error_text`]).
pub fn int_error_message(k: IntErrorKind) -> (r: &'static str)
    ensures
        r@ == int_error_text(k),
{
    match k {
        IntErrorKind::Empty => "cannot parse integer from empty string",
        IntErrorKind::InvalidDigit => "invalid digit found in string",
        IntErrorKind::PosOverflow => "number too large to fit in target type",
        IntErrorKind::NegOverflow => "number too small to fit in target type",
    }
}

/// Exec digit test.
pub fn char_digit_value(c: char, radix: u32) -> (r: Option<u32>)
    requires
        radix == 10 || radix == 16,
    ensures
        match digit_value(c, radix as nat) {
            Some(v) => r == Some(v as u32),
            None => r is None,
        },
        r matches Some(v) ==> v < radix,
{
    if '0' <= c && c <= '9' && (c as u32) - ('0' as u32) < radix {
        Some((c as u32) - ('0' as u32))
    } else if radix == 16 && 'a' <= c && c <= 'f' {
        Some((c as u32) - ('a' as u32) + 10)
    } else if radix == 16 && 'A' <= c && c <= 'F' {
        Some((c as u32) - ('A' as u32) + 10)
    } else {
        None
    }
}

/// Parses `s` as a primitive integer in `[lo, hi]` (see [`parse_int_result`]).
pub fn parse_int_chars(s: &[char], radix: u32, signed: bool, lo: i64, hi: i64) -> (r: Result<i64, IntErrorKind>)
    requires
        radix == 10 || radix == 16,
        lo <= 0 <= hi,
    ensures
        match parse_int_result(s@, radix as nat, signed, lo as int, hi as int) {
            Ok(v) => r == Ok::<i64, IntErrorKind>(v as i64),
            Err(k) => r == Err::<i64, IntErrorKind>(k),
        },
{
    if s.len() == 0 {
        return Err(IntErrorKind::Empty);
    }
    if s.len() == 1 && (s[0] == '+' || s[0] == '-') {
        return Err(IntErrorKind::InvalidDigit);
    }
    let neg = signed && s[0] == '-';
    let start: usize = if s[0] == '+' || neg {
        1
    } else {
        0
    };
    assert(s@.skip(1) =~= s@.drop_first());
    assert(s@.skip(0) =~= s@);
    let ghost full = parse_int_result(s@, radix as nat, signed, lo as int, hi as int);
    proof {
        lemma_parse_range(s@, radix as nat, signed, lo as int, hi as int);
    }
    let mut acc: i64 = 0;
    let mut i: usize = start;
    while i < s.len()
        invariant
            radix == 10 || radix == 16,
            lo <= acc <= hi,
            start <= i <= s.len(),
            full == scan_digits(s@.skip(i as int), radix as nat, neg, lo as int, hi as int, acc as int),
            full == parse_int_result(s@, radix as nat, signed, lo as int, hi as int),
        decreases s.len() - i,
    {
        let ghost t = s@.skip(i as int);
        assert(t[0] == s@[i as int]);
        assert(t.drop_first() =~= s@.skip(i + 1));
        match char_digit_value(s[i], radix) {
            None => {
                return Err(IntErrorKind::InvalidDigit);
            },
            Some(d) => {
                assert(-0x8000_0000_0000_0000 * 16 <= (acc as int) * (radix as int) <= 0x7FFF_FFFF_FFFF_FFFF * 16) by (nonlinear_arith)
                    requires
                        -0x8000_0000_0000_0000 <= acc <= 0x7FFF_FFFF_FFFF_FFFF,
                        0 < radix <= 16,
                ;
                let m: i128 = (acc as i128) * (radix as i128);
                let v: i128 = if neg {
                    m - (d as i128)
                } else {
                    m + (d as i128)
                };
                if v < lo as i128 {
                    return Err(IntErrorKind::NegOverflow);
                } else if v > hi as i128 {
                    return Err(IntErrorKind::PosOverflow);
                }
                acc = v as i64;
                i = i + 1;
            },
        }
    }
    assert(s@.skip(i as int).len() == 0);
    Ok(acc)
}

// ---------------------------------------------------------------------------
// Decimal rendering
// ---------------------------------------------------------------------------

/// The decimal digits of `n` (no sign, no leading zeros; `"0"` for zero).
pub open spec fn decimal(n: nat) -> Seq<char>
    decreases n,
{
    if n < 10 {
        seq![(('0' as nat) + n) as char]
    } else {
        decimal(n / 10).push((('0' as nat) + n % 10) as char)
    }
}

/// Appends the decimal digits of `n` to `out`.
pub fn push_decimal(out: &mut Vec<char>, n: u64)
    ensures
        final(out)@ == old(out)@ + decimal(n as nat),
    decreases n,
{
    if n < 10 {
        out.push(digit_char(n));
    } else {
        push_decimal(out, n / 10);
        out.push(digit_char(n % 10));
    }
}

/// The ASCII digit for `d < 10`.
fn digit_char(d: u64) -> (c: char)
    requires
        d < 10,
    ensures
        c == (('0' as nat) + d) as char,
{
    ((d as u8) + 48) as char
}

} // verus!
