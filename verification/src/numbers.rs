//! Numeric text validation: the integer grammar used for catalog ids and
//! the floating-point grammar used for every ephemeris field.
//!
//! The decoders in this crate keep numeric payloads as their exact decimal
//! text, so what must be decided here is which texts denote numbers. The
//! grammars follow the documented behaviour of `i32::from_str` and
//! `f32::from_str`: an integer is an optional sign followed by decimal
//! digits; a float is an optional sign followed by a decimal significand
//! with optional exponent, or a case-insensitive `inf`, `infinity` or `nan`.

use vstd::prelude::*;

verus! {

use vstd::string::StrSliceExecFns;

/// `c` is a decimal digit.
pub open spec fn is_digit(c: char) -> bool {
    48 <= c as int <= 57
}

/// The numeric value of the digit `c`.
pub open spec fn digit_value(c: char) -> int {
    c as int - 48
}

/// Every character of `s` is a decimal digit.
pub open spec fn all_digits(s: Seq<char>) -> bool {
    forall|i: int| 0 <= i < s.len() ==> is_digit(s[i])
}

/// The value of a string of digits read in base ten.
pub open spec fn digits_value(s: Seq<char>) -> int
    decreases s.len(),
{
    if s.len() == 0 {
        0
    } else {
        digits_value(s.drop_last()) * 10 + digit_value(s.last())
    }
}

/// Length of the sign prefix: 1 when `s` opens with `+` or `-`, else 0.
pub open spec fn sign_len(s: Seq<char>) -> int {
    if s.len() > 0 && (s[0] == '+' || s[0] == '-') {
        1
    } else {
        0
    }
}

/// `s` is an integer literal: an optional sign followed by one or more
/// decimal digits, as `i32::from_str` accepts.
pub open spec fn is_int_literal(s: Seq<char>) -> bool {
    let body = s.skip(sign_len(s));
    body.len() > 0 && all_digits(body)
}

/// The integer an integer literal denotes.
pub open spec fn int_literal_value(s: Seq<char>) -> int {
    let v = digits_value(s.skip(sign_len(s)));
    if s.len() > 0 && s[0] == '-' {
        -v
    } else {
        v
    }
}

/// Why a piece of text failed to parse as an integer.
#[derive(Debug, PartialEq, Eq, Structural, Clone, Copy)]
pub enum IntParseError {
    /// The text was empty.
    Empty,
    /// A character other than a decimal digit stood where digits belong,
    /// or nothing followed the sign.
    InvalidDigit,
    /// The denoted value exceeds `i32::MAX`.
    PosOverflow,
    /// The denoted value is below `i32::MIN`.
    NegOverflow,
}

pub(crate) fn is_digit_char(c: char) -> (b: bool)
    ensures
        b == is_digit(c),
{
    let u = c as u32;
    48 <= u && u <= 57
}

proof fn lemma_digits_value_bounds(s: Seq<char>)
    requires
        all_digits(s),
    ensures
        digits_value(s) >= 0,
    decreases s.len(),
{
    if s.len() > 0 {
        assert(all_digits(s.drop_last()));
        lemma_digits_value_bounds(s.drop_last());
    }
}

proof fn lemma_digits_value_mono(s: Seq<char>, k: int)
    requires
        all_digits(s),
        0 <= k <= s.len(),
    ensures
        digits_value(s) >= digits_value(s.take(k)),
    decreases s.len(),
{
    if k < s.len() {
        assert(s.drop_last().take(k) =~= s.take(k));
        assert(all_digits(s.drop_last()));
        lemma_digits_value_mono(s.drop_last(), k);
        lemma_digits_value_bounds(s.drop_last());
    } else {
        assert(s.take(k) =~= s);
    }
}

/// What parsing `s` as an `i32` yields: the value, or the error the text
/// deserves.
pub open spec fn int_parse_result(s: Seq<char>) -> Result<int, IntParseError> {
    if s.len() == 0 {
        Err(IntParseError::Empty)
    } else if !is_int_literal(s) {
        Err(IntParseError::InvalidDigit)
    } else if int_literal_value(s) > i32::MAX {
        Err(IntParseError::PosOverflow)
    } else if int_literal_value(s) < i32::MIN {
        Err(IntParseError::NegOverflow)
    } else {
        Ok(int_literal_value(s))
    }
}

/// Parses `s` as a signed 32-bit integer, with the grammar and range
/// checks of `i32::from_str` and a typed error for each way to fail.
pub fn parse_i32(s: &str) -> (r: Result<i32, IntParseError>)
    ensures
        match r {
            Ok(v) => int_parse_result(s@) == Ok::<int, IntParseError>(v as int),
            Err(e) => int_parse_result(s@) == Err::<int, IntParseError>(e),
        },
        match r {
            Ok(v) => is_int_literal(s@) && i32::MIN <= int_literal_value(s@) <= i32::MAX
                && v as int == int_literal_value(s@),
            Err(IntParseError::Empty) => s@.len() == 0,
            Err(IntParseError::InvalidDigit) => s@.len() > 0 && !is_int_literal(s@),
            Err(IntParseError::PosOverflow) => is_int_literal(s@) && int_literal_value(s@)
                > i32::MAX,
            Err(IntParseError::NegOverflow) => is_int_literal(s@) && int_literal_value(s@)
                < i32::MIN,
        },
{
    let len = s.unicode_len();
    if len == 0 {
        return Err(IntParseError::Empty);
    }
    let c0 = s.get_char(0);
    let neg = c0 == '-';
    let ds: usize = if c0 == '-' || c0 == '+' {
        1
    } else {
        0
    };
    if ds == len {
        return Err(IntParseError::InvalidDigit);
    }
    let ghost body = s@.skip(ds as int);
    proof {
        assert(ds as int == sign_len(s@));
    }
    let mut i: usize = ds;
    while i < len
        invariant
            ds <= i <= len,
            len == s@.len(),
            ds as int == sign_len(s@),
            body == s@.skip(ds as int),
            forall|j: int| ds <= j < i ==> is_digit(s@[j]),
        decreases len - i,
    {
        if !is_digit_char(s.get_char(i)) {
            proof {
                assert(body[i - ds] == s@[i as int]);
            }
            return Err(IntParseError::InvalidDigit);
        }
        i += 1;
    }
    proof {
        assert(forall|j: int| 0 <= j < body.len() ==> is_digit(#[trigger] body[j]));
    }
    let bound: u64 = if neg {
        2147483648
    } else {
        2147483647
    };
    let mut mag: u64 = 0;
    i = ds;
    while i < len
        invariant
            ds <= i <= len,
            ds < len,
            0 < len == s@.len(),
            ds as int == sign_len(s@),
            neg == (s@[0] == '-'),
            body == s@.skip(ds as int),
            all_digits(body),
            neg ==> bound == 2147483648,
            !neg ==> bound == 2147483647,
            mag <= bound,
            mag == digits_value(s@.subrange(ds as int, i as int)),
        decreases len - i,
    {
        let c = s.get_char(i);
        proof {
            assert(body[i - ds] == s@[i as int]);
            assert(is_digit(s@[i as int]));
        }
        let d = (c as u32) - 48;
        mag = mag * 10 + (d as u64);
        proof {
            let prev = s@.subrange(ds as int, i as int);
            let cur = s@.subrange(ds as int, i + 1);
            assert(cur.drop_last() =~= prev);
            assert(cur.last() == s@[i as int]);
        }
        i += 1;
        if mag > bound {
            proof {
                assert(body.take(i - ds) =~= s@.subrange(ds as int, i as int));
                lemma_digits_value_mono(body, i - ds);
                assert(body =~= s@.skip(sign_len(s@)));
            }
            if neg {
                return Err(IntParseError::NegOverflow);
            } else {
                return Err(IntParseError::PosOverflow);
            }
        }
    }
    proof {
        assert(s@.subrange(ds as int, len as int) =~= body);
        assert(body =~= s@.skip(sign_len(s@)));
    }
    if neg {
        if mag == 2147483648 {
            Ok(i32::MIN)
        } else {
            Ok(-(mag as i32))
        }
    } else {
        Ok(mag as i32)
    }
}

/// Length of the leading run of decimal digits.
pub open spec fn digit_run_len(s: Seq<char>) -> int
    decreases s.len(),
{
    if s.len() > 0 && is_digit(s[0]) {
        1 + digit_run_len(s.skip(1))
    } else {
        0
    }
}

proof fn lemma_digit_run_len_facts(s: Seq<char>)
    ensures
        0 <= digit_run_len(s) <= s.len(),
        forall|j: int| 0 <= j < digit_run_len(s) ==> is_digit(s[j]),
        digit_run_len(s) < s.len() ==> !is_digit(s[digit_run_len(s)]),
    decreases s.len(),
{
    if s.len() > 0 && is_digit(s[0]) {
        lemma_digit_run_len_facts(s.skip(1));
        assert forall|j: int| 0 <= j < digit_run_len(s) implies is_digit(s[j]) by {
            if j > 0 {
                assert(is_digit(s.skip(1)[j - 1]));
            }
        }
        if digit_run_len(s) < s.len() {
            assert(!is_digit(s.skip(1)[digit_run_len(s) - 1]));
        }
    }
}

proof fn lemma_digit_run_len_charact(s: Seq<char>, k: int)
    requires
        0 <= k <= s.len(),
        forall|j: int| 0 <= j < k ==> is_digit(s[j]),
        k == s.len() || !is_digit(s[k]),
    ensures
        digit_run_len(s) == k,
    decreases s.len(),
{
    if k > 0 {
        assert(forall|j: int| 0 <= j < k - 1 ==> is_digit(#[trigger] s.skip(1)[j]));
        lemma_digit_run_len_charact(s.skip(1), k - 1);
    }
}

/// `s` is a case-insensitive `inf`, `infinity` or `nan`.
pub open spec fn is_special_body(s: Seq<char>) -> bool {
    let inf = seq!['i', 'n', 'f'];
    let infinity = seq!['i', 'n', 'f', 'i', 'n', 'i', 't', 'y'];
    let nan = seq!['n', 'a', 'n'];
    eq_ignore_case(s, inf) || eq_ignore_case(s, infinity) || eq_ignore_case(s, nan)
}

/// `c` equals the lower-case letter `l`, ignoring case.
pub open spec fn eq_ci(c: char, l: char) -> bool {
    c == l || c as int + 32 == l as int
}

/// `s` equals the lower-case word `w`, ignoring case.
pub open spec fn eq_ignore_case(s: Seq<char>, w: Seq<char>) -> bool {
    s.len() == w.len() && forall|i: int| 0 <= i < s.len() ==> eq_ci(s[i], w[i])
}

/// The exponent part of a float literal: `e` or `E`, an optional sign, and
/// one or more digits reaching the end of `s`.
pub open spec fn is_exponent(s: Seq<char>) -> bool {
    s.len() > 0 && (s[0] == 'e' || s[0] == 'E') && {
        let t = s.skip(1);
        let u = t.skip(sign_len(t));
        u.len() > 0 && all_digits(u)
    }
}

/// The unsigned part of a float literal: digits with an optional point,
/// at least one digit in all, then an optional exponent.
pub open spec fn is_number_body(s: Seq<char>) -> bool {
    let d1 = digit_run_len(s);
    let rest = s.skip(d1);
    if rest.len() == 0 {
        d1 > 0
    } else if rest[0] == '.' {
        let frac = rest.skip(1);
        let d2 = digit_run_len(frac);
        let rest2 = frac.skip(d2);
        (d1 > 0 || d2 > 0) && (rest2.len() == 0 || is_exponent(rest2))
    } else {
        d1 > 0 && is_exponent(rest)
    }
}

/// `s` is a floating-point literal as `f32::from_str` accepts: an optional
/// sign, then either a special word (`inf`, `infinity`, `nan`, any case) or
/// a decimal significand with an optional exponent.
pub open spec fn is_float_literal(s: Seq<char>) -> bool {
    let body = s.skip(sign_len(s));
    is_special_body(body) || is_number_body(body)
}

pub(crate) fn eq_ci_char(c: char, l: char) -> (b: bool)
    ensures
        b == eq_ci(c, l),
{
    c == l || (c as u32) + 32 == (l as u32)
}

/// First index at or after `from` that does not hold a digit.
fn digit_run_end(s: &str, from: usize, len: usize) -> (end: usize)
    requires
        from <= len,
        len == s@.len(),
    ensures
        from <= end <= len,
        end - from == digit_run_len(s@.skip(from as int)),
{
    let mut end = from;
    while end < len && is_digit_char(s.get_char(end))
        invariant
            from <= end <= len,
            len == s@.len(),
            forall|j: int| from <= j < end ==> is_digit(s@[j]),
        decreases len - end,
    {
        end += 1;
    }
    proof {
        let t = s@.skip(from as int);
        assert(forall|j: int| 0 <= j < end - from ==> is_digit(#[trigger] t[j]));
        if end < len {
            assert(t[end - from] == s@[end as int]);
        }
        lemma_digit_run_len_charact(t, end - from);
    }
    end
}

/// Decides [`is_exponent`] for the suffix of `s` starting at `i`.
fn is_exponent_at(s: &str, i: usize, len: usize) -> (b: bool)
    requires
        i < len,
        len == s@.len(),
    ensures
        b == is_exponent(s@.skip(i as int)),
{
    let ghost whole = s@.skip(i as int);
    let c = s.get_char(i);
    if c != 'e' && c != 'E' {
        return false;
    }
    let mut j = i + 1;
    proof {
        assert(whole.skip(1) =~= s@.skip(i + 1));
    }
    if j < len {
        let cs = s.get_char(j);
        if cs == '+' || cs == '-' {
            j += 1;
        }
    }
    proof {
        let t = whole.skip(1);
        assert(t.skip(sign_len(t)) =~= s@.skip(j as int));
    }
    let dend = digit_run_end(s, j, len);
    proof {
        let u = s@.skip(j as int);
        lemma_digit_run_len_facts(u);
        if dend == len && dend > j {
            assert(digit_run_len(u) == u.len());
            assert(all_digits(u));
        }
        if dend < len {
            assert(!is_digit(u[dend - j]));
        }
    }
    dend > j && dend == len
}

/// Decides whether `s` is numeric text: [`is_float_literal`].
pub fn is_float_text(s: &str) -> (b: bool)
    ensures
        b == is_float_literal(s@),
{
    let len = s.unicode_len();
    let mut start: usize = 0;
    if len > 0 {
        let c0 = s.get_char(0);
        if c0 == '+' || c0 == '-' {
            start = 1;
        }
    }
    let ghost body = s@.skip(start as int);
    proof {
        assert(start as int == sign_len(s@));
    }
    // A special word?
    let blen = len - start;
    if blen == 3 || blen == 8 {
        let mut special = false;
        if blen == 3 {
            let a0 = s.get_char(start);
            let a1 = s.get_char(start + 1);
            let a2 = s.get_char(start + 2);
            special = (eq_ci_char(a0, 'i') && eq_ci_char(a1, 'n') && eq_ci_char(a2, 'f')) || (
            eq_ci_char(a0, 'n') && eq_ci_char(a1, 'a') && eq_ci_char(a2, 'n'));
        } else {
            let a0 = s.get_char(start);
            let a1 = s.get_char(start + 1);
            let a2 = s.get_char(start + 2);
            let a3 = s.get_char(start + 3);
            let a4 = s.get_char(start + 4);
            let a5 = s.get_char(start + 5);
            let a6 = s.get_char(start + 6);
            let a7 = s.get_char(start + 7);
            special = eq_ci_char(a0, 'i') && eq_ci_char(a1, 'n') && eq_ci_char(a2, 'f')
                && eq_ci_char(a3, 'i') && eq_ci_char(a4, 'n') && eq_ci_char(a5, 'i') && eq_ci_char(
                a6,
                't',
            ) && eq_ci_char(a7, 'y');
        }
        proof {
            assert(forall|j: int| 0 <= j < body.len() ==> body[j] == s@[start + j]);
        }
        if special {
            proof {
                assert(is_special_body(body));
            }
            return true;
        }
    }
    proof {
        if is_special_body(body) {
            assert(body.len() == 3 || body.len() == 8);
            assert(forall|j: int| 0 <= j < body.len() ==> body[j] == s@[start + j]);
        }
    }
    // Otherwise a number body.
    let d1end = digit_run_end(s, start, len);
    proof {
        assert(body == s@.skip(start as int));
    }
    if d1end == len {
        proof {
            assert(body.skip(d1end - start) =~= s@.skip(d1end as int));
        }
        return d1end > start;
    }
    let ghost rest = body.skip(d1end - start);
    proof {
        assert(rest =~= s@.skip(d1end as int));
        assert(rest[0] == s@[d1end as int]);
    }
    let c = s.get_char(d1end);
    if c == '.' {
        let fracstart = d1end + 1;
        proof {
            assert(rest.skip(1) =~= s@.skip(fracstart as int));
        }
        let d2end = digit_run_end(s, fracstart, len);
        let ghost frac = rest.skip(1);
        let ghost rest2 = frac.skip(d2end - fracstart);
        proof {
            assert(rest2 =~= s@.skip(d2end as int));
        }
        if d2end == len {
            d1end > start || d2end > fracstart
        } else {
            let has_digits = d1end > start || d2end > fracstart;
            if !has_digits {
                return false;
            }
            is_exponent_at(s, d2end, len)
        }
    } else {
        if d1end == start {
            return false;
        }
        is_exponent_at(s, d1end, len)
    }
}

} // verus!
