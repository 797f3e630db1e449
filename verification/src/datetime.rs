//! Calendar timestamps and the decoder that extracts one from the
//! Julian-day annotation line of an ephemeris record.
//!
//! Such a line reads `2457677.000000000 = A.D. 2016-Oct-15 12:00:00.0000 TDB`:
//! a Julian day number, `=`, and a calendar rendering. The decoder takes the
//! text after the first `=`, strips the `A.D. ` prefix, keeps exactly the
//! next 20 characters (the service appends a fractional-second and timezone
//! suffix of variable width that is discarded) and reads them as
//! `YYYY-Mon-DD HH:MM:SS`. The service reports Barycentric Dynamical Time;
//! no timezone correction is applied here, which may leave a sub-minute
//! offset for downstream consumers to judge.

use vstd::prelude::*;

verus! {

use vstd::string::StrSliceExecFns;
use crate::numbers::digit_value;
use crate::numbers::eq_ci;
use crate::numbers::is_digit;
use crate::numbers::eq_ci_char;
use crate::numbers::is_digit_char;
use crate::text::find_char;
use crate::text::starts_with;
use crate::text::trimmed;
use crate::utilities::take_expecting;
use crate::utilities::take_or_empty;

/// A calendar timestamp, second precision, no timezone attached.
#[derive(Debug, PartialEq, Eq, Structural, Clone, Copy)]
pub struct DateTime {
    /// Four-digit year.
    pub year: u32,
    /// Month, 1 through 12.
    pub month: u32,
    /// Day of month, 1 through the month's length.
    pub day: u32,
    /// Hour, 0 through 23.
    pub hour: u32,
    /// Minute, 0 through 59.
    pub minute: u32,
    /// Second, 0 through 59.
    pub second: u32,
}

/// The Gregorian leap-year rule.
pub open spec fn is_leap_year(y: int) -> bool {
    y % 4 == 0 && (y % 100 != 0 || y % 400 == 0)
}

/// Number of days in the given month of the given year.
pub open spec fn days_in_month(y: int, m: int) -> int {
    if m == 2 {
        if is_leap_year(y) {
            29
        } else {
            28
        }
    } else if m == 4 || m == 6 || m == 9 || m == 11 {
        30
    } else {
        31
    }
}

/// The timestamp denotes a real calendar moment.
pub open spec fn dt_valid(dt: DateTime) -> bool {
    dt.year <= 9999 && 1 <= dt.month <= 12 && 1 <= dt.day && dt.day <= days_in_month(
        dt.year as int,
        dt.month as int,
    ) && dt.hour < 24 && dt.minute < 60 && dt.second < 60
}

/// Month number of a three-letter English abbreviation, ignoring case;
/// 0 when the letters name no month.
pub open spec fn month_number(c0: char, c1: char, c2: char) -> int {
    if eq_ci(c0, 'j') && eq_ci(c1, 'a') && eq_ci(c2, 'n') {
        1
    } else if eq_ci(c0, 'f') && eq_ci(c1, 'e') && eq_ci(c2, 'b') {
        2
    } else if eq_ci(c0, 'm') && eq_ci(c1, 'a') && eq_ci(c2, 'r') {
        3
    } else if eq_ci(c0, 'a') && eq_ci(c1, 'p') && eq_ci(c2, 'r') {
        4
    } else if eq_ci(c0, 'm') && eq_ci(c1, 'a') && eq_ci(c2, 'y') {
        5
    } else if eq_ci(c0, 'j') && eq_ci(c1, 'u') && eq_ci(c2, 'n') {
        6
    } else if eq_ci(c0, 'j') && eq_ci(c1, 'u') && eq_ci(c2, 'l') {
        7
    } else if eq_ci(c0, 'a') && eq_ci(c1, 'u') && eq_ci(c2, 'g') {
        8
    } else if eq_ci(c0, 's') && eq_ci(c1, 'e') && eq_ci(c2, 'p') {
        9
    } else if eq_ci(c0, 'o') && eq_ci(c1, 'c') && eq_ci(c2, 't') {
        10
    } else if eq_ci(c0, 'n') && eq_ci(c1, 'o') && eq_ci(c2, 'v') {
        11
    } else if eq_ci(c0, 'd') && eq_ci(c1, 'e') && eq_ci(c2, 'c') {
        12
    } else {
        0
    }
}

/// Reads a 20-character `YYYY-Mon-DD HH:MM:SS` window: `None` unless the
/// window has exactly that shape and denotes a real calendar moment.
pub open spec fn spec_parse_calendar(s: Seq<char>) -> Option<DateTime> {
    if s.len() == 20 && is_digit(s[0]) && is_digit(s[1]) && is_digit(s[2]) && is_digit(s[3]) && s[4]
        == '-' && s[8] == '-' && s[11] == ' ' && s[14] == ':' && s[17] == ':' && is_digit(s[9])
        && is_digit(s[10]) && is_digit(s[12]) && is_digit(s[13]) && is_digit(s[15]) && is_digit(
        s[16],
    ) && is_digit(s[18]) && is_digit(s[19]) && month_number(s[5], s[6], s[7]) != 0 {
        let dt = DateTime {
            year: (digit_value(s[0]) * 1000 + digit_value(s[1]) * 100 + digit_value(s[2]) * 10
                + digit_value(s[3])) as u32,
            month: month_number(s[5], s[6], s[7]) as u32,
            day: (digit_value(s[9]) * 10 + digit_value(s[10])) as u32,
            hour: (digit_value(s[12]) * 10 + digit_value(s[13])) as u32,
            minute: (digit_value(s[15]) * 10 + digit_value(s[16])) as u32,
            second: (digit_value(s[18]) * 10 + digit_value(s[19])) as u32,
        };
        if dt_valid(dt) {
            Some(dt)
        } else {
            None
        }
    } else {
        None
    }
}

/// The `A.D. ` prefix that announces the calendar rendering.
pub open spec fn ad_label() -> Seq<char> {
    seq!['A', '.', 'D', '.', ' ']
}

/// What [`parse_date_time`] returns: the text between the first `=` and
/// the next `=` (or the end) is trimmed, the `A.D. ` prefix stripped, and
/// the following 20-character window read as a calendar timestamp.
pub open spec fn spec_parse_date_time(line: Seq<char>) -> Option<DateTime> {
    let e1 = find_char(line, '=');
    if e1 < 0 {
        None
    } else {
        let after = line.skip(e1 + 1);
        let e2 = find_char(after, '=');
        let piece = if e2 < 0 {
            after
        } else {
            after.take(e2)
        };
        let t = trimmed(piece);
        if starts_with(t, ad_label()) {
            let rest = t.skip(5);
            let window = rest.take(
                if rest.len() <= 20 {
                    rest.len() as int
                } else {
                    20
                },
            );
            spec_parse_calendar(window)
        } else {
            None
        }
    }
}

fn days_in_month_of(y: u32, m: u32) -> (d: u32)
    ensures
        d as int == days_in_month(y as int, m as int),
{
    if m == 2 {
        if y % 4 == 0 && (y % 100 != 0 || y % 400 == 0) {
            29
        } else {
            28
        }
    } else if m == 4 || m == 6 || m == 9 || m == 11 {
        30
    } else {
        31
    }
}

fn month_number_of(c0: char, c1: char, c2: char) -> (m: u32)
    ensures
        m as int == month_number(c0, c1, c2),
{
    if eq_ci_char(c0, 'j') && eq_ci_char(c1, 'a') && eq_ci_char(c2, 'n') {
        1
    } else if eq_ci_char(c0, 'f') && eq_ci_char(c1, 'e') && eq_ci_char(c2, 'b') {
        2
    } else if eq_ci_char(c0, 'm') && eq_ci_char(c1, 'a') && eq_ci_char(c2, 'r') {
        3
    } else if eq_ci_char(c0, 'a') && eq_ci_char(c1, 'p') && eq_ci_char(c2, 'r') {
        4
    } else if eq_ci_char(c0, 'm') && eq_ci_char(c1, 'a') && eq_ci_char(c2, 'y') {
        5
    } else if eq_ci_char(c0, 'j') && eq_ci_char(c1, 'u') && eq_ci_char(c2, 'n') {
        6
    } else if eq_ci_char(c0, 'j') && eq_ci_char(c1, 'u') && eq_ci_char(c2, 'l') {
        7
    } else if eq_ci_char(c0, 'a') && eq_ci_char(c1, 'u') && eq_ci_char(c2, 'g') {
        8
    } else if eq_ci_char(c0, 's') && eq_ci_char(c1, 'e') && eq_ci_char(c2, 'p') {
        9
    } else if eq_ci_char(c0, 'o') && eq_ci_char(c1, 'c') && eq_ci_char(c2, 't') {
        10
    } else if eq_ci_char(c0, 'n') && eq_ci_char(c1, 'o') && eq_ci_char(c2, 'v') {
        11
    } else if eq_ci_char(c0, 'd') && eq_ci_char(c1, 'e') && eq_ci_char(c2, 'c') {
        12
    } else {
        0
    }
}

/// Reads the 20-character calendar window; [`spec_parse_calendar`] says
/// exactly which windows succeed and what they denote.
pub fn parse_calendar(s: &str) -> (r: Option<DateTime>)
    ensures
        r == spec_parse_calendar(s@),
{
    let len = s.unicode_len();
    if len != 20 {
        return None;
    }
    let c0 = s.get_char(0);
    let c1 = s.get_char(1);
    let c2 = s.get_char(2);
    let c3 = s.get_char(3);
    let c4 = s.get_char(4);
    let c5 = s.get_char(5);
    let c6 = s.get_char(6);
    let c7 = s.get_char(7);
    let c8 = s.get_char(8);
    let c9 = s.get_char(9);
    let c10 = s.get_char(10);
    let c11 = s.get_char(11);
    let c12 = s.get_char(12);
    let c13 = s.get_char(13);
    let c14 = s.get_char(14);
    let c15 = s.get_char(15);
    let c16 = s.get_char(16);
    let c17 = s.get_char(17);
    let c18 = s.get_char(18);
    let c19 = s.get_char(19);
    if !(is_digit_char(c0) && is_digit_char(c1) && is_digit_char(c2) && is_digit_char(c3) && c4 == '-' && c8 == '-' && c11 == ' ' && c14
        == ':' && c17 == ':' && is_digit_char(c9) && is_digit_char(c10) && is_digit_char(c12) && is_digit_char(c13) && is_digit_char(c15) && is_digit_char(c16)
        && is_digit_char(c18) && is_digit_char(c19)) {
        return None;
    }
    let m = month_number_of(c5, c6, c7);
    if m == 0 {
        return None;
    }
    let year = (c0 as u32 - 48) * 1000 + (c1 as u32 - 48) * 100 + (c2 as u32 - 48) * 10 + (c3
        as u32 - 48);
    let day = (c9 as u32 - 48) * 10 + (c10 as u32 - 48);
    let hour = (c12 as u32 - 48) * 10 + (c13 as u32 - 48);
    let minute = (c15 as u32 - 48) * 10 + (c16 as u32 - 48);
    let second = (c18 as u32 - 48) * 10 + (c19 as u32 - 48);
    let dt = DateTime { year, month: m, day, hour, minute, second };
    let dim = days_in_month_of(year, m);
    if 1 <= day && day <= dim && hour < 24 && minute < 60 && second < 60 {
        Some(dt)
    } else {
        None
    }
}

/// Decodes the calendar timestamp from a record's Julian-day annotation
/// line; [`spec_parse_date_time`] states the result exactly.
pub fn parse_date_time(line: &str) -> (r: Option<DateTime>)
    ensures
        r == spec_parse_date_time(line@),
{
    let len = line.unicode_len();
    proof {
        assert(line@.skip(0) =~= line@);
    }
    let e1 = match crate::text::find_char_from(line, 0, '=') {
        Some(i) => i,
        None => {
            return None;
        },
    };
    let after_start = e1 + 1;
    let piece_end = match crate::text::find_char_from(line, after_start, '=') {
        Some(j) => j,
        None => len,
    };
    let piece = line.substring_char(after_start, piece_end);
    proof {
        let after = line@.skip(after_start as int);
        let e2 = find_char(after, '=');
        if e2 < 0 {
            assert(piece@ =~= after);
        } else {
            assert(piece@ =~= after.take(e2));
        }
    }
    let t = crate::text::trim_of(piece);
    let rest = match take_expecting(t, "A.D. ") {
        Ok(r) => r,
        Err(_) => {
            proof {
                reveal_strlit("A.D. ");
                assert("A.D. "@ =~= ad_label());
            }
            return None;
        },
    };
    proof {
        reveal_strlit("A.D. ");
        assert("A.D. "@ =~= ad_label());
    }
    let window = take_or_empty(rest, 20).0;
    proof {
        let spec_window = rest@.take(
            if rest@.len() <= 20 {
                rest@.len() as int
            } else {
                20
            },
        );
        assert(window@ =~= spec_window);
    }
    parse_calendar(window)
}

} // verus!
