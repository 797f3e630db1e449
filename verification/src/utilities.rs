//! Fixed-width field extraction: the non-panicking slicing primitives on
//! which every decoder in this crate is built.

use vstd::prelude::*;

verus! {

use vstd::string::StrSliceExecFns;
use vstd::string::StringExecFns;
use crate::text::starts_with;

/// Splitting failure: the input did not begin with the expected label.
/// `found` carries the offending text unmodified.
#[derive(Debug, PartialEq, Eq)]
pub struct TakeExpectingError {
    /// The text that was inspected, unchanged.
    pub found: String,
}

/// Similar to `str::split_at`, but instead of panicking, it returns what is
/// possible: the first `n` characters of `value` (or all of `value` if it is
/// shorter) and whatever follows.
pub fn take_or_empty<'a>(value: &'a str, n: usize) -> (r: (&'a str, &'a str))
    ensures
        r.0@.len() == if n as int <= value@.len() {
            n as int
        } else {
            value@.len() as int
        },
        r.0@ == value@.take(r.0@.len() as int),
        r.1@ == value@.skip(r.0@.len() as int),
        r.0@ + r.1@ == value@,
{
    let len = value.unicode_len();
    if len > n {
        let head = value.substring_char(0, n);
        let tail = value.substring_char(n, len);
        proof {
            assert(head@ + tail@ =~= value@);
            assert(head@ =~= value@.take(n as int));
            assert(tail@ =~= value@.skip(n as int));
        }
        (head, tail)
    } else {
        let empty = "";
        proof {
            reveal_strlit("");
            assert(empty@ =~= value@.skip(value@.len() as int));
            assert(value@ =~= value@.take(value@.len() as int));
            assert(value@ + empty@ =~= value@);
        }
        (value, empty)
    }
}

/// Compares the leading characters of `value` against `expected`. On a match
/// the rest of `value` is returned; on a mismatch (including `value` being
/// shorter than `expected`) a [`TakeExpectingError`] carrying `value` is
/// returned.
pub fn take_expecting<'a>(value: &'a str, expected: &str) -> (r: Result<
    &'a str,
    TakeExpectingError,
>)
    ensures
        match r {
            Ok(rest) => starts_with(value@, expected@) && rest@ == value@.skip(
                expected@.len() as int,
            ),
            Err(e) => !starts_with(value@, expected@) && e.found@ == value@,
        },
{
    let el = expected.unicode_len();
    let vl = value.unicode_len();
    if el <= vl {
        let head = value.substring_char(0, el);
        if crate::text::str_eq(head, expected) {
            Ok(value.substring_char(el, vl))
        } else {
            Err(TakeExpectingError { found: String::from_str(value) })
        }
    } else {
        Err(TakeExpectingError { found: String::from_str(value) })
    }
}

} // verus!
