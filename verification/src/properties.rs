//! The geophysical-properties scanner: a single forward pass over a block
//! of narrative text, looking for the one labeled mass line.

use vstd::prelude::*;

verus! {

use vstd::string::StrSliceExecFns;
use vstd::string::StringExecFns;
use crate::numbers::is_float_literal;
use crate::numbers::is_float_text;
use crate::text::starts_with;
use crate::utilities::take_expecting;
use crate::utilities::take_or_empty;

/// No line of the block carried a mass. An expected outcome for
/// barycenters and other catalog entries without a published mass, not an
/// exceptional one.
#[derive(Debug, PartialEq, Eq, Structural, Clone, Copy)]
pub struct ParseError;

/// Scalar geophysical properties of a body.
///
/// The mass in kilograms is `mass_mantissa` times ten to the
/// `mass_exponent`: both are kept as the exact decimal text found in the
/// input, and both satisfy the floating-point grammar, so an unverified
/// caller may combine them in machine floats.
#[derive(Debug, PartialEq, Eq)]
pub struct Properties {
    /// Mantissa of the mass, e.g. `5.97219`.
    pub mass_mantissa: String,
    /// Power of ten the mantissa is scaled by, e.g. `24`.
    pub mass_exponent: String,
}

/// The label that announces the mass, with its power-of-ten marker.
pub open spec fn mass_label() -> Seq<char> {
    seq!['M', 'a', 's', 's', ' ', 'x', '1', '0', '^']
}

/// The label standing between the exponent and the mantissa.
pub open spec fn kg_label() -> Seq<char> {
    seq![' ', '(', 'k', 'g', ')', '=', ' ']
}

/// The mantissa and exponent text a mass line yields, or `None` when the
/// line is no mass line. The first 45 characters are an unrelated left
/// margin and are skipped; then the mass label, a 2-character exponent,
/// the kilogram label and a 7-character mantissa must follow, the exponent
/// and mantissa both numeric.
///
/// A line that carries the mass label but whose exponent or mantissa
/// slice is not numeric text counts, by design, as no mass line at all:
/// the scan continues past it, and a block with no other match reports
/// the property as not found. A match here means the whole pattern,
/// readable numbers included.
pub open spec fn mass_fields(line: Seq<char>) -> Option<(Seq<char>, Seq<char>)> {
    let after = line.skip(
        if line.len() <= 45 {
            line.len() as int
        } else {
            45
        },
    );
    if starts_with(after, mass_label()) {
        let rest = after.skip(9);
        let k = if rest.len() <= 2 {
            rest.len() as int
        } else {
            2
        };
        let exponent = rest.take(k);
        let rest2 = rest.skip(k);
        if is_float_literal(exponent) && starts_with(rest2, kg_label()) {
            let tail = rest2.skip(7);
            let mantissa = tail.take(
                if tail.len() <= 7 {
                    tail.len() as int
                } else {
                    7
                },
            );
            if is_float_literal(mantissa) {
                Some((mantissa, exponent))
            } else {
                None
            }
        } else {
            None
        }
    } else {
        None
    }
}

/// Reads the mass of one line, if it is a mass line.
fn mass_of_line(line: &str) -> (r: Option<(String, String)>)
    ensures
        match r {
            Some(fields) => mass_fields(line@) == Some((fields.0@, fields.1@)),
            None => mass_fields(line@) is None,
        },
{
    proof {
        reveal_strlit("Mass x10^");
        assert("Mass x10^"@ =~= mass_label());
        reveal_strlit(" (kg)= ");
        assert(" (kg)= "@ =~= kg_label());
    }
    let (_, after) = take_or_empty(line, 45);
    let rest = match take_expecting(after, "Mass x10^") {
        Ok(rest) => rest,
        Err(_) => {
            return None;
        },
    };
    let (exponent, rest2) = take_or_empty(rest, 2);
    if !is_float_text(exponent) {
        return None;
    }
    let tail = match take_expecting(rest2, " (kg)= ") {
        Ok(tail) => tail,
        Err(_) => {
            return None;
        },
    };
    let (mantissa, _) = take_or_empty(tail, 7);
    if is_float_text(mantissa) {
        Some((String::from_str(mantissa), String::from_str(exponent)))
    } else {
        None
    }
}

impl Properties {
    /// Scans the block for its mass line: the first line that carries one
    /// wins and ends the scan; a block without one is a typed
    /// [`ParseError`], never a silent default.
    pub fn parse(data: &Vec<String>) -> (r: Result<Properties, ParseError>)
        ensures
            match r {
                Ok(p) => exists|i: int|
                    0 <= i < data@.len() && mass_fields(#[trigger] data@[i]@) == Some(
                        (p.mass_mantissa@, p.mass_exponent@),
                    ) && (forall|j: int| 0 <= j < i ==> mass_fields(#[trigger] data@[j]@) is None),
                Err(_) => forall|i: int|
                    0 <= i < data@.len() ==> mass_fields(#[trigger] data@[i]@) is None,
            },
    {
        let n = data.len();
        let mut idx: usize = 0;
        while idx < n
            invariant
                idx <= n,
                n == data@.len(),
                forall|j: int| 0 <= j < idx ==> mass_fields(#[trigger] data@[j]@) is None,
            decreases n - idx,
        {
            match mass_of_line(data[idx].as_str()) {
                Some(fields) => {
                    return Ok(Properties { mass_mantissa: fields.0, mass_exponent: fields.1 });
                },
                None => {},
            }
            idx += 1;
        }
        Err(ParseError)
    }
}

} // verus!
