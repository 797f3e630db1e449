//! The catalog decoder: one line of the major-body listing in, zero or one
//! [`MajorBody`] out.

use vstd::prelude::*;

verus! {

use vstd::string::StrSliceExecFns;
use vstd::string::StringExecFns;
use crate::numbers::IntParseError;
use crate::numbers::int_parse_result;
use crate::numbers::parse_i32;
use crate::text::trimmed;
use crate::utilities::take_or_empty;

/// Planet, natural satellite, spacecraft, Sun, barycenter, or other objects
/// having pre-computed trajectories.
#[derive(Debug, PartialEq, Eq)]
pub struct MajorBody {
    /// Id of the major body.
    pub id: i32,
    /// Name of the major body (e.g. Earth), possibly truncated by the
    /// fixed column width of the catalog.
    pub name: String,
}

/// Why a catalog line held no body. Header and footer decoration lines
/// fail this way; callers treat them as "not a data line" and skip them.
#[derive(Debug, PartialEq, Eq, Structural, Clone, Copy)]
pub enum MajorBodyParseError {
    /// The id column did not hold an integer.
    InvalidId(IntParseError),
}

/// The id column: the first 9 characters of the line, trimmed.
pub open spec fn id_text(line: Seq<char>) -> Seq<char> {
    trimmed(
        line.take(
            if line.len() <= 9 {
                line.len() as int
            } else {
                9
            },
        ),
    )
}

/// The name column: 35 characters after the id column, trimmed.
pub open spec fn name_text(line: Seq<char>) -> Seq<char> {
    let rest = line.skip(
        if line.len() <= 9 {
            line.len() as int
        } else {
            9
        },
    );
    trimmed(
        rest.take(
            if rest.len() <= 35 {
                rest.len() as int
            } else {
                35
            },
        ),
    )
}

/// The view of a [`MajorBody`].
pub struct MajorBodyView {
    /// Id of the major body.
    pub id: int,
    /// Name of the major body.
    pub name: Seq<char>,
}

impl View for MajorBody {
    type V = MajorBodyView;

    open spec fn view(&self) -> MajorBodyView {
        MajorBodyView { id: self.id as int, name: self.name@ }
    }
}

impl DeepView for MajorBody {
    type V = MajorBodyView;

    open spec fn deep_view(&self) -> MajorBodyView {
        self.view()
    }
}

/// The body a catalog line holds, or `None` for a header, footer or other
/// decoration line whose id column holds no integer.
pub open spec fn catalog_line_body(line: Seq<char>) -> Option<MajorBodyView> {
    match int_parse_result(id_text(line)) {
        Ok(v) => Some(MajorBodyView { id: v, name: name_text(line) }),
        Err(_) => None,
    }
}

/// The catalog a whole listing denotes: the bodies of its data lines, in
/// order, with every line that holds none dropped.
pub open spec fn spec_catalog(lines: Seq<Seq<char>>) -> Seq<MajorBodyView>
    decreases lines.len(),
{
    if lines.len() == 0 {
        seq![]
    } else {
        match catalog_line_body(lines[0]) {
            Some(b) => seq![b] + spec_catalog(lines.skip(1)),
            None => spec_catalog(lines.skip(1)),
        }
    }
}

proof fn lemma_spec_catalog_snoc(s: Seq<Seq<char>>, l: Seq<char>)
    ensures
        spec_catalog(s.push(l)) == spec_catalog(s) + match catalog_line_body(l) {
            Some(b) => seq![b],
            None => Seq::<MajorBodyView>::empty(),
        },
    decreases s.len(),
{
    let whole = s.push(l);
    let ext = match catalog_line_body(l) {
        Some(b) => seq![b],
        None => Seq::<MajorBodyView>::empty(),
    };
    if s.len() == 0 {
        assert(whole[0] == l);
        assert(whole.skip(1) =~= Seq::<Seq<char>>::empty());
        assert(spec_catalog(s) + ext =~= ext);
        assert(ext + spec_catalog(whole.skip(1)) =~= ext);
    } else {
        assert(whole[0] == s[0]);
        assert(whole.skip(1) =~= s.skip(1).push(l));
        lemma_spec_catalog_snoc(s.skip(1), l);
        match catalog_line_body(s[0]) {
            Some(b0) => {
                assert(seq![b0] + (spec_catalog(s.skip(1)) + ext) =~= (seq![b0] + spec_catalog(
                    s.skip(1),
                )) + ext);
            },
            None => {},
        }
    }
}

/// Decodes a whole catalog listing: the bodies of its data lines, in
/// order. Lines that fail to parse as a body — the headers, footers and
/// rules the service mixes into the listing — are dropped, never fatal
/// to the batch.
pub fn catalog_bodies(lines: &Vec<String>) -> (r: Vec<MajorBody>)
    ensures
        r.deep_view() == spec_catalog(lines.deep_view()),
{
    let ghost dv = lines.deep_view();
    let n = lines.len();
    let mut bodies: Vec<MajorBody> = Vec::new();
    let mut i: usize = 0;
    proof {
        assert(dv.take(0) =~= Seq::<Seq<char>>::empty());
        assert(bodies.deep_view() =~= spec_catalog(dv.take(0)));
    }
    while i < n
        invariant
            i <= n,
            n == lines@.len(),
            dv == lines.deep_view(),
            bodies.deep_view() == spec_catalog(dv.take(i as int)),
        decreases n - i,
    {
        let ghost pre = bodies.deep_view();
        proof {
            lemma_spec_catalog_snoc(dv.take(i as int), dv[i as int]);
            assert(dv.take(i as int).push(dv[i as int]) =~= dv.take(i + 1));
        }
        match MajorBody::try_from(lines[i].as_str()) {
            Ok(body) => {
                proof {
                    assert(catalog_line_body(dv[i as int]) == Some(body@));
                }
                bodies.push(body);
                proof {
                    assert(bodies.deep_view() =~= pre + seq![body@]);
                }
            },
            Err(_) => {
                proof {
                    assert(catalog_line_body(dv[i as int]) is None);
                    assert(pre + Seq::<MajorBodyView>::empty() =~= pre);
                }
            },
        }
        i += 1;
    }
    proof {
        assert(dv.take(n as int) =~= dv);
    }
    bodies
}

impl MajorBody {
    /// Decodes one line of the catalog listing. The service formats the
    /// listing as a fixed-width table, truncating even over-long names, so
    /// the line is sliced by column, never split by delimiter.
    pub fn try_from(value: &str) -> (r: Result<MajorBody, MajorBodyParseError>)
        ensures
            match r {
                Ok(body) => int_parse_result(id_text(value@)) == Ok::<int, IntParseError>(
                    body.id as int,
                ) && body.name@ == name_text(value@),
                Err(MajorBodyParseError::InvalidId(e)) => int_parse_result(id_text(value@))
                    == Err::<int, IntParseError>(e),
            },
    {
        let (id_field, rest) = take_or_empty(value, 9);
        let (name_field, _) = take_or_empty(rest, 35);
        let id_trimmed = crate::text::trim_of(id_field);
        let name_trimmed = crate::text::trim_of(name_field);
        match parse_i32(id_trimmed) {
            Ok(id) => Ok(MajorBody { id, name: String::from_str(name_trimmed) }),
            Err(e) => Err(MajorBodyParseError::InvalidId(e)),
        }
    }
}

} // verus!
