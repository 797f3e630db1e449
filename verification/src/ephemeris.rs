//! The multi-line record machines: the vector ephemeris decoder and the
//! orbital-element ephemeris decoder.
//!
//! Both consume a sequence of lines, discard everything before the
//! `$$SOE` sentinel, and then read fixed-cycle records until the `$$EOE`
//! sentinel or the end of input. Each record opens with a Julian-day
//! annotation line carrying the timestamp, followed by data lines of
//! three labeled 22-character fields each. A malformed label or field
//! ends the sequence with a typed [`MalformedRecord`] instead of a crash;
//! an incomplete record — cut off by the end sentinel or by the end of
//! input — is dropped silently, never emitted.

use vstd::prelude::*;

verus! {

use vstd::string::StrSliceExecFns;
use vstd::string::StringExecFns;
use crate::datetime::DateTime;
use crate::datetime::parse_date_time;
use crate::datetime::spec_parse_date_time;
use crate::numbers::is_float_literal;
use crate::numbers::is_float_text;
use crate::text::starts_with;
use crate::text::str_eq;
use crate::text::trimmed;
use crate::utilities::take_expecting;
use crate::utilities::take_or_empty;

/// A record cycle that could not be decoded. The failure ends the
/// sequence; a caller that wants the rest must restart a fresh decoder
/// past the next sentinel boundary.
#[derive(Debug, PartialEq, Eq)]
pub enum MalformedRecord {
    /// A column label was not where the layout demands it; `found` holds
    /// the text that stood in its place.
    UnexpectedPrefix {
        /// The text that stood where the label belongs.
        found: String,
    },
    /// A sliced field was not numeric text; `field` holds it, trimmed.
    NumericParseFailure {
        /// The offending field text, trimmed.
        field: String,
    },
}

/// The view of a [`MalformedRecord`].
pub enum MalformedRecordView {
    /// See [`MalformedRecord::UnexpectedPrefix`].
    UnexpectedPrefix {
        /// The text that stood where the label belongs.
        found: Seq<char>,
    },
    /// See [`MalformedRecord::NumericParseFailure`].
    NumericParseFailure {
        /// The offending field text, trimmed.
        field: Seq<char>,
    },
}

impl View for MalformedRecord {
    type V = MalformedRecordView;

    open spec fn view(&self) -> MalformedRecordView {
        match self {
            MalformedRecord::UnexpectedPrefix { found } => MalformedRecordView::UnexpectedPrefix {
                found: found@,
            },
            MalformedRecord::NumericParseFailure { field } => {
                MalformedRecordView::NumericParseFailure { field: field@ }
            },
        }
    }
}

/// The sentinel opening the data region.
pub open spec fn soe_marker() -> Seq<char> {
    seq!['$', '$', 'S', 'O', 'E']
}

/// The sentinel closing the data region.
pub open spec fn eoe_marker() -> Seq<char> {
    seq!['$', '$', 'E', 'O', 'E']
}

/// Labels of the position line.
pub open spec fn x_label() -> Seq<char> {
    seq![' ', 'X', ' ', '=']
}

/// See [`x_label`].
pub open spec fn y_label() -> Seq<char> {
    seq![' ', 'Y', ' ', '=']
}

/// See [`x_label`].
pub open spec fn z_label() -> Seq<char> {
    seq![' ', 'Z', ' ', '=']
}

/// Labels of the velocity line.
pub open spec fn vx_label() -> Seq<char> {
    seq![' ', 'V', 'X', '=']
}

/// See [`vx_label`].
pub open spec fn vy_label() -> Seq<char> {
    seq![' ', 'V', 'Y', '=']
}

/// See [`vx_label`].
pub open spec fn vz_label() -> Seq<char> {
    seq![' ', 'V', 'Z', '=']
}

/// A 22-character fixed-width field and what follows it.
pub open spec fn spec_take_field(s: Seq<char>) -> (Seq<char>, Seq<char>) {
    let k = if s.len() <= 22 {
        s.len() as int
    } else {
        22
    };
    (s.take(k), s.skip(k))
}

/// Decodes a data line of three labeled 22-character fields: each label is
/// demanded in place, each field is trimmed and must be numeric text. The
/// first violation decides the error.
pub open spec fn spec_decode_triplet(
    line: Seq<char>,
    l0: Seq<char>,
    l1: Seq<char>,
    l2: Seq<char>,
) -> Result<Seq<Seq<char>>, MalformedRecordView> {
    if !starts_with(line, l0) {
        Err(MalformedRecordView::UnexpectedPrefix { found: line })
    } else {
        let (f0raw, after0) = spec_take_field(line.skip(l0.len() as int));
        if !starts_with(after0, l1) {
            Err(MalformedRecordView::UnexpectedPrefix { found: after0 })
        } else {
            let (f1raw, after1) = spec_take_field(after0.skip(l1.len() as int));
            if !starts_with(after1, l2) {
                Err(MalformedRecordView::UnexpectedPrefix { found: after1 })
            } else {
                let (f2raw, rest) = spec_take_field(after1.skip(l2.len() as int));
                let f0 = trimmed(f0raw);
                let f1 = trimmed(f1raw);
                let f2 = trimmed(f2raw);
                if !is_float_literal(f0) {
                    Err(MalformedRecordView::NumericParseFailure { field: f0 })
                } else if !is_float_literal(f1) {
                    Err(MalformedRecordView::NumericParseFailure { field: f1 })
                } else if !is_float_literal(f2) {
                    Err(MalformedRecordView::NumericParseFailure { field: f2 })
                } else {
                    Ok(seq![f0, f1, f2])
                }
            }
        }
    }
}

/// Decodes a line of three labeled 22-character fields;
/// [`spec_decode_triplet`] states the outcome exactly.
pub(crate) fn parse_labeled_triplet(line: &str, l0: &str, l1: &str, l2: &str) -> (r: Result<
    Vec<String>,
    MalformedRecord,
>)
    ensures
        match r {
            Ok(v) => spec_decode_triplet(line@, l0@, l1@, l2@) == Ok::<_, MalformedRecordView>(
                v.deep_view(),
            ) && v@.len() == 3,
            Err(e) => spec_decode_triplet(line@, l0@, l1@, l2@) == Err::<Seq<Seq<char>>, _>(e@),
        },
{
    let rest0 = match take_expecting(line, l0) {
        Ok(rest) => rest,
        Err(e) => {
            return Err(MalformedRecord::UnexpectedPrefix { found: e.found });
        },
    };
    let fields0 = take_or_empty(rest0, 22);
    let rest1 = match take_expecting(fields0.1, l1) {
        Ok(rest) => rest,
        Err(e) => {
            return Err(MalformedRecord::UnexpectedPrefix { found: e.found });
        },
    };
    let fields1 = take_or_empty(rest1, 22);
    let rest2 = match take_expecting(fields1.1, l2) {
        Ok(rest) => rest,
        Err(e) => {
            return Err(MalformedRecord::UnexpectedPrefix { found: e.found });
        },
    };
    let fields2 = take_or_empty(rest2, 22);
    let f0 = crate::text::trim_of(fields0.0);
    let f1 = crate::text::trim_of(fields1.0);
    let f2 = crate::text::trim_of(fields2.0);
    if !is_float_text(f0) {
        return Err(MalformedRecord::NumericParseFailure { field: String::from_str(f0) });
    }
    if !is_float_text(f1) {
        return Err(MalformedRecord::NumericParseFailure { field: String::from_str(f1) });
    }
    if !is_float_text(f2) {
        return Err(MalformedRecord::NumericParseFailure { field: String::from_str(f2) });
    }
    let mut v: Vec<String> = Vec::new();
    v.push(String::from_str(f0));
    v.push(String::from_str(f1));
    v.push(String::from_str(f2));
    proof {
        assert(v.deep_view() =~= seq![f0@, f1@, f2@]);
    }
    Ok(v)
}

/// Position (in km) and velocity (in km/s) of a body at one timestamp.
///
/// Every component is kept as the exact trimmed field text of the source
/// line; each satisfies the floating-point grammar, so an unverified
/// caller may read them into machine floats.
#[derive(Debug, PartialEq, Eq)]
pub struct EphemerisVectorItem {
    /// Timestamp of the entry, when its annotation line held one.
    pub time: Option<DateTime>,
    /// Position in km of the moving body relative to the coordinate
    /// center: the texts of X, Y and Z, in that order.
    pub position: Vec<String>,
    /// Velocity in km/s of the moving body: the texts of VX, VY and VZ.
    pub velocity: Vec<String>,
}

/// The view of an [`EphemerisVectorItem`].
pub struct EphemerisVectorItemView {
    /// Timestamp of the entry.
    pub time: Option<DateTime>,
    /// The position component texts.
    pub position: Seq<Seq<char>>,
    /// The velocity component texts.
    pub velocity: Seq<Seq<char>>,
}

impl View for EphemerisVectorItem {
    type V = EphemerisVectorItemView;

    open spec fn view(&self) -> EphemerisVectorItemView {
        EphemerisVectorItemView {
            time: self.time,
            position: self.position.deep_view(),
            velocity: self.velocity.deep_view(),
        }
    }
}

/// Progress of the vector machine, as contracts speak of it. Each state
/// carries only what has been accumulated so far.
pub enum VectorMachineState {
    /// Discarding lines until the start sentinel.
    WaitingForSoe,
    /// Before a record: expecting a timestamp line or the end sentinel.
    WaitingForDate,
    /// The timestamp line is consumed; expecting the position line.
    Date {
        /// The timestamp, when the annotation line held one.
        time: Option<DateTime>,
    },
    /// The position line is consumed; expecting the velocity line.
    Position {
        /// The timestamp, when the annotation line held one.
        time: Option<DateTime>,
        /// The position component texts.
        position: Seq<Seq<char>>,
    },
    /// The velocity line is consumed; expecting the auxiliary line, which
    /// is discarded unread — unless it is the end sentinel, which closes
    /// the region and drops the assembled record as incomplete.
    Complete {
        /// The timestamp, when the annotation line held one.
        time: Option<DateTime>,
        /// The position component texts.
        position: Seq<Seq<char>>,
        /// The velocity component texts.
        velocity: Seq<Seq<char>>,
    },
    /// The end sentinel or a malformed record was seen; nothing more is
    /// ever yielded.
    End,
}

/// One step of the vector machine: the state after consuming `line`, and
/// the record or error that consumption yields, if any.
///
/// The auxiliary light-time/range line of each cycle is consumed by the
/// `Complete` state and its content discarded: the service emits it, this
/// decoder does not surface it, and that discard is deliberate. The one
/// line the `Complete` state does recognize is the end sentinel: it is a
/// region delimiter, not a cycle line, so it closes the region and the
/// record whose auxiliary line never came is dropped, not emitted.
pub open spec fn vector_step(s: VectorMachineState, line: Seq<char>) -> (
    VectorMachineState,
    Option<Result<EphemerisVectorItemView, MalformedRecordView>>,
) {
    match s {
        VectorMachineState::WaitingForSoe => (
            if line == soe_marker() {
                VectorMachineState::WaitingForDate
            } else {
                VectorMachineState::WaitingForSoe
            },
            None,
        ),
        VectorMachineState::WaitingForDate => {
            if line == eoe_marker() {
                (VectorMachineState::End, None)
            } else {
                (VectorMachineState::Date { time: spec_parse_date_time(line) }, None)
            }
        },
        VectorMachineState::Date { time } => {
            match spec_decode_triplet(line, x_label(), y_label(), z_label()) {
                Ok(position) => (VectorMachineState::Position { time, position }, None),
                Err(e) => (VectorMachineState::End, Some(Err(e))),
            }
        },
        VectorMachineState::Position { time, position } => {
            match spec_decode_triplet(line, vx_label(), vy_label(), vz_label()) {
                Ok(velocity) => (
                    VectorMachineState::Complete { time, position, velocity },
                    None,
                ),
                Err(e) => (VectorMachineState::End, Some(Err(e))),
            }
        },
        VectorMachineState::Complete { time, position, velocity } => {
            if line == eoe_marker() {
                (VectorMachineState::End, None)
            } else {
                (
                    VectorMachineState::WaitingForDate,
                    Some(Ok(EphemerisVectorItemView { time, position, velocity })),
                )
            }
        },
        VectorMachineState::End => (VectorMachineState::End, None),
    }
}

/// What one pull from the vector machine does: the state left behind, how
/// many lines were consumed, and what was yielded. Lines are consumed
/// until a step yields something or the input runs out; a machine in
/// `End` consumes nothing.
pub open spec fn vector_next_spec(s: VectorMachineState, lines: Seq<Seq<char>>) -> (
    VectorMachineState,
    int,
    Option<Result<EphemerisVectorItemView, MalformedRecordView>>,
)
    decreases lines.len(),
{
    if s is End || lines.len() == 0 {
        (s, 0, None)
    } else {
        let step = vector_step(s, lines[0]);
        if step.1 is Some {
            (step.0, 1, step.1)
        } else {
            let rest = vector_next_spec(step.0, lines.skip(1));
            (rest.0, rest.1 + 1, rest.2)
        }
    }
}

enum VectorState {
    WaitingForSoe,
    WaitingForDate,
    Date { time: Option<DateTime> },
    Position { time: Option<DateTime>, position: Vec<String> },
    Complete { time: Option<DateTime>, position: Vec<String>, velocity: Vec<String> },
    End,
}

/// The vector ephemeris decoder: a one-shot forward reader over its input
/// lines, restartable only from scratch.
pub struct EphemerisVectorParser {
    lines: Vec<String>,
    pos: usize,
    state: VectorState,
}

impl EphemerisVectorParser {
    /// The input lines not yet consumed.
    pub closed spec fn remaining(&self) -> Seq<Seq<char>> {
        self.lines.deep_view().skip(self.pos as int)
    }

    /// The machine's progress state.
    pub closed spec fn machine_state(&self) -> VectorMachineState {
        match self.state {
            VectorState::WaitingForSoe => VectorMachineState::WaitingForSoe,
            VectorState::WaitingForDate => VectorMachineState::WaitingForDate,
            VectorState::Date { time } => VectorMachineState::Date { time },
            VectorState::Position { time, position } => VectorMachineState::Position {
                time,
                position: position.deep_view(),
            },
            VectorState::Complete { time, position, velocity } => VectorMachineState::Complete {
                time,
                position: position.deep_view(),
                velocity: velocity.deep_view(),
            },
            VectorState::End => VectorMachineState::End,
        }
    }

    /// The decoder's internal consistency.
    pub closed spec fn wf(&self) -> bool {
        self.pos <= self.lines.len() && match self.state {
            VectorState::Position { position, .. } => position@.len() == 3,
            VectorState::Complete { position, velocity, .. } => position@.len() == 3
                && velocity@.len() == 3,
            _ => true,
        }
    }

    /// Creates a decoder over the given lines, still ahead of the start
    /// sentinel.
    pub fn parse(input: Vec<String>) -> (r: Self)
        ensures
            r.wf(),
            r.machine_state() == VectorMachineState::WaitingForSoe,
            r.remaining() == input.deep_view(),
    {
        let r = EphemerisVectorParser { lines: input, pos: 0, state: VectorState::WaitingForSoe };
        proof {
            assert(r.remaining() =~= r.lines.deep_view());
        }
        r
    }

    /// Pulls the next record. Consumes lines until a record is complete,
    /// a cycle fails, or input ends; [`vector_next_spec`] states the
    /// consumed count, the state left behind and the yielded value
    /// exactly. After `None` or an error, every further pull is `None`.
    #[verifier::rlimit(60)]
    pub fn next(&mut self) -> (r: Option<Result<EphemerisVectorItem, MalformedRecord>>)
        requires
            old(self).wf(),
        ensures
            final(self).wf(),
            ({
                let step = vector_next_spec(old(self).machine_state(), old(self).remaining());
                final(self).machine_state() == step.0 && final(self).remaining() == old(
                    self,
                ).remaining().skip(step.1) && match (r, step.2) {
                    (None, None) => true,
                    (Some(Ok(item)), Some(Ok(itemv))) => item@ == itemv,
                    (Some(Err(err)), Some(Err(errv))) => err@ == errv,
                    _ => false,
                }
            }),
    {
        let ghost st0 = self.machine_state();
        let ghost rem0 = self.remaining();
        let ghost pos0 = self.pos;
        loop
            invariant
                self.wf(),
                pos0 <= self.pos <= self.lines@.len(),
                self.lines == old(self).lines,
                st0 == old(self).machine_state(),
                rem0 == old(self).remaining(),
                pos0 == old(self).pos,
                self.remaining() == rem0.skip(self.pos - pos0),
                vector_next_spec(st0, rem0) == ({
                    let rest = vector_next_spec(self.machine_state(), self.remaining());
                    (rest.0, rest.1 + self.pos - pos0, rest.2)
                }),
            decreases self.lines@.len() - self.pos,
        {
            if self.pos == self.lines.len() {
                proof {
                    assert(self.remaining().len() == 0);
                }
                return None;
            }
            if matches!(self.state, VectorState::End) {
                return None;
            }
            let ghost pre_state = self.machine_state();
            let ghost pre_rem = self.remaining();
            let line: String = self.lines[self.pos].clone();
            self.pos = self.pos + 1;
            proof {
                assert(pre_rem[0] == line@);
                assert(self.remaining() =~= pre_rem.skip(1));
            }
            let mut st = VectorState::End;
            core::mem::swap(&mut st, &mut self.state);
            match st {
                VectorState::WaitingForSoe => {
                    let is_soe = str_eq(line.as_str(), "$$SOE");
                    proof {
                        reveal_strlit("$$SOE");
                        assert("$$SOE"@ =~= soe_marker());
                    }
                    if is_soe {
                        self.state = VectorState::WaitingForDate;
                    } else {
                        self.state = VectorState::WaitingForSoe;
                    }
                    proof {
                        assert(vector_step(pre_state, line@).0 == self.machine_state());
                        assert(vector_step(pre_state, line@).1 is None);
                    }
                },
                VectorState::WaitingForDate => {
                    let is_eoe = str_eq(line.as_str(), "$$EOE");
                    proof {
                        reveal_strlit("$$EOE");
                        assert("$$EOE"@ =~= eoe_marker());
                    }
                    if is_eoe {
                        self.state = VectorState::End;
                    } else {
                        let time = parse_date_time(line.as_str());
                        self.state = VectorState::Date { time };
                    }
                    proof {
                        assert(vector_step(pre_state, line@).0 == self.machine_state());
                        assert(vector_step(pre_state, line@).1 is None);
                    }
                },
                VectorState::Date { time } => {
                    let parsed = parse_labeled_triplet(line.as_str(), " X =", " Y =", " Z =");
                    proof {
                        reveal_strlit(" X =");
                        reveal_strlit(" Y =");
                        reveal_strlit(" Z =");
                        assert(" X ="@ =~= x_label());
                        assert(" Y ="@ =~= y_label());
                        assert(" Z ="@ =~= z_label());
                    }
                    match parsed {
                        Ok(position) => {
                            self.state = VectorState::Position { time, position };
                            proof {
                                assert(vector_step(pre_state, line@).0 == self.machine_state());
                                assert(vector_step(pre_state, line@).1 is None);
                            }
                        },
                        Err(e) => {
                            self.state = VectorState::End;
                            proof {
                                assert(vector_step(pre_state, line@) == (
                                    VectorMachineState::End,
                                    Some(
                                        Err::<EphemerisVectorItemView, MalformedRecordView>(e@),
                                    ),
                                ));
                            }
                            return Some(Err(e));
                        },
                    }
                },
                VectorState::Position { time, position } => {
                    let parsed = parse_labeled_triplet(line.as_str(), " VX=", " VY=", " VZ=");
                    proof {
                        reveal_strlit(" VX=");
                        reveal_strlit(" VY=");
                        reveal_strlit(" VZ=");
                        assert(" VX="@ =~= vx_label());
                        assert(" VY="@ =~= vy_label());
                        assert(" VZ="@ =~= vz_label());
                    }
                    match parsed {
                        Ok(velocity) => {
                            self.state = VectorState::Complete { time, position, velocity };
                            proof {
                                assert(vector_step(pre_state, line@).0 == self.machine_state());
                                assert(vector_step(pre_state, line@).1 is None);
                            }
                        },
                        Err(e) => {
                            self.state = VectorState::End;
                            proof {
                                assert(vector_step(pre_state, line@) == (
                                    VectorMachineState::End,
                                    Some(
                                        Err::<EphemerisVectorItemView, MalformedRecordView>(e@),
                                    ),
                                ));
                            }
                            return Some(Err(e));
                        },
                    }
                },
                VectorState::Complete { time, position, velocity } => {
                    let is_eoe = str_eq(line.as_str(), "$$EOE");
                    proof {
                        reveal_strlit("$$EOE");
                        assert("$$EOE"@ =~= eoe_marker());
                    }
                    if is_eoe {
                        // The end sentinel stands where the auxiliary line
                        // belongs: the region is over and the assembled
                        // record is dropped as incomplete.
                        self.state = VectorState::End;
                        proof {
                            assert(vector_step(pre_state, line@).0 == self.machine_state());
                            assert(vector_step(pre_state, line@).1 is None);
                        }
                    } else {
                        // The auxiliary line just read is deliberately
                        // dropped.
                        self.state = VectorState::WaitingForDate;
                        let item = EphemerisVectorItem { time, position, velocity };
                        proof {
                            assert(vector_step(pre_state, line@) == (
                                VectorMachineState::WaitingForDate,
                                Some(Ok::<EphemerisVectorItemView, MalformedRecordView>(item@)),
                            ));
                        }
                        return Some(Ok(item));
                    }
                },
                VectorState::End => {
                    proof {
                        assert(false);
                    }
                    return None;
                },
            }
        }
    }
}

/// Everything the vector machine yields over a whole line sequence, in
/// order: the outcomes of running [`vector_step`] line by line from `s`.
pub open spec fn vector_run(s: VectorMachineState, lines: Seq<Seq<char>>) -> Seq<
    Result<EphemerisVectorItemView, MalformedRecordView>,
>
    decreases lines.len(),
{
    if lines.len() == 0 {
        seq![]
    } else {
        let step = vector_step(s, lines[0]);
        match step.1 {
            None => vector_run(step.0, lines.skip(1)),
            Some(x) => seq![x] + vector_run(step.0, lines.skip(1)),
        }
    }
}

/// How many of the outcomes are records (not errors).
pub open spec fn ok_count<T, E>(outs: Seq<Result<T, E>>) -> int
    decreases outs.len(),
{
    if outs.len() == 0 {
        0
    } else {
        (if outs[0] is Ok {
            1int
        } else {
            0int
        }) + ok_count(outs.skip(1))
    }
}

/// Law: pulling records one by one enumerates exactly the outcomes of the
/// whole run. One pull, as [`vector_next_spec`] describes it, peels the
/// first outcome off [`vector_run`] (or ends the run when it yields
/// nothing).
pub proof fn lemma_vector_run_unfolds_by_next(s: VectorMachineState, lines: Seq<Seq<char>>)
    ensures
        ({
            let step = vector_next_spec(s, lines);
            vector_run(s, lines) == match step.2 {
                None => Seq::<Result<EphemerisVectorItemView, MalformedRecordView>>::empty(),
                Some(x) => seq![x] + vector_run(step.0, lines.skip(step.1)),
            }
        }),
    decreases lines.len(),
{
    if s is End {
        lemma_vector_run_end(lines);
    } else if lines.len() == 0 {
        assert(vector_run(s, lines) =~= Seq::<
            Result<EphemerisVectorItemView, MalformedRecordView>,
        >::empty());
    } else {
        let step = vector_step(s, lines[0]);
        if step.1 is Some {
            assert(lines.skip(1) =~= lines.skip(1));
        } else {
            lemma_vector_run_unfolds_by_next(step.0, lines.skip(1));
            lemma_vector_next_consumed(step.0, lines.skip(1));
            let inner = vector_next_spec(step.0, lines.skip(1));
            assert(lines.skip(1).skip(inner.1) =~= lines.skip(inner.1 + 1));
        }
    }
}

/// A pull consumes between zero lines and the whole input.
pub proof fn lemma_vector_next_consumed(s: VectorMachineState, lines: Seq<Seq<char>>)
    ensures
        0 <= vector_next_spec(s, lines).1 <= lines.len(),
    decreases lines.len(),
{
    if !(s is End) && lines.len() > 0 {
        let step = vector_step(s, lines[0]);
        if step.1 is None {
            lemma_vector_next_consumed(step.0, lines.skip(1));
        }
    }
}

/// A machine that has ended yields nothing more, whatever still follows.
pub proof fn lemma_vector_run_end(lines: Seq<Seq<char>>)
    ensures
        vector_run(VectorMachineState::End, lines) == Seq::<
            Result<EphemerisVectorItemView, MalformedRecordView>,
        >::empty(),
    decreases lines.len(),
{
    if lines.len() > 0 {
        lemma_vector_run_end(lines.skip(1));
    }
}

/// One record of the vector format decodes: neither its timestamp line
/// nor its auxiliary line is the end sentinel, and its position and
/// velocity lines carry their labels and numeric fields. (Nothing else is
/// asked of the auxiliary line, whose content is discarded unread.)
pub open spec fn vector_record_decodes(
    date: Seq<char>,
    pos: Seq<char>,
    vel: Seq<char>,
    aux: Seq<char>,
) -> bool {
    date != eoe_marker() && aux != eoe_marker() && spec_decode_triplet(
        pos,
        x_label(),
        y_label(),
        z_label(),
    ) is Ok && spec_decode_triplet(vel, vx_label(), vy_label(), vz_label()) is Ok
}

proof fn lemma_ok_count_cons<T, E>(x: Result<T, E>, rest: Seq<Result<T, E>>)
    ensures
        ok_count(seq![x] + rest) == (if x is Ok {
            1int
        } else {
            0int
        }) + ok_count(rest),
{
    let whole = seq![x] + rest;
    assert(whole[0] == x);
    assert(whole.skip(1) =~= rest);
}

proof fn lemma_ok_count_nonneg<T, E>(outs: Seq<Result<T, E>>)
    ensures
        ok_count(outs) >= 0,
    decreases outs.len(),
{
    if outs.len() > 0 {
        lemma_ok_count_nonneg(outs.skip(1));
    }
}

proof fn lemma_vector_records(body: Seq<Seq<char>>, suffix: Seq<Seq<char>>)
    requires
        body.len() % 4 == 0,
        forall|i: int|
            0 <= i && 4 * i + 3 < body.len() ==> vector_record_decodes(
                #[trigger] body[4 * i],
                body[4 * i + 1],
                body[4 * i + 2],
                body[4 * i + 3],
            ),
    ensures
        ok_count(vector_run(VectorMachineState::WaitingForDate, body + suffix)) == body.len() / 4
            + ok_count(vector_run(VectorMachineState::WaitingForDate, suffix)),
        vector_run(VectorMachineState::WaitingForDate, body + suffix).len() == body.len() / 4
            + vector_run(VectorMachineState::WaitingForDate, suffix).len(),
    decreases body.len(),
{
    let whole = body + suffix;
    if body.len() == 0 {
        assert(whole =~= suffix);
    } else {
        assert(vector_record_decodes(
            body[4 * 0int],
            body[4 * 0int + 1],
            body[4 * 0int + 2],
            body[4 * 0int + 3],
        ));
        assert(vector_record_decodes(body[0], body[1], body[2], body[3]));
        let time = spec_parse_date_time(body[0]);
        let position = spec_decode_triplet(body[1], x_label(), y_label(), z_label())->Ok_0;
        let velocity = spec_decode_triplet(body[2], vx_label(), vy_label(), vz_label())->Ok_0;
        let s1 = VectorMachineState::Date { time };
        let s2 = VectorMachineState::Position { time, position };
        let s3 = VectorMachineState::Complete { time, position, velocity };
        assert(whole[0] == body[0]);
        assert(whole.skip(1)[0] == body[1]);
        assert(whole.skip(1).skip(1) =~= whole.skip(2));
        assert(whole.skip(2)[0] == body[2]);
        assert(whole.skip(2).skip(1) =~= whole.skip(3));
        assert(whole.skip(3)[0] == body[3]);
        assert(whole.skip(3).skip(1) =~= whole.skip(4));
        let item = EphemerisVectorItemView { time, position, velocity };
        assert(vector_run(VectorMachineState::WaitingForDate, whole) == vector_run(
            s1,
            whole.skip(1),
        ));
        assert(vector_run(s1, whole.skip(1)) == vector_run(s2, whole.skip(2)));
        assert(vector_run(s2, whole.skip(2)) == vector_run(s3, whole.skip(3)));
        assert(vector_run(s3, whole.skip(3)) == seq![
            Ok::<EphemerisVectorItemView, MalformedRecordView>(item),
        ] + vector_run(VectorMachineState::WaitingForDate, whole.skip(4)));
        lemma_ok_count_cons(
            Ok(item),
            vector_run(VectorMachineState::WaitingForDate, whole.skip(4)),
        );
        assert(whole.skip(4) =~= body.skip(4) + suffix);
        assert forall|i: int| 0 <= i && 4 * i + 3 < body.skip(4).len() implies vector_record_decodes(
            #[trigger] body.skip(4)[4 * i],
            body.skip(4)[4 * i + 1],
            body.skip(4)[4 * i + 2],
            body.skip(4)[4 * i + 3],
        ) by {
            assert(vector_record_decodes(
                body[4 * (i + 1)],
                body[4 * (i + 1) + 1],
                body[4 * (i + 1) + 2],
                body[4 * (i + 1) + 3],
            ));
            assert(body.skip(4)[4 * i] == body[4 * (i + 1)]);
            assert(body.skip(4)[4 * i + 1] == body[4 * (i + 1) + 1]);
            assert(body.skip(4)[4 * i + 2] == body[4 * (i + 1) + 2]);
            assert(body.skip(4)[4 * i + 3] == body[4 * (i + 1) + 3]);
        }
        lemma_vector_records(body.skip(4), suffix);
    }
}

proof fn lemma_vector_seek_soe(pre: Seq<Seq<char>>, rest: Seq<Seq<char>>)
    requires
        forall|i: int| 0 <= i < pre.len() ==> #[trigger] pre[i] != soe_marker(),
    ensures
        vector_run(VectorMachineState::WaitingForSoe, pre + seq![soe_marker()] + rest)
            == vector_run(VectorMachineState::WaitingForDate, rest),
    decreases pre.len(),
{
    let whole = pre + seq![soe_marker()] + rest;
    if pre.len() == 0 {
        assert(whole[0] == soe_marker());
        assert(whole.skip(1) =~= rest);
    } else {
        assert(whole[0] == pre[0]);
        assert(whole.skip(1) =~= pre.skip(1) + seq![soe_marker()] + rest);
        assert(forall|i: int| 0 <= i < pre.skip(1).len() ==> #[trigger] pre.skip(1)[i]
            != soe_marker());
        lemma_vector_seek_soe(pre.skip(1), rest);
    }
}

/// Lines a machine in state `s` must still consume before it can first
/// yield a record.
pub open spec fn vector_emit_distance(s: VectorMachineState) -> int {
    match s {
        VectorMachineState::Complete { .. } => 1,
        VectorMachineState::Position { .. } => 2,
        VectorMachineState::Date { .. } => 3,
        VectorMachineState::WaitingForDate => 4,
        VectorMachineState::WaitingForSoe => 5,
        VectorMachineState::End => 5,
    }
}

/// Too few lines to complete a record yield no record: the heart of the
/// "an incomplete trailing cycle emits nothing" guarantee.
pub proof fn lemma_vector_no_early_item(s: VectorMachineState, lines: Seq<Seq<char>>)
    requires
        lines.len() < vector_emit_distance(s),
    ensures
        ok_count(vector_run(s, lines)) == 0,
    decreases lines.len(),
{
    if lines.len() > 0 {
        let step = vector_step(s, lines[0]);
        match step.1 {
            Some(out) => {
                assert(out is Err);
                lemma_vector_no_early_item(step.0, lines.skip(1));
                lemma_ok_count_cons(out, vector_run(step.0, lines.skip(1)));
            },
            None => {
                lemma_vector_no_early_item(step.0, lines.skip(1));
            },
        }
    }
}

/// Law: in a vector text block bounded by the `$$SOE` and `$$EOE`
/// sentinels, every complete record — the timestamp line plus its full
/// 3-line cycle of position, velocity and auxiliary lines — yields
/// exactly one item, and nothing else is yielded. `pre` must not hold the
/// start sentinel and each record of `body` must decode; the run then
/// holds `body.len() / 4` outcomes, all of them records.
pub proof fn lemma_vector_block_count(
    pre: Seq<Seq<char>>,
    body: Seq<Seq<char>>,
    tail: Seq<Seq<char>>,
)
    requires
        forall|i: int| 0 <= i < pre.len() ==> #[trigger] pre[i] != soe_marker(),
        body.len() % 4 == 0,
        forall|i: int|
            0 <= i && 4 * i + 3 < body.len() ==> vector_record_decodes(
                #[trigger] body[4 * i],
                body[4 * i + 1],
                body[4 * i + 2],
                body[4 * i + 3],
            ),
    ensures
        ({
            let outs = vector_run(
                VectorMachineState::WaitingForSoe,
                pre + seq![soe_marker()] + body + seq![eoe_marker()] + tail,
            );
            outs.len() == body.len() / 4 && ok_count(outs) == body.len() / 4
        }),
{
    let rest = body + seq![eoe_marker()] + tail;
    assert(pre + seq![soe_marker()] + body + seq![eoe_marker()] + tail =~= pre + seq![soe_marker()]
        + rest);
    lemma_vector_seek_soe(pre, rest);
    let suffix = seq![eoe_marker()] + tail;
    assert(rest =~= body + suffix);
    lemma_vector_records(body, suffix);
    assert(suffix[0] == eoe_marker());
    assert(suffix.skip(1) =~= tail);
    lemma_vector_run_end(tail);
    lemma_ok_count_nonneg(vector_run(VectorMachineState::WaitingForDate, suffix));
}

/// Law: when the input ends before the block does — no `$$EOE`, possibly
/// a record cut off in the middle — every complete record still yields
/// its item and the incomplete trailing record yields none. Only the
/// complete records of `body` are asked to decode.
pub proof fn lemma_vector_truncated_count(pre: Seq<Seq<char>>, body: Seq<Seq<char>>)
    requires
        forall|i: int| 0 <= i < pre.len() ==> #[trigger] pre[i] != soe_marker(),
        forall|i: int|
            0 <= i && 4 * i + 3 < body.len() ==> vector_record_decodes(
                #[trigger] body[4 * i],
                body[4 * i + 1],
                body[4 * i + 2],
                body[4 * i + 3],
            ),
    ensures
        ok_count(vector_run(VectorMachineState::WaitingForSoe, pre + seq![soe_marker()] + body))
            == body.len() / 4,
{
    let full_len = body.len() - body.len() % 4;
    let full = body.take(full_len as int);
    let partial = body.skip(full_len as int);
    lemma_vector_seek_soe(pre, body);
    assert(body =~= full + partial);
    assert forall|i: int| 0 <= i && 4 * i + 3 < full.len() implies vector_record_decodes(
        #[trigger] full[4 * i],
        full[4 * i + 1],
        full[4 * i + 2],
        full[4 * i + 3],
    ) by {
        assert(vector_record_decodes(body[4 * i], body[4 * i + 1], body[4 * i + 2], body[4 * i
            + 3]));
        assert(full[4 * i] == body[4 * i]);
        assert(full[4 * i + 1] == body[4 * i + 1]);
        assert(full[4 * i + 2] == body[4 * i + 2]);
        assert(full[4 * i + 3] == body[4 * i + 3]);
    }
    lemma_vector_records(full, partial);
    lemma_vector_no_early_item(VectorMachineState::WaitingForDate, partial);
}

proof fn lemma_sentinel_is_no_row(l0: Seq<char>, l1: Seq<char>, l2: Seq<char>)
    requires
        l0.len() > 0,
        l0[0] == ' ',
    ensures
        spec_decode_triplet(eoe_marker(), l0, l1, l2) is Err,
{
    if starts_with(eoe_marker(), l0) {
        assert(eoe_marker().take(l0.len() as int)[0] == '$');
    }
}

proof fn lemma_vector_fragment(fragment: Seq<Seq<char>>, tail: Seq<Seq<char>>)
    requires
        fragment.len() < 4,
        fragment.len() > 0 ==> fragment[0] != eoe_marker(),
    ensures
        ok_count(
            vector_run(
                VectorMachineState::WaitingForDate,
                fragment + seq![eoe_marker()] + tail,
            ),
        ) == 0,
{
    let whole = fragment + seq![eoe_marker()] + tail;
    if fragment.len() == 0 {
        assert(whole[0] == eoe_marker());
        assert(whole.skip(1) =~= tail);
        lemma_vector_run_end(tail);
    } else {
        let l0 = fragment[0];
        assert(whole[0] == l0);
        let s1 = VectorMachineState::Date { time: spec_parse_date_time(l0) };
        assert(vector_run(VectorMachineState::WaitingForDate, whole) == vector_run(
            s1,
            whole.skip(1),
        ));
        if fragment.len() == 1 {
            assert(whole.skip(1)[0] == eoe_marker());
            lemma_sentinel_is_no_row(x_label(), y_label(), z_label());
            let step1 = vector_step(s1, eoe_marker());
            match step1.1 {
                Some(out) => {
                    assert(out is Err);
                    assert(whole.skip(1).skip(1) =~= tail);
                    assert(vector_run(s1, whole.skip(1)) == seq![out] + vector_run(step1.0, tail));
                    lemma_vector_run_end(tail);
                    lemma_ok_count_cons(out, vector_run(step1.0, tail));
                },
                None => {
                    assert(false);
                },
            }
        } else {
            let l1 = fragment[1];
            assert(whole.skip(1)[0] == l1);
            let step1 = vector_step(s1, l1);
            assert(whole.skip(1).skip(1) =~= whole.skip(2));
            match step1.1 {
                Some(out) => {
                    // a malformed position line: one error, nothing after
                    assert(out is Err);
                    assert(vector_run(s1, whole.skip(1)) == seq![out] + vector_run(
                        step1.0,
                        whole.skip(2),
                    ));
                    lemma_vector_run_end(whole.skip(2));
                    lemma_ok_count_cons(out, vector_run(step1.0, whole.skip(2)));
                },
                None => {
                    let s2 = step1.0;
                    assert(vector_run(s1, whole.skip(1)) == vector_run(s2, whole.skip(2)));
                    if fragment.len() == 2 {
                        assert(whole.skip(2)[0] == eoe_marker());
                        lemma_sentinel_is_no_row(vx_label(), vy_label(), vz_label());
                        let step2 = vector_step(s2, eoe_marker());
                        match step2.1 {
                            Some(out2) => {
                                assert(out2 is Err);
                                assert(whole.skip(2).skip(1) =~= tail);
                                assert(vector_run(s2, whole.skip(2)) == seq![out2] + vector_run(
                                    step2.0,
                                    tail,
                                ));
                                lemma_vector_run_end(tail);
                                lemma_ok_count_cons(out2, vector_run(step2.0, tail));
                            },
                            None => {
                                assert(false);
                            },
                        }
                    } else {
                        let l2 = fragment[2];
                        assert(whole.skip(2)[0] == l2);
                        let step2 = vector_step(s2, l2);
                        assert(whole.skip(2).skip(1) =~= whole.skip(3));
                        match step2.1 {
                            Some(out2) => {
                                // a malformed velocity line
                                assert(out2 is Err);
                                assert(vector_run(s2, whole.skip(2)) == seq![out2] + vector_run(
                                    step2.0,
                                    whole.skip(3),
                                ));
                                lemma_vector_run_end(whole.skip(3));
                                lemma_ok_count_cons(out2, vector_run(step2.0, whole.skip(3)));
                            },
                            None => {
                                // the record is assembled, but the end
                                // sentinel arrives where the auxiliary
                                // line belongs: nothing is emitted
                                let s3 = step2.0;
                                assert(vector_run(s2, whole.skip(2)) == vector_run(
                                    s3,
                                    whole.skip(3),
                                ));
                                assert(whole.skip(3)[0] == eoe_marker());
                                let step3 = vector_step(s3, eoe_marker());
                                assert(step3.1 is None);
                                assert(whole.skip(3).skip(1) =~= tail);
                                assert(vector_run(s3, whole.skip(3)) == vector_run(
                                    step3.0,
                                    tail,
                                ));
                                lemma_vector_run_end(tail);
                            },
                        }
                    }
                },
            }
        }
    }
}

/// Law: the sentinel-bounded cycle count with an incomplete trailing
/// record allowed. Between the sentinels stand `body.len() / 4` complete
/// records and then a fragment of fewer than four lines (its timestamp
/// line, if any, not being the end sentinel): exactly one item per
/// complete record is emitted and the fragment emits none — also when
/// the end sentinel arrives where the auxiliary line was expected. A
/// fragment cut inside a labeled row surfaces a typed error, which the
/// item count ignores.
pub proof fn lemma_vector_block_trailing_fragment_count(
    pre: Seq<Seq<char>>,
    body: Seq<Seq<char>>,
    fragment: Seq<Seq<char>>,
    tail: Seq<Seq<char>>,
)
    requires
        forall|i: int| 0 <= i < pre.len() ==> #[trigger] pre[i] != soe_marker(),
        body.len() % 4 == 0,
        forall|i: int|
            0 <= i && 4 * i + 3 < body.len() ==> vector_record_decodes(
                #[trigger] body[4 * i],
                body[4 * i + 1],
                body[4 * i + 2],
                body[4 * i + 3],
            ),
        fragment.len() < 4,
        fragment.len() > 0 ==> fragment[0] != eoe_marker(),
    ensures
        ok_count(
            vector_run(
                VectorMachineState::WaitingForSoe,
                pre + seq![soe_marker()] + body + fragment + seq![eoe_marker()] + tail,
            ),
        ) == body.len() / 4,
{
    let suffix = fragment + seq![eoe_marker()] + tail;
    let rest = body + suffix;
    assert(pre + seq![soe_marker()] + body + fragment + seq![eoe_marker()] + tail =~= pre + seq![
        soe_marker(),
    ] + rest);
    lemma_vector_seek_soe(pre, rest);
    lemma_vector_records(body, suffix);
    lemma_vector_fragment(fragment, tail);
}

/// Labels of the first orbital-element row.
pub open spec fn ec_label() -> Seq<char> {
    seq![' ', 'E', 'C', '=']
}

/// See [`ec_label`].
pub open spec fn qr_label() -> Seq<char> {
    seq![' ', 'Q', 'R', '=']
}

/// See [`ec_label`].
pub open spec fn in_label() -> Seq<char> {
    seq![' ', 'I', 'N', '=']
}

/// Labels of the second orbital-element row.
pub open spec fn om_label() -> Seq<char> {
    seq![' ', 'O', 'M', '=']
}

/// See [`om_label`].
pub open spec fn w_label() -> Seq<char> {
    seq![' ', 'W', ' ', '=']
}

/// See [`om_label`].
pub open spec fn tp_label() -> Seq<char> {
    seq![' ', 'T', 'p', '=']
}

/// Labels of the third orbital-element row.
pub open spec fn n_label() -> Seq<char> {
    seq![' ', 'N', ' ', '=']
}

/// See [`n_label`].
pub open spec fn ma_label() -> Seq<char> {
    seq![' ', 'M', 'A', '=']
}

/// See [`n_label`].
pub open spec fn ta_label() -> Seq<char> {
    seq![' ', 'T', 'A', '=']
}

/// Labels of the fourth orbital-element row.
pub open spec fn a_label() -> Seq<char> {
    seq![' ', 'A', ' ', '=']
}

/// See [`a_label`].
pub open spec fn ad_label() -> Seq<char> {
    seq![' ', 'A', 'D', '=']
}

/// See [`a_label`].
pub open spec fn pr_label() -> Seq<char> {
    seq![' ', 'P', 'R', '=']
}

/// Keplerian orbital elements of a body at one timestamp. Units are km,
/// seconds, degrees and Julian day numbers, as the service emits them.
///
/// Every scalar is kept as the exact trimmed field text of the source
/// line; each satisfies the floating-point grammar, so an unverified
/// caller may read them into machine floats.
#[derive(Debug, PartialEq, Eq)]
pub struct EphemerisOrbitalElementsItem {
    /// Timestamp of the entry, when its annotation line held one.
    pub time: Option<DateTime>,
    /// Eccentricity (EC): the roundness of the orbit.
    pub eccentricity: String,
    /// Periapsis distance (QR) in km.
    pub periapsis_distance: String,
    /// Inclination (IN) w.r.t. the X-Y plane, in degrees.
    pub inclination: String,
    /// Longitude of the ascending node (OM) in degrees.
    pub longitude_of_ascending_node: String,
    /// Argument of perifocus (W) in degrees.
    pub argument_of_perifocus: String,
    /// Time of periapsis (Tp) as a Julian day number.
    pub time_of_periapsis: String,
    /// Mean motion (N) in degrees per second.
    pub mean_motion: String,
    /// Mean anomaly (MA) in degrees.
    pub mean_anomaly: String,
    /// True anomaly (TA) in degrees.
    pub true_anomaly: String,
    /// Semi-major axis (A) in km.
    pub semi_major_axis: String,
    /// Apoapsis distance (AD) in km.
    pub apoapsis_distance: String,
    /// Sidereal orbit period (PR) in seconds.
    pub siderral_orbit_period: String,
}

/// The view of an [`EphemerisOrbitalElementsItem`].
pub struct EphemerisOrbitalElementsItemView {
    /// Timestamp of the entry.
    pub time: Option<DateTime>,
    /// Eccentricity text.
    pub eccentricity: Seq<char>,
    /// Periapsis distance text.
    pub periapsis_distance: Seq<char>,
    /// Inclination text.
    pub inclination: Seq<char>,
    /// Longitude of the ascending node text.
    pub longitude_of_ascending_node: Seq<char>,
    /// Argument of perifocus text.
    pub argument_of_perifocus: Seq<char>,
    /// Time of periapsis text.
    pub time_of_periapsis: Seq<char>,
    /// Mean motion text.
    pub mean_motion: Seq<char>,
    /// Mean anomaly text.
    pub mean_anomaly: Seq<char>,
    /// True anomaly text.
    pub true_anomaly: Seq<char>,
    /// Semi-major axis text.
    pub semi_major_axis: Seq<char>,
    /// Apoapsis distance text.
    pub apoapsis_distance: Seq<char>,
    /// Sidereal orbit period text.
    pub siderral_orbit_period: Seq<char>,
}

impl View for EphemerisOrbitalElementsItem {
    type V = EphemerisOrbitalElementsItemView;

    open spec fn view(&self) -> EphemerisOrbitalElementsItemView {
        EphemerisOrbitalElementsItemView {
            time: self.time,
            eccentricity: self.eccentricity@,
            periapsis_distance: self.periapsis_distance@,
            inclination: self.inclination@,
            longitude_of_ascending_node: self.longitude_of_ascending_node@,
            argument_of_perifocus: self.argument_of_perifocus@,
            time_of_periapsis: self.time_of_periapsis@,
            mean_motion: self.mean_motion@,
            mean_anomaly: self.mean_anomaly@,
            true_anomaly: self.true_anomaly@,
            semi_major_axis: self.semi_major_axis@,
            apoapsis_distance: self.apoapsis_distance@,
            siderral_orbit_period: self.siderral_orbit_period@,
        }
    }
}

/// Progress of the orbital-element machine. Each state carries the rows
/// accumulated so far, three field texts per row.
pub enum ElementsMachineState {
    /// Discarding lines until the start sentinel.
    WaitingForSoe,
    /// Before a record: expecting a timestamp line or the end sentinel.
    WaitingForDate,
    /// The timestamp line is consumed; expecting the EC/QR/IN row.
    Date {
        /// The timestamp, when the annotation line held one.
        time: Option<DateTime>,
    },
    /// One row is consumed; expecting the OM/W/Tp row.
    FirstRow {
        /// The timestamp, when the annotation line held one.
        time: Option<DateTime>,
        /// EC, QR and IN texts.
        first: Seq<Seq<char>>,
    },
    /// Two rows are consumed; expecting the N/MA/TA row.
    SecondRow {
        /// The timestamp, when the annotation line held one.
        time: Option<DateTime>,
        /// EC, QR and IN texts.
        first: Seq<Seq<char>>,
        /// OM, W and Tp texts.
        second: Seq<Seq<char>>,
    },
    /// Three rows are consumed; expecting the A/AD/PR row, whose decode
    /// completes the record.
    ThirdRow {
        /// The timestamp, when the annotation line held one.
        time: Option<DateTime>,
        /// EC, QR and IN texts.
        first: Seq<Seq<char>>,
        /// OM, W and Tp texts.
        second: Seq<Seq<char>>,
        /// N, MA and TA texts.
        third: Seq<Seq<char>>,
    },
    /// The end sentinel or a malformed record was seen; nothing more is
    /// ever yielded.
    End,
}

/// The record assembled from the four rows of a cycle.
pub open spec fn elements_item_view(
    time: Option<DateTime>,
    first: Seq<Seq<char>>,
    second: Seq<Seq<char>>,
    third: Seq<Seq<char>>,
    fourth: Seq<Seq<char>>,
) -> EphemerisOrbitalElementsItemView {
    EphemerisOrbitalElementsItemView {
        time,
        eccentricity: first[0],
        periapsis_distance: first[1],
        inclination: first[2],
        longitude_of_ascending_node: second[0],
        argument_of_perifocus: second[1],
        time_of_periapsis: second[2],
        mean_motion: third[0],
        mean_anomaly: third[1],
        true_anomaly: third[2],
        semi_major_axis: fourth[0],
        apoapsis_distance: fourth[1],
        siderral_orbit_period: fourth[2],
    }
}

/// One step of the orbital-element machine, as [`vector_step`] is for the
/// vector machine.
pub open spec fn elements_step(s: ElementsMachineState, line: Seq<char>) -> (
    ElementsMachineState,
    Option<Result<EphemerisOrbitalElementsItemView, MalformedRecordView>>,
) {
    match s {
        ElementsMachineState::WaitingForSoe => (
            if line == soe_marker() {
                ElementsMachineState::WaitingForDate
            } else {
                ElementsMachineState::WaitingForSoe
            },
            None,
        ),
        ElementsMachineState::WaitingForDate => {
            if line == eoe_marker() {
                (ElementsMachineState::End, None)
            } else {
                (ElementsMachineState::Date { time: spec_parse_date_time(line) }, None)
            }
        },
        ElementsMachineState::Date { time } => {
            match spec_decode_triplet(line, ec_label(), qr_label(), in_label()) {
                Ok(first) => (ElementsMachineState::FirstRow { time, first }, None),
                Err(e) => (ElementsMachineState::End, Some(Err(e))),
            }
        },
        ElementsMachineState::FirstRow { time, first } => {
            match spec_decode_triplet(line, om_label(), w_label(), tp_label()) {
                Ok(second) => (ElementsMachineState::SecondRow { time, first, second }, None),
                Err(e) => (ElementsMachineState::End, Some(Err(e))),
            }
        },
        ElementsMachineState::SecondRow { time, first, second } => {
            match spec_decode_triplet(line, n_label(), ma_label(), ta_label()) {
                Ok(third) => (
                    ElementsMachineState::ThirdRow { time, first, second, third },
                    None,
                ),
                Err(e) => (ElementsMachineState::End, Some(Err(e))),
            }
        },
        ElementsMachineState::ThirdRow { time, first, second, third } => {
            match spec_decode_triplet(line, a_label(), ad_label(), pr_label()) {
                Ok(fourth) => (
                    ElementsMachineState::WaitingForDate,
                    Some(Ok(elements_item_view(time, first, second, third, fourth))),
                ),
                Err(e) => (ElementsMachineState::End, Some(Err(e))),
            }
        },
        ElementsMachineState::End => (ElementsMachineState::End, None),
    }
}

/// What one pull from the orbital-element machine does, as
/// [`vector_next_spec`] is for the vector machine.
pub open spec fn elements_next_spec(s: ElementsMachineState, lines: Seq<Seq<char>>) -> (
    ElementsMachineState,
    int,
    Option<Result<EphemerisOrbitalElementsItemView, MalformedRecordView>>,
)
    decreases lines.len(),
{
    if s is End || lines.len() == 0 {
        (s, 0, None)
    } else {
        let step = elements_step(s, lines[0]);
        if step.1 is Some {
            (step.0, 1, step.1)
        } else {
            let rest = elements_next_spec(step.0, lines.skip(1));
            (rest.0, rest.1 + 1, rest.2)
        }
    }
}

enum ElementsState {
    WaitingForSoe,
    WaitingForDate,
    Date { time: Option<DateTime> },
    FirstRow { time: Option<DateTime>, first: Vec<String> },
    SecondRow { time: Option<DateTime>, first: Vec<String>, second: Vec<String> },
    ThirdRow {
        time: Option<DateTime>,
        first: Vec<String>,
        second: Vec<String>,
        third: Vec<String>,
    },
    End,
}

/// The orbital-element ephemeris decoder: a one-shot forward reader over
/// its input lines, restartable only from scratch.
pub struct EphemerisOrbitalElementsParser {
    lines: Vec<String>,
    pos: usize,
    state: ElementsState,
}

impl EphemerisOrbitalElementsParser {
    /// The input lines not yet consumed.
    pub closed spec fn remaining(&self) -> Seq<Seq<char>> {
        self.lines.deep_view().skip(self.pos as int)
    }

    /// The machine's progress state.
    pub closed spec fn machine_state(&self) -> ElementsMachineState {
        match self.state {
            ElementsState::WaitingForSoe => ElementsMachineState::WaitingForSoe,
            ElementsState::WaitingForDate => ElementsMachineState::WaitingForDate,
            ElementsState::Date { time } => ElementsMachineState::Date { time },
            ElementsState::FirstRow { time, first } => ElementsMachineState::FirstRow {
                time,
                first: first.deep_view(),
            },
            ElementsState::SecondRow { time, first, second } => ElementsMachineState::SecondRow {
                time,
                first: first.deep_view(),
                second: second.deep_view(),
            },
            ElementsState::ThirdRow { time, first, second, third } => {
                ElementsMachineState::ThirdRow {
                    time,
                    first: first.deep_view(),
                    second: second.deep_view(),
                    third: third.deep_view(),
                }
            },
            ElementsState::End => ElementsMachineState::End,
        }
    }

    /// The decoder's internal consistency.
    pub closed spec fn wf(&self) -> bool {
        self.pos <= self.lines.len() && match self.state {
            ElementsState::FirstRow { first, .. } => first@.len() == 3,
            ElementsState::SecondRow { first, second, .. } => first@.len() == 3 && second@.len()
                == 3,
            ElementsState::ThirdRow { first, second, third, .. } => first@.len() == 3
                && second@.len() == 3 && third@.len() == 3,
            _ => true,
        }
    }

    /// Creates a decoder over the given lines, still ahead of the start
    /// sentinel.
    pub fn parse(input: Vec<String>) -> (r: Self)
        ensures
            r.wf(),
            r.machine_state() == ElementsMachineState::WaitingForSoe,
            r.remaining() == input.deep_view(),
    {
        let r = EphemerisOrbitalElementsParser {
            lines: input,
            pos: 0,
            state: ElementsState::WaitingForSoe,
        };
        proof {
            assert(r.remaining() =~= r.lines.deep_view());
        }
        r
    }

    /// Pulls the next record, as [`EphemerisVectorParser::next`] does for
    /// vectors; [`elements_next_spec`] states the outcome exactly.
    #[verifier::rlimit(60)]
    pub fn next(&mut self) -> (r: Option<
        Result<EphemerisOrbitalElementsItem, MalformedRecord>,
    >)
        requires
            old(self).wf(),
        ensures
            final(self).wf(),
            ({
                let step = elements_next_spec(old(self).machine_state(), old(self).remaining());
                final(self).machine_state() == step.0 && final(self).remaining() == old(
                    self,
                ).remaining().skip(step.1) && match (r, step.2) {
                    (None, None) => true,
                    (Some(Ok(item)), Some(Ok(itemv))) => item@ == itemv,
                    (Some(Err(err)), Some(Err(errv))) => err@ == errv,
                    _ => false,
                }
            }),
    {
        let ghost st0 = self.machine_state();
        let ghost rem0 = self.remaining();
        let ghost pos0 = self.pos;
        loop
            invariant
                self.wf(),
                pos0 <= self.pos <= self.lines@.len(),
                self.lines == old(self).lines,
                st0 == old(self).machine_state(),
                rem0 == old(self).remaining(),
                pos0 == old(self).pos,
                self.remaining() == rem0.skip(self.pos - pos0),
                elements_next_spec(st0, rem0) == ({
                    let rest = elements_next_spec(self.machine_state(), self.remaining());
                    (rest.0, rest.1 + self.pos - pos0, rest.2)
                }),
            decreases self.lines@.len() - self.pos,
        {
            if self.pos == self.lines.len() {
                proof {
                    assert(self.remaining().len() == 0);
                }
                return None;
            }
            if matches!(self.state, ElementsState::End) {
                return None;
            }
            let ghost pre_state = self.machine_state();
            let ghost pre_rem = self.remaining();
            let line: String = self.lines[self.pos].clone();
            self.pos = self.pos + 1;
            proof {
                assert(pre_rem[0] == line@);
                assert(self.remaining() =~= pre_rem.skip(1));
            }
            let mut st = ElementsState::End;
            core::mem::swap(&mut st, &mut self.state);
            match st {
                ElementsState::WaitingForSoe => {
                    let is_soe = str_eq(line.as_str(), "$$SOE");
                    proof {
                        reveal_strlit("$$SOE");
                        assert("$$SOE"@ =~= soe_marker());
                    }
                    if is_soe {
                        self.state = ElementsState::WaitingForDate;
                    } else {
                        self.state = ElementsState::WaitingForSoe;
                    }
                    proof {
                        assert(elements_step(pre_state, line@).0 == self.machine_state());
                        assert(elements_step(pre_state, line@).1 is None);
                    }
                },
                ElementsState::WaitingForDate => {
                    let is_eoe = str_eq(line.as_str(), "$$EOE");
                    proof {
                        reveal_strlit("$$EOE");
                        assert("$$EOE"@ =~= eoe_marker());
                    }
                    if is_eoe {
                        self.state = ElementsState::End;
                    } else {
                        let time = parse_date_time(line.as_str());
                        self.state = ElementsState::Date { time };
                    }
                    proof {
                        assert(elements_step(pre_state, line@).0 == self.machine_state());
                        assert(elements_step(pre_state, line@).1 is None);
                    }
                },
                ElementsState::Date { time } => {
                    let parsed = parse_labeled_triplet(line.as_str(), " EC=", " QR=", " IN=");
                    proof {
                        reveal_strlit(" EC=");
                        reveal_strlit(" QR=");
                        reveal_strlit(" IN=");
                        assert(" EC="@ =~= ec_label());
                        assert(" QR="@ =~= qr_label());
                        assert(" IN="@ =~= in_label());
                    }
                    match parsed {
                        Ok(first) => {
                            self.state = ElementsState::FirstRow { time, first };
                            proof {
                                assert(elements_step(pre_state, line@).0 == self.machine_state());
                                assert(elements_step(pre_state, line@).1 is None);
                            }
                        },
                        Err(e) => {
                            self.state = ElementsState::End;
                            proof {
                                assert(elements_step(pre_state, line@) == (
                                    ElementsMachineState::End,
                                    Some(
                                        Err::<EphemerisOrbitalElementsItemView, MalformedRecordView>(
                                            e@,
                                        ),
                                    ),
                                ));
                            }
                            return Some(Err(e));
                        },
                    }
                },
                ElementsState::FirstRow { time, first } => {
                    let parsed = parse_labeled_triplet(line.as_str(), " OM=", " W =", " Tp=");
                    proof {
                        reveal_strlit(" OM=");
                        reveal_strlit(" W =");
                        reveal_strlit(" Tp=");
                        assert(" OM="@ =~= om_label());
                        assert(" W ="@ =~= w_label());
                        assert(" Tp="@ =~= tp_label());
                    }
                    match parsed {
                        Ok(second) => {
                            self.state = ElementsState::SecondRow { time, first, second };
                            proof {
                                assert(elements_step(pre_state, line@).0 == self.machine_state());
                                assert(elements_step(pre_state, line@).1 is None);
                            }
                        },
                        Err(e) => {
                            self.state = ElementsState::End;
                            proof {
                                assert(elements_step(pre_state, line@) == (
                                    ElementsMachineState::End,
                                    Some(
                                        Err::<EphemerisOrbitalElementsItemView, MalformedRecordView>(
                                            e@,
                                        ),
                                    ),
                                ));
                            }
                            return Some(Err(e));
                        },
                    }
                },
                ElementsState::SecondRow { time, first, second } => {
                    let parsed = parse_labeled_triplet(line.as_str(), " N =", " MA=", " TA=");
                    proof {
                        reveal_strlit(" N =");
                        reveal_strlit(" MA=");
                        reveal_strlit(" TA=");
                        assert(" N ="@ =~= n_label());
                        assert(" MA="@ =~= ma_label());
                        assert(" TA="@ =~= ta_label());
                    }
                    match parsed {
                        Ok(third) => {
                            self.state = ElementsState::ThirdRow { time, first, second, third };
                            proof {
                                assert(elements_step(pre_state, line@).0 == self.machine_state());
                                assert(elements_step(pre_state, line@).1 is None);
                            }
                        },
                        Err(e) => {
                            self.state = ElementsState::End;
                            proof {
                                assert(elements_step(pre_state, line@) == (
                                    ElementsMachineState::End,
                                    Some(
                                        Err::<EphemerisOrbitalElementsItemView, MalformedRecordView>(
                                            e@,
                                        ),
                                    ),
                                ));
                            }
                            return Some(Err(e));
                        },
                    }
                },
                ElementsState::ThirdRow { time, first, second, third } => {
                    let parsed = parse_labeled_triplet(line.as_str(), " A =", " AD=", " PR=");
                    proof {
                        reveal_strlit(" A =");
                        reveal_strlit(" AD=");
                        reveal_strlit(" PR=");
                        assert(" A ="@ =~= a_label());
                        assert(" AD="@ =~= ad_label());
                        assert(" PR="@ =~= pr_label());
                    }
                    match parsed {
                        Ok(fourth) => {
                            self.state = ElementsState::WaitingForDate;
                            let item = EphemerisOrbitalElementsItem {
                                time,
                                eccentricity: first[0].clone(),
                                periapsis_distance: first[1].clone(),
                                inclination: first[2].clone(),
                                longitude_of_ascending_node: second[0].clone(),
                                argument_of_perifocus: second[1].clone(),
                                time_of_periapsis: second[2].clone(),
                                mean_motion: third[0].clone(),
                                mean_anomaly: third[1].clone(),
                                true_anomaly: third[2].clone(),
                                semi_major_axis: fourth[0].clone(),
                                apoapsis_distance: fourth[1].clone(),
                                siderral_orbit_period: fourth[2].clone(),
                            };
                            proof {
                                assert(item@ == elements_item_view(
                                    time,
                                    first.deep_view(),
                                    second.deep_view(),
                                    third.deep_view(),
                                    fourth.deep_view(),
                                ));
                                assert(elements_step(pre_state, line@) == (
                                    ElementsMachineState::WaitingForDate,
                                    Some(
                                        Ok::<EphemerisOrbitalElementsItemView, MalformedRecordView>(
                                            item@,
                                        ),
                                    ),
                                ));
                            }
                            return Some(Ok(item));
                        },
                        Err(e) => {
                            self.state = ElementsState::End;
                            proof {
                                assert(elements_step(pre_state, line@) == (
                                    ElementsMachineState::End,
                                    Some(
                                        Err::<EphemerisOrbitalElementsItemView, MalformedRecordView>(
                                            e@,
                                        ),
                                    ),
                                ));
                            }
                            return Some(Err(e));
                        },
                    }
                },
                ElementsState::End => {
                    proof {
                        assert(false);
                    }
                    return None;
                },
            }
        }
    }
}

/// Everything the orbital-element machine yields over a whole line
/// sequence, in order.
pub open spec fn elements_run(s: ElementsMachineState, lines: Seq<Seq<char>>) -> Seq<
    Result<EphemerisOrbitalElementsItemView, MalformedRecordView>,
>
    decreases lines.len(),
{
    if lines.len() == 0 {
        seq![]
    } else {
        let step = elements_step(s, lines[0]);
        match step.1 {
            None => elements_run(step.0, lines.skip(1)),
            Some(x) => seq![x] + elements_run(step.0, lines.skip(1)),
        }
    }
}

/// A pull consumes between zero lines and the whole input.
pub proof fn lemma_elements_next_consumed(s: ElementsMachineState, lines: Seq<Seq<char>>)
    ensures
        0 <= elements_next_spec(s, lines).1 <= lines.len(),
    decreases lines.len(),
{
    if !(s is End) && lines.len() > 0 {
        let step = elements_step(s, lines[0]);
        if step.1 is None {
            lemma_elements_next_consumed(step.0, lines.skip(1));
        }
    }
}

/// Law: pulling records one by one enumerates exactly the outcomes of the
/// whole run, as [`lemma_vector_run_unfolds_by_next`] states for the
/// vector machine.
pub proof fn lemma_elements_run_unfolds_by_next(s: ElementsMachineState, lines: Seq<Seq<char>>)
    ensures
        ({
            let step = elements_next_spec(s, lines);
            elements_run(s, lines) == match step.2 {
                None => Seq::<
                    Result<EphemerisOrbitalElementsItemView, MalformedRecordView>,
                >::empty(),
                Some(x) => seq![x] + elements_run(step.0, lines.skip(step.1)),
            }
        }),
    decreases lines.len(),
{
    if s is End {
        lemma_elements_run_end(lines);
    } else if lines.len() == 0 {
        assert(elements_run(s, lines) =~= Seq::<
            Result<EphemerisOrbitalElementsItemView, MalformedRecordView>,
        >::empty());
    } else {
        let step = elements_step(s, lines[0]);
        if step.1 is Some {
            assert(lines.skip(1) =~= lines.skip(1));
        } else {
            lemma_elements_run_unfolds_by_next(step.0, lines.skip(1));
            lemma_elements_next_consumed(step.0, lines.skip(1));
            let inner = elements_next_spec(step.0, lines.skip(1));
            assert(lines.skip(1).skip(inner.1) =~= lines.skip(inner.1 + 1));
        }
    }
}

/// A machine that has ended yields nothing more, whatever still follows.
pub proof fn lemma_elements_run_end(lines: Seq<Seq<char>>)
    ensures
        elements_run(ElementsMachineState::End, lines) == Seq::<
            Result<EphemerisOrbitalElementsItemView, MalformedRecordView>,
        >::empty(),
    decreases lines.len(),
{
    if lines.len() > 0 {
        lemma_elements_run_end(lines.skip(1));
    }
}

/// One record of the orbital-element format decodes: its timestamp line
/// is not the end sentinel and all four rows carry their labels and
/// numeric fields.
pub open spec fn elements_record_decodes(
    date: Seq<char>,
    row1: Seq<char>,
    row2: Seq<char>,
    row3: Seq<char>,
    row4: Seq<char>,
) -> bool {
    date != eoe_marker() && spec_decode_triplet(row1, ec_label(), qr_label(), in_label()) is Ok
        && spec_decode_triplet(row2, om_label(), w_label(), tp_label()) is Ok
        && spec_decode_triplet(row3, n_label(), ma_label(), ta_label()) is Ok
        && spec_decode_triplet(row4, a_label(), ad_label(), pr_label()) is Ok
}

#[verifier::rlimit(60)]
#[verifier::spinoff_prover]
proof fn lemma_elements_records(body: Seq<Seq<char>>, suffix: Seq<Seq<char>>)
    requires
        body.len() % 5 == 0,
        forall|i: int|
            0 <= i && 5 * i + 4 < body.len() ==> elements_record_decodes(
                #[trigger] body[5 * i],
                body[5 * i + 1],
                body[5 * i + 2],
                body[5 * i + 3],
                body[5 * i + 4],
            ),
    ensures
        ok_count(elements_run(ElementsMachineState::WaitingForDate, body + suffix)) == body.len()
            / 5 + ok_count(elements_run(ElementsMachineState::WaitingForDate, suffix)),
        elements_run(ElementsMachineState::WaitingForDate, body + suffix).len() == body.len() / 5
            + elements_run(ElementsMachineState::WaitingForDate, suffix).len(),
    decreases body.len(),
{
    let whole = body + suffix;
    if body.len() == 0 {
        assert(whole =~= suffix);
    } else {
        assert(elements_record_decodes(
            body[5 * 0int],
            body[5 * 0int + 1],
            body[5 * 0int + 2],
            body[5 * 0int + 3],
            body[5 * 0int + 4],
        ));
        let time = spec_parse_date_time(body[0]);
        let first = spec_decode_triplet(body[1], ec_label(), qr_label(), in_label())->Ok_0;
        let second = spec_decode_triplet(body[2], om_label(), w_label(), tp_label())->Ok_0;
        let third = spec_decode_triplet(body[3], n_label(), ma_label(), ta_label())->Ok_0;
        let fourth = spec_decode_triplet(body[4], a_label(), ad_label(), pr_label())->Ok_0;
        let s1 = ElementsMachineState::Date { time };
        let s2 = ElementsMachineState::FirstRow { time, first };
        let s3 = ElementsMachineState::SecondRow { time, first, second };
        let s4 = ElementsMachineState::ThirdRow { time, first, second, third };
        assert(whole[0] == body[0]);
        assert(whole.skip(1)[0] == body[1]);
        assert(whole.skip(1).skip(1) =~= whole.skip(2));
        assert(whole.skip(2)[0] == body[2]);
        assert(whole.skip(2).skip(1) =~= whole.skip(3));
        assert(whole.skip(3)[0] == body[3]);
        assert(whole.skip(3).skip(1) =~= whole.skip(4));
        assert(whole.skip(4)[0] == body[4]);
        assert(whole.skip(4).skip(1) =~= whole.skip(5));
        let item = elements_item_view(time, first, second, third, fourth);
        assert(elements_run(ElementsMachineState::WaitingForDate, whole) == elements_run(
            s1,
            whole.skip(1),
        ));
        assert(elements_run(s1, whole.skip(1)) == elements_run(s2, whole.skip(2)));
        assert(elements_run(s2, whole.skip(2)) == elements_run(s3, whole.skip(3)));
        assert(elements_run(s3, whole.skip(3)) == elements_run(s4, whole.skip(4)));
        assert(elements_run(s4, whole.skip(4)) == seq![
            Ok::<EphemerisOrbitalElementsItemView, MalformedRecordView>(item),
        ] + elements_run(ElementsMachineState::WaitingForDate, whole.skip(5)));
        lemma_ok_count_cons(
            Ok::<EphemerisOrbitalElementsItemView, MalformedRecordView>(item),
            elements_run(ElementsMachineState::WaitingForDate, whole.skip(5)),
        );
        assert(whole.skip(5) =~= body.skip(5) + suffix);
        assert forall|i: int|
            0 <= i && 5 * i + 4 < body.skip(5).len() implies elements_record_decodes(
            #[trigger] body.skip(5)[5 * i],
            body.skip(5)[5 * i + 1],
            body.skip(5)[5 * i + 2],
            body.skip(5)[5 * i + 3],
            body.skip(5)[5 * i + 4],
        ) by {
            assert(elements_record_decodes(
                body[5 * (i + 1)],
                body[5 * (i + 1) + 1],
                body[5 * (i + 1) + 2],
                body[5 * (i + 1) + 3],
                body[5 * (i + 1) + 4],
            ));
            assert(body.skip(5)[5 * i] == body[5 * (i + 1)]);
            assert(body.skip(5)[5 * i + 1] == body[5 * (i + 1) + 1]);
            assert(body.skip(5)[5 * i + 2] == body[5 * (i + 1) + 2]);
            assert(body.skip(5)[5 * i + 3] == body[5 * (i + 1) + 3]);
            assert(body.skip(5)[5 * i + 4] == body[5 * (i + 1) + 4]);
        }
        lemma_elements_records(body.skip(5), suffix);
    }
}

proof fn lemma_elements_seek_soe(pre: Seq<Seq<char>>, rest: Seq<Seq<char>>)
    requires
        forall|i: int| 0 <= i < pre.len() ==> #[trigger] pre[i] != soe_marker(),
    ensures
        elements_run(ElementsMachineState::WaitingForSoe, pre + seq![soe_marker()] + rest)
            == elements_run(ElementsMachineState::WaitingForDate, rest),
    decreases pre.len(),
{
    let whole = pre + seq![soe_marker()] + rest;
    if pre.len() == 0 {
        assert(whole[0] == soe_marker());
        assert(whole.skip(1) =~= rest);
    } else {
        assert(whole[0] == pre[0]);
        assert(whole.skip(1) =~= pre.skip(1) + seq![soe_marker()] + rest);
        assert(forall|i: int| 0 <= i < pre.skip(1).len() ==> #[trigger] pre.skip(1)[i]
            != soe_marker());
        lemma_elements_seek_soe(pre.skip(1), rest);
    }
}

/// Lines a machine in state `s` must still consume before it can first
/// yield a record.
pub open spec fn elements_emit_distance(s: ElementsMachineState) -> int {
    match s {
        ElementsMachineState::ThirdRow { .. } => 1,
        ElementsMachineState::SecondRow { .. } => 2,
        ElementsMachineState::FirstRow { .. } => 3,
        ElementsMachineState::Date { .. } => 4,
        ElementsMachineState::WaitingForDate => 5,
        ElementsMachineState::WaitingForSoe => 6,
        ElementsMachineState::End => 6,
    }
}

/// Too few lines to complete a record yield no record, as
/// [`lemma_vector_no_early_item`] states for the vector machine.
pub proof fn lemma_elements_no_early_item(s: ElementsMachineState, lines: Seq<Seq<char>>)
    requires
        lines.len() < elements_emit_distance(s),
    ensures
        ok_count(elements_run(s, lines)) == 0,
    decreases lines.len(),
{
    if lines.len() > 0 {
        let step = elements_step(s, lines[0]);
        match step.1 {
            Some(out) => {
                assert(out is Err);
                lemma_elements_no_early_item(step.0, lines.skip(1));
                lemma_ok_count_cons(out, elements_run(step.0, lines.skip(1)));
            },
            None => {
                lemma_elements_no_early_item(step.0, lines.skip(1));
            },
        }
    }
}

/// Law: in an orbital-element text block bounded by the `$$SOE` and
/// `$$EOE` sentinels, every complete record — the timestamp line plus its
/// four element rows — yields exactly one item, and nothing else is
/// yielded.
pub proof fn lemma_elements_block_count(
    pre: Seq<Seq<char>>,
    body: Seq<Seq<char>>,
    tail: Seq<Seq<char>>,
)
    requires
        forall|i: int| 0 <= i < pre.len() ==> #[trigger] pre[i] != soe_marker(),
        body.len() % 5 == 0,
        forall|i: int|
            0 <= i && 5 * i + 4 < body.len() ==> elements_record_decodes(
                #[trigger] body[5 * i],
                body[5 * i + 1],
                body[5 * i + 2],
                body[5 * i + 3],
                body[5 * i + 4],
            ),
    ensures
        ({
            let outs = elements_run(
                ElementsMachineState::WaitingForSoe,
                pre + seq![soe_marker()] + body + seq![eoe_marker()] + tail,
            );
            outs.len() == body.len() / 5 && ok_count(outs) == body.len() / 5
        }),
{
    let rest = body + seq![eoe_marker()] + tail;
    assert(pre + seq![soe_marker()] + body + seq![eoe_marker()] + tail =~= pre + seq![soe_marker()]
        + rest);
    lemma_elements_seek_soe(pre, rest);
    let suffix = seq![eoe_marker()] + tail;
    assert(rest =~= body + suffix);
    lemma_elements_records(body, suffix);
    assert(suffix[0] == eoe_marker());
    assert(suffix.skip(1) =~= tail);
    lemma_elements_run_end(tail);
    lemma_ok_count_nonneg(elements_run(ElementsMachineState::WaitingForDate, suffix));
}

/// Law: when the input ends before the block does, every complete record
/// still yields its item and the incomplete trailing record yields none.
pub proof fn lemma_elements_truncated_count(pre: Seq<Seq<char>>, body: Seq<Seq<char>>)
    requires
        forall|i: int| 0 <= i < pre.len() ==> #[trigger] pre[i] != soe_marker(),
        forall|i: int|
            0 <= i && 5 * i + 4 < body.len() ==> elements_record_decodes(
                #[trigger] body[5 * i],
                body[5 * i + 1],
                body[5 * i + 2],
                body[5 * i + 3],
                body[5 * i + 4],
            ),
    ensures
        ok_count(
            elements_run(ElementsMachineState::WaitingForSoe, pre + seq![soe_marker()] + body),
        ) == body.len() / 5,
{
    let full_len = body.len() - body.len() % 5;
    let full = body.take(full_len as int);
    let partial = body.skip(full_len as int);
    lemma_elements_seek_soe(pre, body);
    assert(body =~= full + partial);
    assert forall|i: int| 0 <= i && 5 * i + 4 < full.len() implies elements_record_decodes(
        #[trigger] full[5 * i],
        full[5 * i + 1],
        full[5 * i + 2],
        full[5 * i + 3],
        full[5 * i + 4],
    ) by {
        assert(elements_record_decodes(
            body[5 * i],
            body[5 * i + 1],
            body[5 * i + 2],
            body[5 * i + 3],
            body[5 * i + 4],
        ));
        assert(full[5 * i] == body[5 * i]);
        assert(full[5 * i + 1] == body[5 * i + 1]);
        assert(full[5 * i + 2] == body[5 * i + 2]);
        assert(full[5 * i + 3] == body[5 * i + 3]);
        assert(full[5 * i + 4] == body[5 * i + 4]);
    }
    lemma_elements_records(full, partial);
    lemma_elements_no_early_item(ElementsMachineState::WaitingForDate, partial);
}

} // verus!
