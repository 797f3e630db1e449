//! The earlier, position-only ephemeris decoder, kept alongside the full
//! vector machine: it reads the same 3-line cycles but surfaces only the
//! position row, discarding the timestamp, velocity and auxiliary lines.

use vstd::prelude::*;

pub use crate::major_bodies::MajorBody;
pub use crate::major_bodies::MajorBodyParseError;
pub use crate::utilities::take_or_empty;

verus! {

use vstd::string::StrSliceExecFns;
use vstd::string::StringExecFns;
use crate::ephemeris::MalformedRecord;
use crate::ephemeris::MalformedRecordView;
use crate::ephemeris::eoe_marker;
use crate::ephemeris::parse_labeled_triplet;
use crate::ephemeris::soe_marker;
use crate::ephemeris::spec_decode_triplet;
use crate::ephemeris::x_label;
use crate::ephemeris::y_label;
use crate::ephemeris::z_label;
use crate::text::str_eq;

/// Position of a body at one (discarded) timestamp: the exact trimmed
/// texts of the X, Y and Z fields, each numeric.
#[derive(Debug, PartialEq, Eq)]
pub struct EphemerisItem {
    /// The position component texts, in km.
    pub position: Vec<String>,
}

/// The view of an [`EphemerisItem`].
pub struct EphemerisItemView {
    /// The position component texts.
    pub position: Seq<Seq<char>>,
}

impl View for EphemerisItem {
    type V = EphemerisItemView;

    open spec fn view(&self) -> EphemerisItemView {
        EphemerisItemView { position: self.position.deep_view() }
    }
}

/// Progress of the position-only machine.
pub enum EphemerisMachineState {
    /// Discarding lines until the start sentinel.
    WaitingForSoe,
    /// Before a record: expecting a timestamp line or the end sentinel.
    /// The timestamp's content is not kept.
    Date,
    /// Expecting the position line.
    Position,
    /// Expecting the velocity line, whose content is discarded unread —
    /// unless it is the end sentinel, which closes the region and drops
    /// the record as incomplete.
    Velocity {
        /// The position component texts.
        position: Seq<Seq<char>>,
    },
    /// Expecting the auxiliary line, whose content is discarded unread;
    /// its consumption emits the record. The end sentinel instead closes
    /// the region and drops the record as incomplete.
    Other {
        /// The position component texts.
        position: Seq<Seq<char>>,
    },
    /// The end sentinel or a malformed record was seen.
    End,
}

/// One step of the position-only machine.
pub open spec fn ephemeris_step(s: EphemerisMachineState, line: Seq<char>) -> (
    EphemerisMachineState,
    Option<Result<EphemerisItemView, MalformedRecordView>>,
) {
    match s {
        EphemerisMachineState::WaitingForSoe => (
            if line == soe_marker() {
                EphemerisMachineState::Date
            } else {
                EphemerisMachineState::WaitingForSoe
            },
            None,
        ),
        EphemerisMachineState::Date => {
            if line == eoe_marker() {
                (EphemerisMachineState::End, None)
            } else {
                (EphemerisMachineState::Position, None)
            }
        },
        EphemerisMachineState::Position => {
            match spec_decode_triplet(line, x_label(), y_label(), z_label()) {
                Ok(position) => (EphemerisMachineState::Velocity { position }, None),
                Err(e) => (EphemerisMachineState::End, Some(Err(e))),
            }
        },
        EphemerisMachineState::Velocity { position } => {
            if line == eoe_marker() {
                (EphemerisMachineState::End, None)
            } else {
                (EphemerisMachineState::Other { position }, None)
            }
        },
        EphemerisMachineState::Other { position } => {
            if line == eoe_marker() {
                (EphemerisMachineState::End, None)
            } else {
                (EphemerisMachineState::Date, Some(Ok(EphemerisItemView { position })))
            }
        },
        EphemerisMachineState::End => (EphemerisMachineState::End, None),
    }
}

/// What one pull from the position-only machine does.
pub open spec fn ephemeris_next_spec(s: EphemerisMachineState, lines: Seq<Seq<char>>) -> (
    EphemerisMachineState,
    int,
    Option<Result<EphemerisItemView, MalformedRecordView>>,
)
    decreases lines.len(),
{
    if s is End || lines.len() == 0 {
        (s, 0, None)
    } else {
        let step = ephemeris_step(s, lines[0]);
        if step.1 is Some {
            (step.0, 1, step.1)
        } else {
            let rest = ephemeris_next_spec(step.0, lines.skip(1));
            (rest.0, rest.1 + 1, rest.2)
        }
    }
}

enum EphemerisState {
    WaitingForSoe,
    Date,
    Position,
    Velocity { position: Vec<String> },
    Other { position: Vec<String> },
    End,
}

/// The position-only ephemeris decoder: a one-shot forward reader over
/// its input lines.
pub struct EphemerisParser {
    lines: Vec<String>,
    pos: usize,
    state: EphemerisState,
}

impl EphemerisParser {
    /// The input lines not yet consumed.
    pub closed spec fn remaining(&self) -> Seq<Seq<char>> {
        self.lines.deep_view().skip(self.pos as int)
    }

    /// The machine's progress state.
    pub closed spec fn machine_state(&self) -> EphemerisMachineState {
        match self.state {
            EphemerisState::WaitingForSoe => EphemerisMachineState::WaitingForSoe,
            EphemerisState::Date => EphemerisMachineState::Date,
            EphemerisState::Position => EphemerisMachineState::Position,
            EphemerisState::Velocity { position } => EphemerisMachineState::Velocity {
                position: position.deep_view(),
            },
            EphemerisState::Other { position } => EphemerisMachineState::Other {
                position: position.deep_view(),
            },
            EphemerisState::End => EphemerisMachineState::End,
        }
    }

    /// The decoder's internal consistency.
    pub closed spec fn wf(&self) -> bool {
        self.pos <= self.lines.len() && match self.state {
            EphemerisState::Velocity { position } => position@.len() == 3,
            EphemerisState::Other { position } => position@.len() == 3,
            _ => true,
        }
    }

    /// Creates a decoder over the given lines, still ahead of the start
    /// sentinel.
    pub fn parse(input: Vec<String>) -> (r: Self)
        ensures
            r.wf(),
            r.machine_state() == EphemerisMachineState::WaitingForSoe,
            r.remaining() == input.deep_view(),
    {
        let r = EphemerisParser { lines: input, pos: 0, state: EphemerisState::WaitingForSoe };
        proof {
            assert(r.remaining() =~= r.lines.deep_view());
        }
        r
    }

    /// Pulls the next record; [`ephemeris_next_spec`] states the outcome
    /// exactly.
    pub fn next(&mut self) -> (r: Option<Result<EphemerisItem, MalformedRecord>>)
        requires
            old(self).wf(),
        ensures
            final(self).wf(),
            ({
                let step = ephemeris_next_spec(old(self).machine_state(), old(self).remaining());
                final(self).machine_state() == step.0 && final(self).remaining() == old(
                    self,
                ).remaining().skip(step.1) && match (r, step.2) {
                    (None, None) => true,
                    (Some(Ok(item)), Some(Ok(itemv))) => item@ == itemv,
                    (Some(Err(err)), Some(Err(errv))) => err@ == errv,
                    _ => false,
                }
            }),
    {
        let ghost st0 = self.machine_state();
        let ghost rem0 = self.remaining();
        let ghost pos0 = self.pos;
        loop
            invariant
                self.wf(),
                pos0 <= self.pos <= self.lines@.len(),
                self.lines == old(self).lines,
                st0 == old(self).machine_state(),
                rem0 == old(self).remaining(),
                pos0 == old(self).pos,
                self.remaining() == rem0.skip(self.pos - pos0),
                ephemeris_next_spec(st0, rem0) == ({
                    let rest = ephemeris_next_spec(self.machine_state(), self.remaining());
                    (rest.0, rest.1 + self.pos - pos0, rest.2)
                }),
            decreases self.lines@.len() - self.pos,
        {
            if self.pos == self.lines.len() {
                proof {
                    assert(self.remaining().len() == 0);
                }
                return None;
            }
            if matches!(self.state, EphemerisState::End) {
                return None;
            }
            let ghost pre_state = self.machine_state();
            let ghost pre_rem = self.remaining();
            let line: String = self.lines[self.pos].clone();
            self.pos = self.pos + 1;
            proof {
                assert(pre_rem[0] == line@);
                assert(self.remaining() =~= pre_rem.skip(1));
            }
            let mut st = EphemerisState::End;
            core::mem::swap(&mut st, &mut self.state);
            match st {
                EphemerisState::WaitingForSoe => {
                    let is_soe = str_eq(line.as_str(), "$$SOE");
                    proof {
                        reveal_strlit("$$SOE");
                        assert("$$SOE"@ =~= soe_marker());
                    }
                    if is_soe {
                        self.state = EphemerisState::Date;
                    } else {
                        self.state = EphemerisState::WaitingForSoe;
                    }
                    proof {
                        assert(ephemeris_step(pre_state, line@).0 == self.machine_state());
                        assert(ephemeris_step(pre_state, line@).1 is None);
                    }
                },
                EphemerisState::Date => {
                    let is_eoe = str_eq(line.as_str(), "$$EOE");
                    proof {
                        reveal_strlit("$$EOE");
                        assert("$$EOE"@ =~= eoe_marker());
                    }
                    if is_eoe {
                        self.state = EphemerisState::End;
                    } else {
                        self.state = EphemerisState::Position;
                    }
                    proof {
                        assert(ephemeris_step(pre_state, line@).0 == self.machine_state());
                        assert(ephemeris_step(pre_state, line@).1 is None);
                    }
                },
                EphemerisState::Position => {
                    let parsed = parse_labeled_triplet(line.as_str(), " X =", " Y =", " Z =");
                    proof {
                        reveal_strlit(" X =");
                        reveal_strlit(" Y =");
                        reveal_strlit(" Z =");
                        assert(" X ="@ =~= x_label());
                        assert(" Y ="@ =~= y_label());
                        assert(" Z ="@ =~= z_label());
                    }
                    match parsed {
                        Ok(position) => {
                            self.state = EphemerisState::Velocity { position };
                            proof {
                                assert(ephemeris_step(pre_state, line@).0 == self.machine_state());
                                assert(ephemeris_step(pre_state, line@).1 is None);
                            }
                        },
                        Err(e) => {
                            self.state = EphemerisState::End;
                            proof {
                                assert(ephemeris_step(pre_state, line@) == (
                                    EphemerisMachineState::End,
                                    Some(Err::<EphemerisItemView, MalformedRecordView>(e@)),
                                ));
                            }
                            return Some(Err(e));
                        },
                    }
                },
                EphemerisState::Velocity { position } => {
                    let is_eoe = str_eq(line.as_str(), "$$EOE");
                    proof {
                        reveal_strlit("$$EOE");
                        assert("$$EOE"@ =~= eoe_marker());
                    }
                    if is_eoe {
                        // The end sentinel stands where the velocity line
                        // belongs: the record is dropped as incomplete.
                        self.state = EphemerisState::End;
                    } else {
                        // The velocity line's content is discarded unread.
                        self.state = EphemerisState::Other { position };
                    }
                    proof {
                        assert(ephemeris_step(pre_state, line@).0 == self.machine_state());
                        assert(ephemeris_step(pre_state, line@).1 is None);
                    }
                },
                EphemerisState::Other { position } => {
                    let is_eoe = str_eq(line.as_str(), "$$EOE");
                    proof {
                        reveal_strlit("$$EOE");
                        assert("$$EOE"@ =~= eoe_marker());
                    }
                    if is_eoe {
                        // The end sentinel stands where the auxiliary line
                        // belongs: the record is dropped as incomplete.
                        self.state = EphemerisState::End;
                        proof {
                            assert(ephemeris_step(pre_state, line@).0 == self.machine_state());
                            assert(ephemeris_step(pre_state, line@).1 is None);
                        }
                    } else {
                        // The auxiliary line's content is discarded unread,
                        // and its consumption emits the record.
                        self.state = EphemerisState::Date;
                        let item = EphemerisItem { position };
                        proof {
                            assert(ephemeris_step(pre_state, line@) == (
                                EphemerisMachineState::Date,
                                Some(Ok::<EphemerisItemView, MalformedRecordView>(item@)),
                            ));
                        }
                        return Some(Ok(item));
                    }
                },
                EphemerisState::End => {
                    proof {
                        assert(false);
                    }
                    return None;
                },
            }
        }
    }
}

} // verus!
