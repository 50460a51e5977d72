//! Puzzles: pieces with state that react to player input.

use vstd::prelude::*;
use crate::controller::puzzle::area::{PlayerStateCondition, equivalent};

pub mod action;
pub mod area;
pub mod state_machine;

verus! {

/// A value a puzzle variable holds.
#[derive(Copy, Clone, Debug, PartialEq, Eq)]
pub enum Value {
    Bool(bool),
    Num(u32),
}

impl Value {
    /// The value read as a boolean: numbers are true when non-zero.
    pub open spec fn spec_to_bool(self) -> bool {
        match self {
            Value::Bool(b) => b,
            Value::Num(n) => n != 0,
        }
    }

    /// The value read as a number: booleans are 1 or 0.
    pub open spec fn spec_to_num(self) -> u32 {
        match self {
            Value::Bool(b) => if b { 1 } else { 0 },
            Value::Num(n) => n,
        }
    }

    /// The value read as a boolean: numbers are true when non-zero.
    pub fn to_bool(self) -> (r: bool)
        ensures
            r == self.spec_to_bool(),
    {
        match self {
            Value::Bool(b) => b,
            Value::Num(n) => n != 0,
        }
    }

    /// The value read as a number: booleans are 1 or 0.
    pub fn to_num(self) -> (r: u32)
        ensures
            r == self.spec_to_num(),
    {
        match self {
            Value::Bool(b) => {
                if b {
                    1
                } else {
                    0
                }
            },
            Value::Num(n) => n,
        }
    }
}

/// Reading a value as a boolean and back as a number gives 0 or 1, and a
/// boolean survives the round trip through a number.
pub proof fn lemma_value_round_trip(b: bool, n: u32)
    ensures
        Value::Num(Value::Bool(b).spec_to_num()).spec_to_bool() == b,
        Value::Bool(Value::Num(n).spec_to_bool()).spec_to_num() == (if n != 0 { 1u32 } else { 0u32 }),
{
}

/// An output of a puzzle, possibly different for players in different states.
#[derive(Clone, Debug)]
pub enum MultiStateValue {
    Bool(bool),
    Num(u32),
    MultiBool { default: bool, values: Vec<(PlayerStateCondition, bool)> },
    MultiNum { default: u32, values: Vec<(PlayerStateCondition, u32)> },
}

/// The part of a multi-state value that does not depend on player conditions:
/// its kind, its default and the value chosen for each condition.
pub enum MultiStateModel {
    Bool(bool),
    Num(u32),
    MultiBool { default: bool, values: Seq<bool> },
    MultiNum { default: u32, values: Seq<u32> },
}

impl MultiStateValue {
    /// The values, without the conditions that select them.
    pub open spec fn model(self) -> MultiStateModel {
        match self {
            MultiStateValue::Bool(b) => MultiStateModel::Bool(b),
            MultiStateValue::Num(n) => MultiStateModel::Num(n),
            MultiStateValue::MultiBool { default, values } => MultiStateModel::MultiBool {
                default,
                values: values@.map_values(|p: (PlayerStateCondition, bool)| p.1),
            },
            MultiStateValue::MultiNum { default, values } => MultiStateModel::MultiNum {
                default,
                values: values@.map_values(|p: (PlayerStateCondition, u32)| p.1),
            },
        }
    }
}

/// Whether the player input a puzzle received changed it.
#[derive(Copy, Clone, Debug, PartialEq, Eq)]
pub enum ProcessingResult {
    Updated,
    Unchanged,
}

impl ProcessingResult {
    /// Marks the result as updated.
    pub fn update(&mut self)
        ensures
            *final(self) == ProcessingResult::Updated,
    {
        *self = ProcessingResult::Updated;
    }

    /// Combines two results: updated when either is.
    pub open spec fn spec_or(self, other: ProcessingResult) -> ProcessingResult {
        if self == ProcessingResult::Updated { ProcessingResult::Updated } else { other }
    }
}

impl std::ops::BitOr for ProcessingResult {
    type Output = ProcessingResult;

    /// Combines two results: updated when either is.
    fn bitor(self, rhs: ProcessingResult) -> (r: ProcessingResult) {
        match self {
            ProcessingResult::Updated => ProcessingResult::Updated,
            ProcessingResult::Unchanged => rhs,
        }
    }
}

impl vstd::std_specs::ops::BitOrSpecImpl for ProcessingResult {
    open spec fn obeys_bitor_spec() -> bool {
        true
    }

    open spec fn bitor_req(self, rhs: ProcessingResult) -> bool {
        true
    }

    open spec fn bitor_spec(self, rhs: ProcessingResult) -> ProcessingResult {
        self.spec_or(rhs)
    }
}

/// `Updated` absorbs, `Unchanged` is neutral, and combining is commutative and associative.
pub proof fn lemma_processing_result_or(a: ProcessingResult, b: ProcessingResult, c: ProcessingResult)
    ensures
        a.spec_or(ProcessingResult::Updated) == ProcessingResult::Updated,
        ProcessingResult::Updated.spec_or(a) == ProcessingResult::Updated,
        a.spec_or(ProcessingResult::Unchanged) == a,
        ProcessingResult::Unchanged.spec_or(a) == a,
        a.spec_or(b) == b.spec_or(a),
        a.spec_or(b).spec_or(c) == a.spec_or(b.spec_or(c)),
{
}

/// An input to a puzzle: a click on an input piece by a player with the given
/// state bits, or a change in who is in an area.
pub enum PuzzleInput<InputIdentifier, Area, AreaCounter> {
    Click(InputIdentifier, u32),
    Area(Area, AreaCounter),
}

} // verus!
