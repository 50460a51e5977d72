//! Errors raised while running a state-machine puzzle.

use vstd::prelude::*;

verus! {

/// A reference in a puzzle definition that does not resolve.
#[derive(Copy, Clone, Debug, PartialEq, Eq)]
pub enum StateMachineError {
    InvalidState { machine: usize, state: u8 },
    NoCounter { machine: usize, name: u8 },
    NoGlobal { machine: usize, name: u8 },
    NoLocal { machine: usize, name: u8 },
    NoStates(usize),
    VariableInGlobal,
}

} // verus!
