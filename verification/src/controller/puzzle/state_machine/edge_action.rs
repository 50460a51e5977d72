//! Actions performed while a machine moves between states.

use vstd::prelude::*;
use crate::controller::puzzle::state_machine::expression::{BoolExpression, NumberExpression};

verus! {

/// An action taken on a transition: set a counter, or raise an internal event
/// that other machines may react to.
#[derive(Debug)]
pub enum EdgeAction<Variable> {
    SetCounter { counter: u8, condition: BoolExpression<Variable>, value: NumberExpression<Variable> },
    Trigger { target: u8, condition: BoolExpression<Variable> },
}

} // verus!
