//! Transitions a machine takes in response to player input or internal events.

use vstd::prelude::*;
use std::collections::BTreeSet;
use crate::controller::puzzle::{PuzzleInput, Value};
use crate::controller::puzzle::area::{AreaCounter, PlayerStateCondition, spec_check};
use crate::controller::puzzle::state_machine::Identifier;
use crate::controller::puzzle::state_machine::data::{LocalData, LocalModel, LocalVariableName};
use crate::controller::puzzle::state_machine::edge_action::EdgeAction;
use crate::controller::puzzle::state_machine::error::StateMachineError;
use crate::controller::puzzle::state_machine::expression::{BoolExpression, ExpressionData, ExpressionSpec, eval_bool};
use crate::time::Date;

verus! {

/// A variable of an area condition: a count of players, or another variable.
#[derive(Debug)]
pub enum AreaCount<Variable> {
    PlayerCount(PlayerStateCondition),
    Variable(Variable),
}

/// What an area condition sees: the players in the area and another environment.
pub struct AreaCountModel<C, M> {
    pub counter: C,
    pub data: M,
}

impl<V, C: AreaCounter, M: ExpressionSpec<V>> ExpressionSpec<AreaCount<V>> for AreaCountModel<C, M> {
    open spec fn spec_date(&self) -> Date {
        self.data.spec_date()
    }

    open spec fn spec_seed(&self) -> u32 {
        self.data.spec_seed()
    }

    open spec fn spec_variable(&self, name: AreaCount<V>) -> Result<Value, StateMachineError> {
        match name {
            AreaCount::PlayerCount(filter) => Ok(Value::Num(self.counter.spec_count_players(filter))),
            AreaCount::Variable(n) => self.data.spec_variable(n),
        }
    }
}

/// An environment extended with a count of the players in an area.
pub struct AreaCountData<'a, C: AreaCounter, D>(pub &'a C, pub D);

impl<'a, V, C: AreaCounter, D: ExpressionData<V>> ExpressionData<AreaCount<V>> for AreaCountData<'a, C, D> {
    type Model = AreaCountModel<C, D::Model>;

    open spec fn model(&self) -> AreaCountModel<C, D::Model> {
        AreaCountModel { counter: *self.0, data: self.1.model() }
    }

    fn date(&self) -> (r: Date) {
        self.1.date()
    }

    fn seed(&self) -> (r: u32) {
        self.1.seed()
    }

    fn variable(&self, name: &AreaCount<V>) -> (r: Result<Value, StateMachineError>) {
        match name {
            AreaCount::PlayerCount(filter) => Ok(Value::Num(self.0.count_players(filter))),
            AreaCount::Variable(n) => self.1.variable(n),
        }
    }
}

/// What starts a transition.
#[derive(Debug)]
pub enum InputTrigger<InputIdentifier, Area, Variable> {
    Click { source: InputIdentifier, player_condition: PlayerStateCondition, condition: BoolExpression<Variable> },
    Count { area: Area, condition: BoolExpression<AreaCount<Variable>> },
    Internal { source: u8, condition: BoolExpression<Variable> },
}

/// A transition to state `next`, performing `actions` on the way.
#[derive(Debug)]
pub struct Transition<InputIdentifier, Area, Variable> {
    pub input: InputTrigger<InputIdentifier, Area, Variable>,
    pub next: u8,
    pub actions: Vec<EdgeAction<Variable>>,
}

/// Whether a transition fires for a player input: `None` when it does not,
/// or the first error met evaluating its condition.
pub open spec fn spec_should_trigger<I, A, C: AreaCounter>(
    transition: Transition<I, A, LocalVariableName>,
    input: PuzzleInput<I, A, C>,
    local: LocalModel,
) -> Option<Result<(), StateMachineError>> {
    let decided = match (input, transition.input) {
        (PuzzleInput::Click(name, player_state), InputTrigger::Click { source, player_condition, condition }) => {
            if source == name && spec_check(player_condition, player_state) {
                Some(eval_bool(condition, local))
            } else {
                None
            }
        },
        (PuzzleInput::Area(name, counter), InputTrigger::Count { area, condition }) => {
            if area == name {
                Some(eval_bool(condition, AreaCountModel { counter, data: local }))
            } else {
                None
            }
        },
        _ => None,
    };
    match decided {
        None => None,
        Some(Err(e)) => Some(Err(e)),
        Some(Ok(true)) => Some(Ok(())),
        Some(Ok(false)) => None,
    }
}

/// Whether a transition fires for a set of internal events.
pub open spec fn spec_should_trigger_internal<I, A>(
    transition: Transition<I, A, LocalVariableName>,
    events: Set<u8>,
    local: LocalModel,
) -> Option<Result<(), StateMachineError>> {
    match transition.input {
        InputTrigger::Internal { source, condition } => if events.contains(source) {
            match eval_bool(condition, local) {
                Err(e) => Some(Err(e)),
                Ok(true) => Some(Ok(())),
                Ok(false) => None,
            }
        } else {
            None
        },
        _ => None,
    }
}

impl<InputIdentifier: Identifier, Area: Identifier> Transition<InputIdentifier, Area, LocalVariableName> {
    /// Whether this transition fires for a player input.
    pub fn should_trigger<Counter: AreaCounter>(
        &self,
        input: &PuzzleInput<InputIdentifier, Area, Counter>,
        local_data: &LocalData,
    ) -> (r: Option<Result<&Self, StateMachineError>>)
        ensures
            match r {
                None => spec_should_trigger(*self, *input, local_data.model()) is None,
                Some(Err(e)) => spec_should_trigger(*self, *input, local_data.model()) == Some(
                    Err::<(), StateMachineError>(e),
                ),
                Some(Ok(t)) => spec_should_trigger(*self, *input, local_data.model()) == Some(
                    Ok::<(), StateMachineError>(()),
                ) && *t == *self,
            },
    {
        let keep = match (input, &self.input) {
            (PuzzleInput::Click(name, player_state), InputTrigger::Click { source, player_condition, condition }) => {
                if source.same(name) && player_condition.check(*player_state) {
                    match condition.evaluate(local_data) {
                        Err(e) => return Some(Err(e)),
                        Ok(keep) => keep,
                    }
                } else {
                    return None;
                }
            },
            (PuzzleInput::Area(name, counter), InputTrigger::Count { area, condition }) => {
                if area.same(name) {
                    match condition.evaluate(&AreaCountData(counter, *local_data)) {
                        Err(e) => return Some(Err(e)),
                        Ok(keep) => keep,
                    }
                } else {
                    return None;
                }
            },
            _ => return None,
        };
        if keep {
            Some(Ok(self))
        } else {
            None
        }
    }

    /// Whether this transition fires for a set of internal events.
    pub fn should_trigger_internal(&self, input: &BTreeSet<u8>, local_data: &LocalData) -> (r: Option<
        Result<&Self, StateMachineError>,
    >)
        ensures
            match r {
                None => spec_should_trigger_internal(*self, input@, local_data.model()) is None,
                Some(Err(e)) => spec_should_trigger_internal(*self, input@, local_data.model()) == Some(
                    Err::<(), StateMachineError>(e),
                ),
                Some(Ok(t)) => spec_should_trigger_internal(*self, input@, local_data.model()) == Some(
                    Ok::<(), StateMachineError>(()),
                ) && *t == *self,
            },
    {
        if let InputTrigger::Internal { source, condition } = &self.input {
            if input.contains(source) {
                match condition.evaluate(local_data) {
                    Err(e) => Some(Err(e)),
                    Ok(true) => Some(Ok(self)),
                    Ok(false) => None,
                }
            } else {
                None
            }
        } else {
            None
        }
    }
}

/// A click fires a transition only when it comes from the transition's
/// source and the clicking player's state bits meet the transition's player
/// condition.
pub proof fn lemma_click_needs_source_and_player<I, A, C: AreaCounter>(
    transition: Transition<I, A, LocalVariableName>,
    name: I,
    player_state: u32,
    local: LocalModel,
)
    requires
        spec_should_trigger(transition, PuzzleInput::<I, A, C>::Click(name, player_state), local) is Some,
    ensures
        transition.input matches InputTrigger::Click { source, player_condition, .. } && source == name && spec_check(
            player_condition,
            player_state,
        ),
{
}

/// A click from the transition's source by a player who meets its player
/// condition fires the transition exactly when its condition holds, and
/// gives the error met evaluating the condition when there is one.
pub proof fn lemma_click_by_qualified_player<I, A, C: AreaCounter>(
    transition: Transition<I, A, LocalVariableName>,
    name: I,
    player_state: u32,
    local: LocalModel,
)
    requires
        transition.input matches InputTrigger::Click { source, player_condition, .. } && source == name && spec_check(
            player_condition,
            player_state,
        ),
    ensures
        transition.input matches InputTrigger::Click { condition, .. } && match eval_bool(condition, local) {
            Ok(true) => spec_should_trigger(transition, PuzzleInput::<I, A, C>::Click(name, player_state), local) == Some(
                Ok::<(), StateMachineError>(()),
            ),
            Ok(false) => spec_should_trigger(transition, PuzzleInput::<I, A, C>::Click(name, player_state), local) is None,
            Err(e) => spec_should_trigger(transition, PuzzleInput::<I, A, C>::Click(name, player_state), local) == Some(
                Err::<(), StateMachineError>(e),
            ),
        },
{
}

/// An area count never fires a click transition, nor a click a count
/// transition, nor any player input an internal one.
pub proof fn lemma_inputs_fire_their_own_kind<I, A, C: AreaCounter>(
    transition: Transition<I, A, LocalVariableName>,
    input: PuzzleInput<I, A, C>,
    local: LocalModel,
)
    requires
        spec_should_trigger(transition, input, local) is Some,
    ensures
        input is Click ==> transition.input is Click,
        input is Area ==> transition.input is Count,
{
}

/// A player entering or leaving an area fires only a count transition of
/// that area; internal events fire only an internal transition whose source
/// is among them.
pub proof fn lemma_areas_and_events_fire_their_own<I, A, C: AreaCounter>(
    transition: Transition<I, A, LocalVariableName>,
    name: A,
    counter: C,
    events: Set<u8>,
    local: LocalModel,
)
    ensures
        spec_should_trigger(transition, PuzzleInput::<I, A, C>::Area(name, counter), local) is Some ==> (
        transition.input matches InputTrigger::Count { area, .. } && area == name),
        spec_should_trigger_internal(transition, events, local) is Some ==> (transition.input matches InputTrigger::Internal {
            source,
            ..
        } && events.contains(source)),
{
}

} // verus!
