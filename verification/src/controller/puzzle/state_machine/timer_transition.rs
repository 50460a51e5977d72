//! Transitions a machine takes when its state's timer runs out.

use vstd::prelude::*;
use crate::controller::puzzle::Value;
use crate::controller::puzzle::state_machine::edge_action::EdgeAction;
use crate::controller::puzzle::state_machine::error::StateMachineError;
use crate::controller::puzzle::state_machine::expression::{
    ExpressionData, ExpressionSpec, NumberExpression, eval_num,
};
use crate::time::{Date, MAX_SECONDS, Timestamp};

verus! {

/// A variable of a timer expression: the timer's length, or another variable.
#[derive(Copy, Clone, Debug, PartialEq, Eq)]
pub enum TimerDuration<Variable> {
    TimerDuration,
    Variable(Variable),
}

/// What a timer expression sees: another environment and the timer's length.
pub struct TimerDurationModel<M> {
    pub data: M,
    pub duration: u32,
}

impl<V, M: ExpressionSpec<V>> ExpressionSpec<TimerDuration<V>> for TimerDurationModel<M> {
    open spec fn spec_date(&self) -> Date {
        self.data.spec_date()
    }

    open spec fn spec_seed(&self) -> u32 {
        self.data.spec_seed()
    }

    open spec fn spec_variable(&self, name: TimerDuration<V>) -> Result<Value, StateMachineError> {
        match name {
            TimerDuration::TimerDuration => Ok(Value::Num(self.duration)),
            TimerDuration::Variable(n) => self.data.spec_variable(n),
        }
    }
}

/// An environment extended with the timer's length.
pub struct TimerDurationData<D> {
    pub data: D,
    pub duration: u32,
}

impl<V, D: ExpressionData<V>> ExpressionData<TimerDuration<V>> for TimerDurationData<D> {
    type Model = TimerDurationModel<D::Model>;

    open spec fn model(&self) -> TimerDurationModel<D::Model> {
        TimerDurationModel { data: self.data.model(), duration: self.duration }
    }

    fn date(&self) -> (r: Date) {
        self.data.date()
    }

    fn seed(&self) -> (r: u32) {
        self.data.seed()
    }

    fn variable(&self, name: &TimerDuration<V>) -> (r: Result<Value, StateMachineError>) {
        match name {
            TimerDuration::TimerDuration => Ok(Value::Num(self.duration)),
            TimerDuration::Variable(n) => self.data.variable(n),
        }
    }
}

/// Supplies the timer's length to the actions of a timer transition.
#[derive(Copy, Clone, Debug)]
pub struct TimerDurationDataGenerator(pub u32);

/// What happens when a state's timer runs out.
#[derive(Debug)]
pub enum TimerTransition<Variable> {
    NoTimer,
    Reset { duration: NumberExpression<Variable>, next: u8, actions: Vec<EdgeAction<TimerDuration<Variable>>> },
    Rollover {
        duration: NumberExpression<TimerDuration<Variable>>,
        next: u8,
        actions: Vec<EdgeAction<TimerDuration<Variable>>>,
    },
}

/// The instants `prepare` may start timers from: valid, and early enough
/// that any `u32` number of seconds later is still in `chrono`'s range.
pub open spec fn timer_start_ok(start: Timestamp) -> bool {
    start.valid() && start.seconds + u32::MAX <= MAX_SECONDS
}

/// When the timer of a newly entered state runs out: a `Reset` timer lasts
/// its duration; a `Rollover` timer's duration may read how long the previous
/// timer had run (`old` to `start`, zero when unknown or out of range).
pub open spec fn spec_prepare<V, M: ExpressionSpec<V>>(
    transition: TimerTransition<V>,
    start: Timestamp,
    old: Option<Timestamp>,
    data: M,
) -> Result<Option<Timestamp>, StateMachineError> {
    match transition {
        TimerTransition::NoTimer => Ok(None),
        TimerTransition::Reset { duration, .. } => match eval_num(duration, data) {
            Err(e) => Err(e),
            Ok(s) => Ok(Some(start.spec_plus_seconds(s as int))),
        },
        TimerTransition::Rollover { duration, .. } => {
            let elapsed = match old {
                Some(o) => start.spec_elapsed_u32(o),
                None => 0,
            };
            match eval_num(duration, TimerDurationModel { data, duration: elapsed }) {
                Err(e) => Err(e),
                Ok(s) => Ok(Some(start.spec_plus_seconds(s as int))),
            }
        },
    }
}

/// Whether timers may be started at `start`.
pub fn can_start_timers(start: Timestamp) -> (r: bool)
    ensures
        r == timer_start_ok(start),
{
    start.is_valid() && start.seconds <= MAX_SECONDS - 4_294_967_295i64
}

impl<Variable> TimerTransition<Variable> {
    /// Computes when the timer of a state entered at `start` runs out.
    pub fn prepare<Data: ExpressionData<Variable>>(&self, start: Timestamp, old: Option<Timestamp>, data: Data) -> (r: Result<
        Option<Timestamp>,
        StateMachineError,
    >)
        requires
            timer_start_ok(start),
            old matches Some(o) ==> o.valid(),
        ensures
            r == spec_prepare(*self, start, old, data.model()),
            r matches Ok(Some(t)) ==> t.valid(),
    {
        match self {
            TimerTransition::NoTimer => Ok(None),
            TimerTransition::Reset { duration, .. } => {
                let s = duration.evaluate(&data)?;
                Ok(Some(start.plus_seconds(s)))
            },
            TimerTransition::Rollover { duration, .. } => {
                let elapsed: u32 = match old {
                    Some(o) => start.elapsed_u32(&o),
                    None => 0,
                };
                let s = duration.evaluate(&TimerDurationData { data, duration: elapsed })?;
                Ok(Some(start.plus_seconds(s)))
            },
        }
    }
}

} // verus!
