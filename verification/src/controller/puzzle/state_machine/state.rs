//! Machine definitions, the running state of a machine, and transitions
//! between states.

use vstd::prelude::*;
use std::collections::BTreeSet;
use crate::controller::puzzle::{MultiStateModel, MultiStateValue, Value};
use crate::controller::puzzle::state_machine::data::{
    GlobalData, GlobalModel, LocalData, LocalModel, LocalVariableName, StateData, StateDataModel, StateVariableName,
};
use crate::controller::puzzle::state_machine::edge_action::EdgeAction;
use crate::controller::puzzle::state_machine::error::StateMachineError;
use crate::controller::puzzle::state_machine::expression::{
    BoolExpression, ExpressionData, ExpressionSpec, MultiStateVariableExpression, NumberExpression, VariableExpression,
    conditions_kept, eval_bool, eval_multi, eval_num, eval_variable,
};
use crate::controller::puzzle::state_machine::timer_transition::{
    TimerDuration, TimerDurationData, TimerDurationDataGenerator, TimerDurationModel, TimerTransition, spec_prepare,
    timer_start_ok,
};
use crate::controller::puzzle::state_machine::transition::Transition;
use crate::time::Timestamp;

verus! {

broadcast use vstd::std_specs::btree::group_btree_axioms;

/// The running state of one machine.
#[derive(Clone, Debug)]
pub struct State {
    pub counters: Vec<u32>,
    pub current: u8,
    pub local_values: Vec<Value>,
    pub outputs: Vec<MultiStateValue>,
    pub timer: Option<Timestamp>,
}

/// The running state of a machine, with outputs reduced to their values.
pub struct StateView {
    pub counters: Seq<u32>,
    pub current: u8,
    pub local_values: Seq<Value>,
    pub outputs: Seq<MultiStateModel>,
    pub timer: Option<Timestamp>,
}

impl View for State {
    type V = StateView;

    open spec fn view(&self) -> StateView {
        StateView {
            counters: self.counters@,
            current: self.current,
            local_values: self.local_values@,
            outputs: self.outputs@.map_values(|o: MultiStateValue| o.model()),
            timer: self.timer,
        }
    }
}

/// A state of a machine: its outputs, the transitions out of it, its timer
/// and its local variables.
#[derive(Debug)]
pub struct StateDefinition<InputIdentifier, Area> {
    pub outputs: Vec<MultiStateVariableExpression<LocalVariableName>>,
    pub user_transitions: Vec<Transition<InputIdentifier, Area, LocalVariableName>>,
    pub timer_transition: TimerTransition<LocalVariableName>,
    pub variables: Vec<VariableExpression<StateVariableName>>,
}

/// A machine: how many counters it has, which outputs it drives, and its states.
#[derive(Debug)]
pub struct StateMachine<InputIdentifier, OutputIdentifier, Area> {
    pub counters: u8,
    pub outputs: Vec<OutputIdentifier>,
    pub states: Vec<StateDefinition<InputIdentifier, Area>>,
}

/// The values of a list of variable expressions, or the first error.
pub open spec fn eval_variables<V, D: ExpressionSpec<V>>(es: Seq<VariableExpression<V>>, d: D) -> Result<Seq<Value>, StateMachineError>
    decreases es.len(),
{
    if es.len() == 0 {
        Ok(Seq::empty())
    } else {
        match eval_variables(es.drop_last(), d) {
            Err(x) => Err(x),
            Ok(vs) => match eval_variable(es.last(), d) {
                Err(x) => Err(x),
                Ok(v) => Ok(vs.push(v)),
            },
        }
    }
}

/// The values of a list of output expressions, or the first error.
pub open spec fn eval_outputs<V, D: ExpressionSpec<V>>(es: Seq<MultiStateVariableExpression<V>>, d: D) -> Result<Seq<MultiStateModel>, StateMachineError>
    decreases es.len(),
{
    if es.len() == 0 {
        Ok(Seq::empty())
    } else {
        match eval_outputs(es.drop_last(), d) {
            Err(x) => Err(x),
            Ok(vs) => match eval_multi(es.last(), d) {
                Err(x) => Err(x),
                Ok(v) => Ok(vs.push(v)),
            },
        }
    }
}

/// Each evaluated output keeps the player conditions of its expression.
pub open spec fn outputs_kept<V>(values: Seq<MultiStateValue>, es: Seq<MultiStateVariableExpression<V>>) -> bool {
    &&& values.len() == es.len()
    &&& forall|i: int| 0 <= i < values.len() ==> conditions_kept(#[trigger] values[i], es[i])
}

/// Machine state `s` is in a state of `definition` and shows that state's
/// outputs, each with the player conditions of its expression.
pub open spec fn shows_current_outputs<I, O, A>(definition: StateMachine<I, O, A>, s: State) -> bool {
    &&& (s.current as int) < definition.states@.len()
    &&& outputs_kept(s.outputs@, definition.states@[s.current as int].outputs@)
}

/// Each machine of `after` is as it was in `before`, or shows the outputs of
/// its current state of `definitions`.
pub open spec fn outputs_current<I, O, A>(definitions: Seq<StateMachine<I, O, A>>, before: Seq<State>, after: Seq<State>) -> bool {
    &&& before.len() == after.len()
    &&& forall|i: int|
        0 <= i < after.len() ==> #[trigger] after[i] == before[i] || (i < definitions.len() && shows_current_outputs(
            definitions[i],
            after[i],
        ))
}

/// Two steps that each keep the outputs current keep them current together.
pub proof fn lemma_outputs_current_trans<I, O, A>(definitions: Seq<StateMachine<I, O, A>>, a: Seq<State>, b: Seq<State>, c: Seq<State>)
    requires
        outputs_current(definitions, a, b),
        outputs_current(definitions, b, c),
    ensures
        outputs_current(definitions, a, c),
{
    assert forall|i: int| 0 <= i < c.len() implies #[trigger] c[i] == a[i] || (i < definitions.len() && shows_current_outputs(definitions[i], c[i])) by {
        assert(c[i] == b[i] || (i < definitions.len() && shows_current_outputs(definitions[i], c[i])));
        assert(b[i] == a[i] || (i < definitions.len() && shows_current_outputs(definitions[i], b[i])));
    }
}

proof fn lemma_variables_error<V, D: ExpressionSpec<V>>(es: Seq<VariableExpression<V>>, d: D, i: int, k: int)
    requires
        1 <= i <= k <= es.len(),
        eval_variables(es.take(i), d) is Err,
    ensures
        eval_variables(es.take(k), d) == eval_variables(es.take(i), d),
    decreases k - i,
{
    if k > i {
        lemma_variables_error(es, d, i, k - 1);
        assert(es.take(k).drop_last() == es.take(k - 1));
    }
}

proof fn lemma_outputs_error<V, D: ExpressionSpec<V>>(es: Seq<MultiStateVariableExpression<V>>, d: D, i: int, k: int)
    requires
        1 <= i <= k <= es.len(),
        eval_outputs(es.take(i), d) is Err,
    ensures
        eval_outputs(es.take(k), d) == eval_outputs(es.take(i), d),
    decreases k - i,
{
    if k > i {
        lemma_outputs_error(es, d, i, k - 1);
        assert(es.take(k).drop_last() == es.take(k - 1));
    }
}

/// Evaluates each variable expression in order.
pub fn evaluate_variables<V, D: ExpressionData<V>>(es: &Vec<VariableExpression<V>>, data: &D) -> (r: Result<Vec<Value>, StateMachineError>)
    ensures
        match r {
            Ok(vs) => eval_variables(es@, data.model()) == Ok::<Seq<Value>, StateMachineError>(vs@),
            Err(x) => eval_variables(es@, data.model()) == Err::<Seq<Value>, StateMachineError>(x),
        },
{
    let mut values: Vec<Value> = Vec::new();
    let mut i: usize = 0;
    proof {
        assert(es@.take(0) =~= Seq::empty());
    }
    while i < es.len()
        invariant
            i <= es@.len(),
            eval_variables(es@.take(i as int), data.model()) == Ok::<Seq<Value>, StateMachineError>(values@),
        decreases es@.len() - i,
    {
        proof {
            assert(es@.take(i as int + 1).drop_last() == es@.take(i as int));
        }
        match es[i].evaluate(data) {
            Err(x) => {
                proof {
                    assert(eval_variables(es@.take(i as int + 1), data.model()) == Err::<Seq<Value>, StateMachineError>(x));
                    lemma_variables_error(es@, data.model(), i as int + 1, es@.len() as int);
                    assert(es@.take(es@.len() as int) == es@);
                }
                return Err(x);
            },
            Ok(v) => {
                values.push(v);
            },
        }
        i = i + 1;
    }
    proof {
        assert(es@.take(i as int) == es@);
    }
    Ok(values)
}

/// Evaluates each output expression in order.
pub fn evaluate_outputs<V, D: ExpressionData<V>>(es: &Vec<MultiStateVariableExpression<V>>, data: &D) -> (r: Result<
    Vec<MultiStateValue>,
    StateMachineError,
>)
    ensures
        match r {
            Ok(vs) => eval_outputs(es@, data.model()) == Ok::<Seq<MultiStateModel>, StateMachineError>(
                vs@.map_values(|o: MultiStateValue| o.model()),
            ) && outputs_kept(vs@, es@),
            Err(x) => eval_outputs(es@, data.model()) == Err::<Seq<MultiStateModel>, StateMachineError>(x),
        },
{
    let mut values: Vec<MultiStateValue> = Vec::new();
    let mut i: usize = 0;
    proof {
        assert(es@.take(0) =~= Seq::empty());
        assert(values@.map_values(|o: MultiStateValue| o.model()) =~= Seq::empty());
    }
    while i < es.len()
        invariant
            i <= es@.len(),
            values@.len() == i,
            eval_outputs(es@.take(i as int), data.model()) == Ok::<Seq<MultiStateModel>, StateMachineError>(
                values@.map_values(|o: MultiStateValue| o.model()),
            ),
            forall|j: int| 0 <= j < i ==> conditions_kept(#[trigger] values@[j], es@[j]),
        decreases es@.len() - i,
    {
        proof {
            assert(es@.take(i as int + 1).drop_last() == es@.take(i as int));
        }
        match es[i].evaluate(data) {
            Err(x) => {
                proof {
                    assert(eval_outputs(es@.take(i as int + 1), data.model()) == Err::<Seq<MultiStateModel>, StateMachineError>(x));
                    lemma_outputs_error(es@, data.model(), i as int + 1, es@.len() as int);
                    assert(es@.take(es@.len() as int) == es@);
                }
                return Err(x);
            },
            Ok(v) => {
                let ghost before = values@;
                values.push(v);
                proof {
                    assert(values@.map_values(|o: MultiStateValue| o.model()) =~= before.map_values(
                        |o: MultiStateValue| o.model(),
                    ).push(v.model()));
                }
            },
        }
        i = i + 1;
    }
    proof {
        assert(es@.take(i as int) == es@);
    }
    Ok(values)
}

/// Gives transition actions the environment they are evaluated in.
pub trait TransitionVariableGenerator {
    type Variable;

    type Model: ExpressionSpec<Self::Variable>;

    /// The environment the actions see, given the machine's local data.
    spec fn spec_model_for(&self, local: LocalModel) -> Self::Model;

    /// Evaluates a boolean action expression.
    fn evaluate_bool(&self, local: LocalData, e: &BoolExpression<Self::Variable>) -> (r: Result<bool, StateMachineError>)
        ensures
            r == eval_bool(*e, self.spec_model_for(local.model())),
    ;

    /// Evaluates a number action expression.
    fn evaluate_num(&self, local: LocalData, e: &NumberExpression<Self::Variable>) -> (r: Result<u32, StateMachineError>)
        ensures
            r == eval_num(*e, self.spec_model_for(local.model())),
    ;
}

impl TransitionVariableGenerator for () {
    type Variable = LocalVariableName;

    type Model = LocalModel;

    open spec fn spec_model_for(&self, local: LocalModel) -> LocalModel {
        local
    }

    fn evaluate_bool(&self, local: LocalData, e: &BoolExpression<LocalVariableName>) -> (r: Result<bool, StateMachineError>) {
        e.evaluate(&local)
    }

    fn evaluate_num(&self, local: LocalData, e: &NumberExpression<LocalVariableName>) -> (r: Result<u32, StateMachineError>) {
        e.evaluate(&local)
    }
}

impl TransitionVariableGenerator for TimerDurationDataGenerator {
    type Variable = TimerDuration<LocalVariableName>;

    type Model = TimerDurationModel<LocalModel>;

    open spec fn spec_model_for(&self, local: LocalModel) -> TimerDurationModel<LocalModel> {
        TimerDurationModel { data: local, duration: self.0 }
    }

    fn evaluate_bool(&self, local: LocalData, e: &BoolExpression<TimerDuration<LocalVariableName>>) -> (r: Result<
        bool,
        StateMachineError,
    >) {
        e.evaluate(&TimerDurationData { data: local, duration: self.0 })
    }

    fn evaluate_num(&self, local: LocalData, e: &NumberExpression<TimerDuration<LocalVariableName>>) -> (r: Result<
        u32,
        StateMachineError,
    >) {
        e.evaluate(&TimerDurationData { data: local, duration: self.0 })
    }
}

/// The internal events raised by a list of actions, or the first error. A
/// counter being set must exist; the value set is not kept.
pub open spec fn spec_actions<G: TransitionVariableGenerator>(
    generator: G,
    actions: Seq<EdgeAction<G::Variable>>,
    local: LocalModel,
    counter_count: nat,
    machine: usize,
) -> Result<Set<u8>, StateMachineError>
    decreases actions.len(),
{
    if actions.len() == 0 {
        Ok(Set::empty())
    } else {
        match spec_actions(generator, actions.drop_last(), local, counter_count, machine) {
            Err(x) => Err(x),
            Ok(triggers) => {
                let data = generator.spec_model_for(local);
                match actions.last() {
                    EdgeAction::SetCounter { counter, condition, value } => match eval_bool(condition, data) {
                        Err(x) => Err(x),
                        Ok(false) => Ok(triggers),
                        Ok(true) => match eval_num(value, data) {
                            Err(x) => Err(x),
                            Ok(_) => if (counter as nat) < counter_count {
                                Ok(triggers)
                            } else {
                                Err(StateMachineError::NoCounter { machine, name: counter })
                            },
                        },
                    },
                    EdgeAction::Trigger { target, condition } => match eval_bool(condition, data) {
                        Err(x) => Err(x),
                        Ok(true) => Ok(triggers.insert(target)),
                        Ok(false) => Ok(triggers),
                    },
                }
            },
        }
    }
}

proof fn lemma_actions_error<G: TransitionVariableGenerator>(
    generator: G,
    actions: Seq<EdgeAction<G::Variable>>,
    local: LocalModel,
    counter_count: nat,
    machine: usize,
    i: int,
    k: int,
)
    requires
        1 <= i <= k <= actions.len(),
        spec_actions(generator, actions.take(i), local, counter_count, machine) is Err,
    ensures
        spec_actions(generator, actions.take(k), local, counter_count, machine) == spec_actions(
            generator,
            actions.take(i),
            local,
            counter_count,
            machine,
        ),
    decreases k - i,
{
    if k > i {
        lemma_actions_error(generator, actions, local, counter_count, machine, i, k - 1);
        assert(actions.take(k).drop_last() == actions.take(k - 1));
    }
}

/// The local data of a machine in state `s`.
pub open spec fn local_model(global: GlobalModel, s: StateView) -> LocalModel {
    LocalModel { state: StateDataModel { global, counters: s.counters }, locals: s.local_values }
}

/// Moving machine `machine` from state `s` to state `next` of `definitions`:
/// the events raised, or the first error, and the machine's state afterwards.
/// Counters are left as they were. The new locals are stored before the
/// outputs and timer are computed, so an error there leaves them changed.
pub open spec fn spec_perform<I, A, G: TransitionVariableGenerator>(
    s: StateView,
    machine: usize,
    next: u8,
    actions: Seq<EdgeAction<G::Variable>>,
    generator: G,
    now: Timestamp,
    definitions: Seq<StateDefinition<I, A>>,
    global: GlobalModel,
) -> (Result<Set<u8>, StateMachineError>, StateView) {
    if (next as int) >= definitions.len() {
        (Err(StateMachineError::InvalidState { machine, state: next }), s)
    } else {
        let next_state = definitions[next as int];
        match spec_actions(generator, actions, local_model(global, s), s.counters.len(), machine) {
            Err(x) => (Err(x), s),
            Ok(triggers) => match eval_variables(next_state.variables@, StateDataModel { global, counters: s.counters }) {
                Err(x) => (Err(x), s),
                Ok(locals) => {
                    let s1 = StateView { local_values: locals, ..s };
                    match eval_outputs(next_state.outputs@, local_model(global, s1)) {
                        Err(x) => (Err(x), s1),
                        Ok(outputs) => match spec_prepare(next_state.timer_transition, now, s.timer, local_model(global, s1)) {
                            Err(x) => (Err(x), s1),
                            Ok(timer) => (Ok(triggers), StateView { current: next, outputs, timer, ..s1 }),
                        },
                    }
                },
            },
        }
    }
}

/// The machine's timer, if any, is a valid instant.
pub open spec fn timer_ok(timer: Option<Timestamp>) -> bool {
    timer matches Some(t) ==> t.valid()
}

impl State {
    /// The counters and globals this state's variables may read.
    pub fn get_state_variable_data<'a>(&'a self, global_data: GlobalData<'a>) -> (r: StateData<'a>)
        ensures
            r.model() == (StateDataModel { global: global_data.model(), counters: self.counters@ }),
    {
        StateData { global_data, counters: &self.counters }
    }

    /// The counters, globals and locals this state's transitions and outputs may read.
    pub fn get_local_variable_data<'a>(&'a self, global_data: GlobalData<'a>) -> (r: LocalData<'a>)
        ensures
            r.model() == local_model(global_data.model(), self@),
    {
        LocalData { state_data: self.get_state_variable_data(global_data), locals: &self.local_values }
    }

    /// Moves this machine to state `next`, performing `actions` first: raises
    /// the events they trigger, recomputes the locals, outputs and timer.
    pub fn perform_transition<InputIdentifier, OutputIdentifier, Area, Generator: TransitionVariableGenerator>(
        &mut self,
        machine: usize,
        next: u8,
        actions: &Vec<EdgeAction<Generator::Variable>>,
        now: Timestamp,
        definition: &StateMachine<InputIdentifier, OutputIdentifier, Area>,
        global_data: GlobalData,
        transition_data: &Generator,
    ) -> (r: Result<BTreeSet<u8>, StateMachineError>)
        requires
            timer_start_ok(now),
            timer_ok(old(self).timer),
        ensures
            final(self)@ == spec_perform(old(self)@, machine, next, actions@, *transition_data, now, definition.states@, global_data.model()).1,
            match r {
                Ok(t) => spec_perform(old(self)@, machine, next, actions@, *transition_data, now, definition.states@, global_data.model()).0
                    == Ok::<Set<u8>, StateMachineError>(t@) && outputs_kept(final(self).outputs@, definition.states@[next as int].outputs@),
                Err(x) => spec_perform(old(self)@, machine, next, actions@, *transition_data, now, definition.states@, global_data.model()).0
                    == Err::<Set<u8>, StateMachineError>(x),
            },
            r is Ok ==> final(self).current == next,
            timer_ok(final(self).timer),
    {
        if (next as usize) >= definition.states.len() {
            return Err(StateMachineError::InvalidState { machine, state: next });
        }
        let next_state = &definition.states[next as usize];
        let ghost start = self@;
        let mut triggers: BTreeSet<u8> = BTreeSet::new();
        {
            let local_data = self.get_local_variable_data(global_data);
            let mut i: usize = 0;
            proof {
                assert(actions@.take(0) =~= Seq::empty());
            }
            while i < actions.len()
                invariant
                    i <= actions@.len(),
                    local_data.model() == local_model(global_data.model(), start),
                    self@ == start,
                    start == old(self)@,
                    (next as int) < definition.states@.len(),
                    timer_ok(self.timer),
                    spec_actions(*transition_data, actions@.take(i as int), local_model(global_data.model(), start), start.counters.len(), machine)
                        == Ok::<Set<u8>, StateMachineError>(triggers@),
                decreases actions@.len() - i,
            {
                proof {
                    assert(actions@.take(i as int + 1).drop_last() == actions@.take(i as int));
                }
                let step: Result<(), StateMachineError> = match &actions[i] {
                    EdgeAction::SetCounter { counter, condition, value } => {
                        match transition_data.evaluate_bool(local_data, condition) {
                            Err(x) => Err(x),
                            Ok(false) => Ok(()),
                            Ok(true) => match transition_data.evaluate_num(local_data, value) {
                                Err(x) => Err(x),
                                Ok(_) => if (*counter as usize) < self.counters.len() {
                                    Ok(())
                                } else {
                                    Err(StateMachineError::NoCounter { machine, name: *counter })
                                },
                            },
                        }
                    },
                    EdgeAction::Trigger { target, condition } => {
                        match transition_data.evaluate_bool(local_data, condition) {
                            Err(x) => Err(x),
                            Ok(true) => {
                                triggers.insert(*target);
                                Ok(())
                            },
                            Ok(false) => Ok(()),
                        }
                    },
                };
                if let Err(x) = step {
                    proof {
                        assert(spec_actions(*transition_data, actions@.take(i as int + 1), local_model(global_data.model(), start), start.counters.len(), machine)
                            == Err::<Set<u8>, StateMachineError>(x));
                        lemma_actions_error(*transition_data, actions@, local_model(global_data.model(), start), start.counters.len(), machine, i as int + 1, actions@.len() as int);
                        assert(actions@.take(actions@.len() as int) == actions@);
                    }
                    return Err(x);
                }
                i = i + 1;
            }
            proof {
                assert(actions@.take(i as int) == actions@);
            }
        }
        let new_locals = {
            let state_data = self.get_state_variable_data(global_data);
            evaluate_variables(&next_state.variables, &state_data)?
        };
        self.local_values = new_locals;
        let local_data = self.get_local_variable_data(global_data);
        let new_outputs = evaluate_outputs(&next_state.outputs, &local_data)?;
        let new_timer = next_state.timer_transition.prepare(now, self.timer, local_data)?;
        self.timer = new_timer;
        self.outputs = new_outputs;
        self.current = next;
        Ok(triggers)
    }
}

/// The fresh state of a machine: no counters set, in its first state.
pub open spec fn spec_blank<I, O, A>(definition: StateMachine<I, O, A>, id: usize, now: Timestamp, global: GlobalModel) -> Result<
    StateView,
    StateMachineError,
> {
    let counters = Seq::new(definition.counters as nat, |i: int| 0u32);
    if definition.states@.len() == 0 {
        Err(StateMachineError::NoStates(id))
    } else {
        let first = definition.states@[0];
        match eval_variables(first.variables@, StateDataModel { global, counters }) {
            Err(x) => Err(x),
            Ok(locals) => {
                let local = LocalModel { state: StateDataModel { global, counters }, locals };
                match eval_outputs(first.outputs@, local) {
                    Err(x) => Err(x),
                    Ok(outputs) => match spec_prepare(first.timer_transition, now, None, local) {
                        Err(x) => Err(x),
                        Ok(timer) => Ok(StateView { counters, current: 0, local_values: locals, outputs, timer }),
                    },
                }
            },
        }
    }
}

impl<InputIdentifier, OutputIdentifier, Area> StateMachine<InputIdentifier, OutputIdentifier, Area> {
    /// Creates the fresh state of this machine, numbered `id`.
    pub fn blank(&self, id: usize, now: Timestamp, global_data: GlobalData) -> (r: Result<State, StateMachineError>)
        requires
            timer_start_ok(now),
        ensures
            match r {
                Ok(s) => spec_blank(*self, id, now, global_data.model()) == Ok::<StateView, StateMachineError>(s@)
                    && outputs_kept(s.outputs@, self.states@[0].outputs@) && timer_ok(s.timer),
                Err(x) => spec_blank(*self, id, now, global_data.model()) == Err::<StateView, StateMachineError>(x),
            },
    {
        let mut counters: Vec<u32> = Vec::new();
        let mut k: u8 = 0;
        while k < self.counters
            invariant
                k <= self.counters,
                counters@ == Seq::new(k as nat, |i: int| 0u32),
            decreases self.counters - k,
        {
            counters.push(0);
            proof {
                assert(counters@ =~= Seq::new((k + 1) as nat, |i: int| 0u32));
            }
            k = k + 1;
        }
        if self.states.len() == 0 {
            return Err(StateMachineError::NoStates(id));
        }
        let first = &self.states[0];
        let state_data = StateData { global_data, counters: &counters };
        let local_values = evaluate_variables(&first.variables, &state_data)?;
        let local_data = LocalData { state_data, locals: &local_values };
        let outputs = evaluate_outputs(&first.outputs, &local_data)?;
        let timer = first.timer_transition.prepare(now, None, local_data)?;
        Ok(State { counters, current: 0, local_values, outputs, timer })
    }

    /// Whether a saved state has as many counters as this machine defines.
    pub fn matches_definition(&self, state: &State) -> (r: bool)
        ensures
            r == (state.counters@.len() == self.counters as int),
    {
        state.counters.len() == self.counters as usize
    }
}

impl<InputIdentifier, Area> StateDefinition<InputIdentifier, Area> {
    /// Whether a saved state has as many locals and outputs as this state defines.
    pub fn matches_definition(&self, state: &State) -> (r: bool)
        ensures
            r == (state.local_values@.len() == self.variables@.len() && state.outputs@.len() == self.outputs@.len()),
    {
        state.local_values.len() == self.variables.len() && state.outputs.len() == self.outputs.len()
    }
}

} // verus!
