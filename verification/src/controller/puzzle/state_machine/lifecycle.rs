//! Starting a state-machine puzzle afresh, and checking a saved one against
//! its definition.

use vstd::prelude::*;
use crate::controller::puzzle::Value;
use crate::controller::puzzle::state_machine::StateMachinePuzzleTemplate;
use crate::controller::puzzle::state_machine::data::RootData;
use crate::controller::puzzle::state_machine::error::StateMachineError;
use crate::controller::puzzle::state_machine::expression::VariableExpression;
use crate::controller::puzzle::PuzzleInput;
use crate::controller::puzzle::area::AreaCounter;
use crate::controller::puzzle::state_machine::data::{GlobalModel, StateDataModel};
use crate::controller::puzzle::state_machine::edge_action::EdgeAction;
use crate::controller::puzzle::state_machine::processing::{
    first_internal_trigger, first_user_trigger, fold_outcome, global_for, lemma_round_progress, spec_event_pass,
    spec_event_step, spec_input_pass, spec_input_step, spec_process, spec_process_timer, spec_rounds, spec_timer_pass,
    spec_timer_step, unserviced,
};
use crate::controller::puzzle::state_machine::timer_transition::{TimerDurationDataGenerator, TimerTransition};
use crate::controller::puzzle::state_machine::state::{
    StateMachine, StateView, TransitionVariableGenerator, eval_outputs, eval_variables, local_model, spec_blank, spec_perform,
};
use crate::controller::puzzle::state_machine::expression::{ExpressionSpec, MultiStateVariableExpression};
use crate::time::Timestamp;

verus! {

/// The fresh states of the first `k` machines, or the first error.
pub open spec fn spec_blank_states<I, O, A>(
    machines: Seq<StateMachine<I, O, A>>,
    now: Timestamp,
    root: RootData,
    globals: Seq<Value>,
    k: nat,
) -> Result<Seq<StateView>, StateMachineError>
    decreases k,
{
    if k == 0 {
        Ok(Seq::empty())
    } else {
        match spec_blank_states(machines, now, root, globals, (k - 1) as nat) {
            Err(e) => Err(e),
            Ok(states) => match spec_blank(machines[k - 1], (k - 1) as usize, now, global_for(k - 1, root, globals)) {
                Err(e) => Err(e),
                Ok(s) => Ok(states.push(s)),
            },
        }
    }
}

/// A fresh puzzle: its globals evaluated first, then each machine's fresh
/// state, or the first error.
pub open spec fn spec_blank_puzzle<I, O, A>(template: StateMachinePuzzleTemplate<I, O, A>, root: RootData, now: Timestamp) -> Result<
    (Seq<Value>, Seq<StateView>),
    StateMachineError,
> {
    match eval_variables(template.variables@, root) {
        Err(e) => Err(e),
        Ok(globals) => match spec_blank_states(template.machines@, now, root, globals, template.machines@.len()) {
            Err(e) => Err(e),
            Ok(states) => Ok((globals, states)),
        },
    }
}

/// A machine's saved state fits its definition: its current state exists,
/// and it has as many counters, locals and outputs as defined.
pub open spec fn machine_matches<I, O, A>(definition: StateMachine<I, O, A>, s: StateView) -> bool {
    &&& (s.current as int) < definition.states@.len()
    &&& s.local_values.len() == definition.states@[s.current as int].variables@.len()
    &&& s.outputs.len() == definition.states@[s.current as int].outputs@.len()
    &&& s.counters.len() == definition.counters as int
}

/// A saved puzzle fits its definition: one global per variable, one state
/// per machine, each fitting its machine.
pub open spec fn state_matches<I, O, A>(
    template: StateMachinePuzzleTemplate<I, O, A>,
    globals: Seq<Value>,
    states: Seq<StateView>,
) -> bool {
    &&& globals.len() == template.variables@.len()
    &&& states.len() == template.machines@.len()
    &&& forall|i: int| 0 <= i < states.len() ==> machine_matches(template.machines@[i], #[trigger] states[i])
}

/// Evaluating variables gives one value per expression.
pub proof fn lemma_eval_variables_len<V, D: ExpressionSpec<V>>(es: Seq<VariableExpression<V>>, d: D)
    ensures
        eval_variables(es, d) matches Ok(vs) ==> vs.len() == es.len(),
    decreases es.len(),
{
    if es.len() > 0 {
        lemma_eval_variables_len(es.drop_last(), d);
    }
}

/// Evaluating outputs gives one value per expression.
pub proof fn lemma_eval_outputs_len<V, D: ExpressionSpec<V>>(es: Seq<MultiStateVariableExpression<V>>, d: D)
    ensures
        eval_outputs(es, d) matches Ok(vs) ==> vs.len() == es.len(),
    decreases es.len(),
{
    if es.len() > 0 {
        lemma_eval_outputs_len(es.drop_last(), d);
    }
}

/// The fresh states of the first `k` machines are, one by one, the fresh
/// state of each.
pub proof fn lemma_blank_states<I, O, A>(
    machines: Seq<StateMachine<I, O, A>>,
    now: Timestamp,
    root: RootData,
    globals: Seq<Value>,
    k: nat,
)
    ensures
        spec_blank_states(machines, now, root, globals, k) matches Ok(states) ==> {
            &&& states.len() == k
            &&& forall|i: int|
                0 <= i < k ==> spec_blank(machines[i], i as usize, now, global_for(i, root, globals)) == Ok::<
                    StateView,
                    StateMachineError,
                >(#[trigger] states[i])
        },
    decreases k,
{
    if k > 0 {
        lemma_blank_states(machines, now, root, globals, (k - 1) as nat);
    }
}

/// A fresh machine state fits its machine.
pub proof fn lemma_blank_matches<I, O, A>(
    definition: StateMachine<I, O, A>,
    id: usize,
    now: Timestamp,
    root: RootData,
    globals: Seq<Value>,
)
    ensures
        spec_blank(definition, id, now, global_for(id as int, root, globals)) matches Ok(s) ==> machine_matches(definition, s),
{
    let global = global_for(id as int, root, globals);
    if definition.states@.len() > 0 {
        let first = definition.states@[0];
        let counters = Seq::new(definition.counters as nat, |i: int| 0u32);
        let state = crate::controller::puzzle::state_machine::data::StateDataModel { global, counters };
        lemma_eval_variables_len(first.variables@, state);
        if let Ok(locals) = eval_variables(first.variables@, state) {
            let local = crate::controller::puzzle::state_machine::data::LocalModel { state, locals };
            lemma_eval_outputs_len(first.outputs@, local);
        }
    }
}

/// A freshly started puzzle fits its definition, so loading its saved state
/// against the same definition succeeds.
pub proof fn lemma_blank_puzzle_matches<I, O, A>(template: StateMachinePuzzleTemplate<I, O, A>, root: RootData, now: Timestamp)
    ensures
        spec_blank_puzzle(template, root, now) matches Ok((globals, states)) ==> state_matches(template, globals, states),
{
    lemma_eval_variables_len(template.variables@, root);
    if let Ok(globals) = eval_variables(template.variables@, root) {
        let machines = template.machines@;
        lemma_blank_states(machines, now, root, globals, machines.len());
        if let Ok(states) = spec_blank_states(machines, now, root, globals, machines.len()) {
            assert forall|i: int| 0 <= i < states.len() implies machine_matches(machines[i], #[trigger] states[i]) by {
                lemma_blank_matches(machines[i], i as usize, now, root, globals);
            }
        }
    }
}

/// Starting machines stops at the first machine that fails.
pub proof fn lemma_blank_states_stops<I, O, A>(
    machines: Seq<StateMachine<I, O, A>>,
    now: Timestamp,
    root: RootData,
    globals: Seq<Value>,
    k: nat,
    later: nat,
)
    requires
        k <= later,
        spec_blank_states(machines, now, root, globals, k) is Err,
    ensures
        spec_blank_states(machines, now, root, globals, later) == spec_blank_states(machines, now, root, globals, k),
    decreases later - k,
{
    if later > k {
        lemma_blank_states_stops(machines, now, root, globals, k, (later - 1) as nat);
    }
}

/// Every machine state fits its machine.
pub open spec fn machines_match<I, O, A>(definitions: Seq<StateMachine<I, O, A>>, states: Seq<StateView>) -> bool {
    forall|i: int| 0 <= i < states.len() && i < definitions.len() ==> machine_matches(definitions[i], #[trigger] states[i])
}

/// A transition that succeeds leaves the machine in a state that fits it.
pub proof fn lemma_perform_matches<I, O, A, G: TransitionVariableGenerator>(
    definition: StateMachine<I, O, A>,
    s: StateView,
    machine: usize,
    next: u8,
    actions: Seq<EdgeAction<G::Variable>>,
    generator: G,
    now: Timestamp,
    global: GlobalModel,
)
    requires
        s.counters.len() == definition.counters as int,
    ensures
        spec_perform(s, machine, next, actions, generator, now, definition.states@, global).0 is Ok ==> machine_matches(
            definition,
            spec_perform(s, machine, next, actions, generator, now, definition.states@, global).1,
        ),
{
    if (next as int) < definition.states@.len() {
        let next_state = definition.states@[next as int];
        let state = StateDataModel { global, counters: s.counters };
        lemma_eval_variables_len(next_state.variables@, state);
        if let Ok(locals) = eval_variables(next_state.variables@, state) {
            let s1 = StateView { local_values: locals, ..s };
            lemma_eval_outputs_len(next_state.outputs@, local_model(global, s1));
        }
    }
}

/// A machine's reaction to an input that did not fail keeps its state fitting it.
pub proof fn lemma_input_step_matches<I, O, A, C: AreaCounter>(
    definition: StateMachine<I, O, A>,
    s: StateView,
    machine: usize,
    input: PuzzleInput<I, A, C>,
    global: GlobalModel,
    now: Timestamp,
)
    requires
        machine_matches(definition, s),
    ensures
        !(spec_input_step(definition, s, machine, input, global, now).0 matches Some(Err(_))) ==> machine_matches(
            definition,
            spec_input_step(definition, s, machine, input, global, now).1,
        ),
{
    let ts = definition.states@[s.current as int].user_transitions@;
    if let Some(Ok(j)) = first_user_trigger(ts, input, local_model(global, s), 0) {
        let t = ts[j as int];
        lemma_perform_matches(definition, s, machine, t.next, t.actions@, (), now, global);
    }
}

/// A machine's reaction to internal events that did not fail keeps its state fitting it.
pub proof fn lemma_event_step_matches<I, O, A>(
    definition: StateMachine<I, O, A>,
    s: StateView,
    machine: usize,
    events: Set<u8>,
    global: GlobalModel,
    now: Timestamp,
)
    requires
        machine_matches(definition, s),
    ensures
        !(spec_event_step(definition, s, machine, events, global, now).0 matches Some(Err(_))) ==> machine_matches(
            definition,
            spec_event_step(definition, s, machine, events, global, now).1,
        ),
{
    let ts = definition.states@[s.current as int].user_transitions@;
    if let Some(Ok(j)) = first_internal_trigger(ts, events, local_model(global, s), 0) {
        let t = ts[j as int];
        lemma_perform_matches(definition, s, machine, t.next, t.actions@, (), now, global);
    }
}

/// A machine's reaction to the time that did not fail keeps its state fitting it.
pub proof fn lemma_timer_step_matches<I, O, A>(
    definition: StateMachine<I, O, A>,
    s: StateView,
    machine: usize,
    global: GlobalModel,
    now: Timestamp,
)
    requires
        machine_matches(definition, s),
    ensures
        !(spec_timer_step(definition, s, machine, global, now).0 matches Some(Err(_))) ==> machine_matches(
            definition,
            spec_timer_step(definition, s, machine, global, now).1,
        ),
{
    if let Some(t) = s.timer {
        let generator = TimerDurationDataGenerator(t.spec_elapsed_u32(now));
        match definition.states@[s.current as int].timer_transition {
            TimerTransition::Reset { next, actions, .. } => {
                lemma_perform_matches(definition, s, machine, next, actions@, generator, now, global);
            },
            TimerTransition::Rollover { next, actions, .. } => {
                lemma_perform_matches(definition, s, machine, next, actions@, generator, now, global);
            },
            TimerTransition::NoTimer => {},
        }
    }
}

/// Folding in a step that did not fail keeps every state fitting its machine.
pub proof fn lemma_fold_matches<I, O, A>(
    definitions: Seq<StateMachine<I, O, A>>,
    acc: (Set<u8>, Set<u8>),
    states: Seq<StateView>,
    m: int,
    step: (Option<Result<Set<u8>, StateMachineError>>, StateView),
)
    requires
        0 <= m < states.len(),
        machines_match(definitions, states),
        m < definitions.len(),
        !(step.0 matches Some(Err(_))) ==> machine_matches(definitions[m], step.1),
    ensures
        fold_outcome(acc, states, m, step).0 is Ok ==> machines_match(definitions, fold_outcome(acc, states, m, step).1),
        fold_outcome(acc, states, m, step).1.len() == states.len(),
{
    if let Some(Ok(_)) = step.0 {
        let updated = states.update(m, step.1);
        assert forall|i: int| 0 <= i < updated.len() && i < definitions.len() implies machine_matches(
            definitions[i],
            #[trigger] updated[i],
        ) by {
            if i != m {
                assert(updated[i] == states[i]);
            }
        }
    }
}

/// A pass over the machines reacting to an input that succeeds keeps every
/// state fitting its machine.
pub proof fn lemma_input_pass_matches<I, O, A, C: AreaCounter>(
    definitions: Seq<StateMachine<I, O, A>>,
    states: Seq<StateView>,
    input: PuzzleInput<I, A, C>,
    root: RootData,
    globals: Seq<Value>,
    now: Timestamp,
    k: nat,
)
    requires
        machines_match(definitions, states),
        k <= states.len(),
        k <= definitions.len(),
    ensures
        spec_input_pass(definitions, states, input, root, globals, now, k).1.len() == states.len(),
        spec_input_pass(definitions, states, input, root, globals, now, k).0 is Ok ==> machines_match(
            definitions,
            spec_input_pass(definitions, states, input, root, globals, now, k).1,
        ),
    decreases k,
{
    if k > 0 {
        lemma_input_pass_matches(definitions, states, input, root, globals, now, (k - 1) as nat);
        let m = k - 1;
        let (r, st) = spec_input_pass(definitions, states, input, root, globals, now, (k - 1) as nat);
        if let Ok(acc) = r {
            let global = global_for(m, root, globals);
            lemma_input_step_matches(definitions[m], st[m], m as usize, input, global, now);
            lemma_fold_matches(definitions, acc, st, m, spec_input_step(definitions[m], st[m], m as usize, input, global, now));
        }
    }
}

/// A pass over unserviced machines that succeeds keeps every state fitting its machine.
pub proof fn lemma_event_pass_matches<I, O, A>(
    definitions: Seq<StateMachine<I, O, A>>,
    states: Seq<StateView>,
    events: Set<u8>,
    serviced: Set<u8>,
    root: RootData,
    globals: Seq<Value>,
    now: Timestamp,
    k: nat,
)
    requires
        machines_match(definitions, states),
        k <= states.len(),
        k <= definitions.len(),
    ensures
        spec_event_pass(definitions, states, events, serviced, root, globals, now, k).1.len() == states.len(),
        spec_event_pass(definitions, states, events, serviced, root, globals, now, k).0 is Ok ==> machines_match(
            definitions,
            spec_event_pass(definitions, states, events, serviced, root, globals, now, k).1,
        ),
    decreases k,
{
    if k > 0 {
        lemma_event_pass_matches(definitions, states, events, serviced, root, globals, now, (k - 1) as nat);
        let m = k - 1;
        let (r, st) = spec_event_pass(definitions, states, events, serviced, root, globals, now, (k - 1) as nat);
        if let Ok(acc) = r {
            if !serviced.contains(m as u8) {
                let global = global_for(m, root, globals);
                lemma_event_step_matches(definitions[m], st[m], m as usize, events, global, now);
                lemma_fold_matches(definitions, acc, st, m, spec_event_step(definitions[m], st[m], m as usize, events, global, now));
            }
        }
    }
}

/// A pass over the machines' timers that succeeds keeps every state fitting its machine.
pub proof fn lemma_timer_pass_matches<I, O, A>(
    definitions: Seq<StateMachine<I, O, A>>,
    states: Seq<StateView>,
    root: RootData,
    globals: Seq<Value>,
    now: Timestamp,
    k: nat,
)
    requires
        machines_match(definitions, states),
        k <= states.len(),
        k <= definitions.len(),
    ensures
        spec_timer_pass(definitions, states, root, globals, now, k).1.len() == states.len(),
        spec_timer_pass(definitions, states, root, globals, now, k).0 is Ok ==> machines_match(
            definitions,
            spec_timer_pass(definitions, states, root, globals, now, k).1,
        ),
    decreases k,
{
    if k > 0 {
        lemma_timer_pass_matches(definitions, states, root, globals, now, (k - 1) as nat);
        let m = k - 1;
        let (r, st) = spec_timer_pass(definitions, states, root, globals, now, (k - 1) as nat);
        if let Ok(acc) = r {
            let global = global_for(m, root, globals);
            lemma_timer_step_matches(definitions[m], st[m], m as usize, global, now);
            lemma_fold_matches(definitions, acc, st, m, spec_timer_step(definitions[m], st[m], m as usize, global, now));
        }
    }
}

/// Rounds of internal events that succeed keep every state fitting its machine.
pub proof fn lemma_rounds_match<I, O, A>(
    definitions: Seq<StateMachine<I, O, A>>,
    states: Seq<StateView>,
    events: Set<u8>,
    serviced: Set<u8>,
    root: RootData,
    globals: Seq<Value>,
    now: Timestamp,
    k: nat,
)
    requires
        machines_match(definitions, states),
        k <= states.len(),
        k <= definitions.len(),
    ensures
        spec_rounds(definitions, states, events, serviced, root, globals, now, k).0 is Ok ==> machines_match(
            definitions,
            spec_rounds(definitions, states, events, serviced, root, globals, now, k).1,
        ),
    decreases unserviced(serviced),
{
    if events != Set::<u8>::empty() {
        lemma_event_pass_matches(definitions, states, events, serviced, root, globals, now, k);
        let (r, st) = spec_event_pass(definitions, states, events, serviced, root, globals, now, k);
        if let Ok((raised, moved)) = r {
            if raised != Set::<u8>::empty() {
                lemma_round_progress(definitions, states, events, serviced, root, globals, now, k);
                lemma_rounds_match(definitions, st, raised, serviced.union(moved), root, globals, now, k);
            }
        }
    }
}

/// Processing a player input that succeeds keeps a saved state that fits its
/// definition fitting it, so the puzzle can still be saved and loaded.
pub proof fn lemma_process_keeps_match<I, O, A, C: AreaCounter>(
    template: StateMachinePuzzleTemplate<I, O, A>,
    globals: Seq<Value>,
    states: Seq<StateView>,
    input: PuzzleInput<I, A, C>,
    root: RootData,
    now: Timestamp,
)
    requires
        state_matches(template, globals, states),
    ensures
        spec_process(template.machines@, states, input, root, globals, now).0 is Ok ==> state_matches(
            template,
            globals,
            spec_process(template.machines@, states, input, root, globals, now).1,
        ),
{
    let definitions = template.machines@;
    let k = if definitions.len() < states.len() { definitions.len() } else { states.len() };
    lemma_input_pass_matches(definitions, states, input, root, globals, now, k);
    let (r, st) = spec_input_pass(definitions, states, input, root, globals, now, k);
    if let Ok((raised, moved)) = r {
        lemma_rounds_match(definitions, st, raised, moved, root, globals, now, k);
        lemma_rounds_len(definitions, st, raised, moved, root, globals, now, k);
    }
}

/// Processing the time that succeeds keeps a saved state that fits its
/// definition fitting it.
pub proof fn lemma_process_timer_keeps_match<I, O, A>(
    template: StateMachinePuzzleTemplate<I, O, A>,
    globals: Seq<Value>,
    states: Seq<StateView>,
    root: RootData,
    now: Timestamp,
)
    requires
        state_matches(template, globals, states),
    ensures
        spec_process_timer(template.machines@, states, root, globals, now).0 is Ok ==> state_matches(
            template,
            globals,
            spec_process_timer(template.machines@, states, root, globals, now).1,
        ),
{
    let definitions = template.machines@;
    let k = if definitions.len() < states.len() { definitions.len() } else { states.len() };
    lemma_timer_pass_matches(definitions, states, root, globals, now, k);
    let (r, st) = spec_timer_pass(definitions, states, root, globals, now, k);
    if let Ok((raised, moved)) = r {
        lemma_rounds_match(definitions, st, raised, moved, root, globals, now, k);
        lemma_rounds_len(definitions, st, raised, moved, root, globals, now, k);
    }
}

/// Rounds of internal events keep the number of machine states.
pub proof fn lemma_rounds_len<I, O, A>(
    definitions: Seq<StateMachine<I, O, A>>,
    states: Seq<StateView>,
    events: Set<u8>,
    serviced: Set<u8>,
    root: RootData,
    globals: Seq<Value>,
    now: Timestamp,
    k: nat,
)
    requires
        k <= states.len(),
    ensures
        spec_rounds(definitions, states, events, serviced, root, globals, now, k).1.len() == states.len(),
    decreases unserviced(serviced),
{
    if events != Set::<u8>::empty() {
        lemma_event_pass_len(definitions, states, events, serviced, root, globals, now, k);
        let (r, st) = spec_event_pass(definitions, states, events, serviced, root, globals, now, k);
        if let Ok((raised, moved)) = r {
            if raised != Set::<u8>::empty() {
                lemma_round_progress(definitions, states, events, serviced, root, globals, now, k);
                lemma_rounds_len(definitions, st, raised, serviced.union(moved), root, globals, now, k);
            }
        }
    }
}

/// A pass over unserviced machines keeps the number of machine states.
pub proof fn lemma_event_pass_len<I, O, A>(
    definitions: Seq<StateMachine<I, O, A>>,
    states: Seq<StateView>,
    events: Set<u8>,
    serviced: Set<u8>,
    root: RootData,
    globals: Seq<Value>,
    now: Timestamp,
    k: nat,
)
    requires
        k <= states.len(),
    ensures
        spec_event_pass(definitions, states, events, serviced, root, globals, now, k).1.len() == states.len(),
    decreases k,
{
    if k > 0 {
        lemma_event_pass_len(definitions, states, events, serviced, root, globals, now, (k - 1) as nat);
    }
}

} // verus!
