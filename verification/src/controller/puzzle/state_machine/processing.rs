//! What processing an input, a timer or a round of internal events does to
//! the machines of a puzzle, stated over their views.

use vstd::prelude::*;
use vstd::set_lib::{lemma_int_range, lemma_len_subset, lemma_map_size_bound, set_int_range};
use crate::controller::puzzle::{MultiStateValue, ProcessingResult, PuzzleInput, Value};
use crate::controller::puzzle::area::AreaCounter;
use crate::controller::puzzle::state_machine::data::{GlobalModel, LocalModel, LocalVariableName, RootData};
use crate::controller::puzzle::state_machine::error::StateMachineError;
use crate::controller::puzzle::state_machine::state::{State, StateMachine, StateView, local_model, spec_perform};
use crate::controller::puzzle::state_machine::timer_transition::{TimerDurationDataGenerator, TimerTransition};
use crate::controller::puzzle::state_machine::transition::{
    Transition, spec_should_trigger, spec_should_trigger_internal,
};
use crate::time::{Timestamp, spec_earliest};

verus! {

/// The views of a list of machine states.
pub open spec fn views(states: Seq<State>) -> Seq<StateView> {
    states.map_values(|s: State| s@)
}

/// The machine identifiers not yet serviced in a round of internal events.
pub open spec fn unserviced(serviced: Set<u8>) -> nat {
    Set::<u8>::full().difference(serviced).len()
}

/// There are finitely many machine identifiers: at most 256.
pub proof fn lemma_machine_ids_finite()
    ensures
        Set::<u8>::full().finite(),
        Set::<u8>::full().len() <= 256,
{
    let f = |i: int| i as u8;
    let r = set_int_range(0, 256);
    lemma_int_range(0, 256);
    assert(r.map(f) =~= Set::<u8>::full()) by {
        assert forall|x: u8| Set::<u8>::full().contains(x) implies r.map(f).contains(x) by {
            assert(r.contains(x as int));
            assert(f(x as int) == x);
        }
    }
    lemma_map_size_bound(r, Set::<u8>::full(), f);
}

/// Servicing a machine not serviced before leaves fewer unserviced.
pub proof fn lemma_unserviced_shrinks(serviced: Set<u8>, added: Set<u8>, m: u8)
    requires
        added.contains(m),
        !serviced.contains(m),
    ensures
        unserviced(serviced.union(added)) < unserviced(serviced),
{
    lemma_machine_ids_finite();
    let before = Set::<u8>::full().difference(serviced);
    let after = Set::<u8>::full().difference(serviced.union(added));
    lemma_len_subset(before, Set::<u8>::full());
    assert(after.subset_of(before.remove(m)));
    lemma_len_subset(after, before.remove(m));
}

/// The index of the first transition, from `j` on, that fires for a player
/// input, or the first error met on the way.
pub open spec fn first_user_trigger<I, A, C: AreaCounter>(
    ts: Seq<Transition<I, A, LocalVariableName>>,
    input: PuzzleInput<I, A, C>,
    local: LocalModel,
    j: nat,
) -> Option<Result<nat, StateMachineError>>
    decreases ts.len() - j,
{
    if j >= ts.len() {
        None
    } else {
        match spec_should_trigger(ts[j as int], input, local) {
            None => first_user_trigger(ts, input, local, j + 1),
            Some(Err(e)) => Some(Err(e)),
            Some(Ok(_)) => Some(Ok(j)),
        }
    }
}

/// The index of the first transition, from `j` on, that fires for a set of
/// internal events, or the first error met on the way.
pub open spec fn first_internal_trigger<I, A>(
    ts: Seq<Transition<I, A, LocalVariableName>>,
    events: Set<u8>,
    local: LocalModel,
    j: nat,
) -> Option<Result<nat, StateMachineError>>
    decreases ts.len() - j,
{
    if j >= ts.len() {
        None
    } else {
        match spec_should_trigger_internal(ts[j as int], events, local) {
            None => first_internal_trigger(ts, events, local, j + 1),
            Some(Err(e)) => Some(Err(e)),
            Some(Ok(_)) => Some(Ok(j)),
        }
    }
}

/// The error for a machine whose current state does not exist.
pub open spec fn invalid_state(machine: usize, s: StateView) -> StateMachineError {
    StateMachineError::InvalidState { machine, state: s.current }
}

/// One machine reacting to a player input: `None` when no transition fires,
/// otherwise the events it raised or the error met, and its new state.
pub open spec fn spec_input_step<I, O, A, C: AreaCounter>(
    definition: StateMachine<I, O, A>,
    s: StateView,
    machine: usize,
    input: PuzzleInput<I, A, C>,
    global: GlobalModel,
    now: Timestamp,
) -> (Option<Result<Set<u8>, StateMachineError>>, StateView) {
    if (s.current as int) >= definition.states@.len() {
        (Some(Err(invalid_state(machine, s))), s)
    } else {
        let ts = definition.states@[s.current as int].user_transitions@;
        match first_user_trigger(ts, input, local_model(global, s), 0) {
            None => (None, s),
            Some(Err(e)) => (Some(Err(e)), s),
            Some(Ok(j)) => {
                let t = ts[j as int];
                let (r, s2) = spec_perform(s, machine, t.next, t.actions@, (), now, definition.states@, global);
                (Some(r), s2)
            },
        }
    }
}

/// One machine reacting to a set of internal events.
pub open spec fn spec_event_step<I, O, A>(
    definition: StateMachine<I, O, A>,
    s: StateView,
    machine: usize,
    events: Set<u8>,
    global: GlobalModel,
    now: Timestamp,
) -> (Option<Result<Set<u8>, StateMachineError>>, StateView) {
    if (s.current as int) >= definition.states@.len() {
        (Some(Err(invalid_state(machine, s))), s)
    } else {
        let ts = definition.states@[s.current as int].user_transitions@;
        match first_internal_trigger(ts, events, local_model(global, s), 0) {
            None => (None, s),
            Some(Err(e)) => (Some(Err(e)), s),
            Some(Ok(j)) => {
                let t = ts[j as int];
                let (r, s2) = spec_perform(s, machine, t.next, t.actions@, (), now, definition.states@, global);
                (Some(r), s2)
            },
        }
    }
}

/// One machine reacting to the time `now`: when its timer ran out before
/// `now`, it takes its state's timer transition, if that state has one.
pub open spec fn spec_timer_step<I, O, A>(
    definition: StateMachine<I, O, A>,
    s: StateView,
    machine: usize,
    global: GlobalModel,
    now: Timestamp,
) -> (Option<Result<Set<u8>, StateMachineError>>, StateView) {
    match s.timer {
        Some(t) if t.spec_before(now) => if (s.current as int) >= definition.states@.len() {
            (Some(Err(invalid_state(machine, s))), s)
        } else {
            let generator = TimerDurationDataGenerator(t.spec_elapsed_u32(now));
            match definition.states@[s.current as int].timer_transition {
                TimerTransition::NoTimer => (None, s),
                TimerTransition::Reset { next, actions, .. } => {
                    let (r, s2) = spec_perform(s, machine, next, actions@, generator, now, definition.states@, global);
                    (Some(r), s2)
                },
                TimerTransition::Rollover { next, actions, .. } => {
                    let (r, s2) = spec_perform(s, machine, next, actions@, generator, now, definition.states@, global);
                    (Some(r), s2)
                },
            }
        },
        _ => (None, s),
    }
}

/// What a machine sees of the puzzle's globals.
pub open spec fn global_for(machine: int, root: RootData, globals: Seq<Value>) -> GlobalModel {
    GlobalModel { id: machine as usize, root, globals }
}

/// Folds the outcome of machine `m` into a pass over the machines: the events
/// raised and the machines that moved so far, or the first error.
pub open spec fn fold_outcome(
    acc: (Set<u8>, Set<u8>),
    states: Seq<StateView>,
    m: int,
    step: (Option<Result<Set<u8>, StateMachineError>>, StateView),
) -> (Result<(Set<u8>, Set<u8>), StateMachineError>, Seq<StateView>) {
    match step.0 {
        None => (Ok(acc), states),
        Some(Err(e)) => (Err(e), states.update(m, step.1)),
        Some(Ok(ev)) => (Ok((acc.0.union(ev), acc.1.insert(m as u8))), states.update(m, step.1)),
    }
}

/// The first `k` machines, in order, reacting to a player input: the events
/// raised and the machines that moved, or the first error, and the states
/// afterwards. Machines after an error are not visited.
pub open spec fn spec_input_pass<I, O, A, C: AreaCounter>(
    definitions: Seq<StateMachine<I, O, A>>,
    states: Seq<StateView>,
    input: PuzzleInput<I, A, C>,
    root: RootData,
    globals: Seq<Value>,
    now: Timestamp,
    k: nat,
) -> (Result<(Set<u8>, Set<u8>), StateMachineError>, Seq<StateView>)
    decreases k,
{
    if k == 0 {
        (Ok((Set::empty(), Set::empty())), states)
    } else {
        let m = k - 1;
        let (r, st) = spec_input_pass(definitions, states, input, root, globals, now, (k - 1) as nat);
        match r {
            Err(e) => (Err(e), st),
            Ok(acc) => fold_outcome(
                acc,
                st,
                m,
                spec_input_step(definitions[m], st[m], m as usize, input, global_for(m, root, globals), now),
            ),
        }
    }
}

/// The first `k` machines not yet serviced reacting to a set of internal events.
pub open spec fn spec_event_pass<I, O, A>(
    definitions: Seq<StateMachine<I, O, A>>,
    states: Seq<StateView>,
    events: Set<u8>,
    serviced: Set<u8>,
    root: RootData,
    globals: Seq<Value>,
    now: Timestamp,
    k: nat,
) -> (Result<(Set<u8>, Set<u8>), StateMachineError>, Seq<StateView>)
    decreases k,
{
    if k == 0 {
        (Ok((Set::empty(), Set::empty())), states)
    } else {
        let m = k - 1;
        let (r, st) = spec_event_pass(definitions, states, events, serviced, root, globals, now, (k - 1) as nat);
        match r {
            Err(e) => (Err(e), st),
            Ok(acc) => if serviced.contains(m as u8) {
                (Ok(acc), st)
            } else {
                fold_outcome(
                    acc,
                    st,
                    m,
                    spec_event_step(definitions[m], st[m], m as usize, events, global_for(m, root, globals), now),
                )
            },
        }
    }
}

/// The first `k` machines, in order, reacting to the time `now`.
pub open spec fn spec_timer_pass<I, O, A>(
    definitions: Seq<StateMachine<I, O, A>>,
    states: Seq<StateView>,
    root: RootData,
    globals: Seq<Value>,
    now: Timestamp,
    k: nat,
) -> (Result<(Set<u8>, Set<u8>), StateMachineError>, Seq<StateView>)
    decreases k,
{
    if k == 0 {
        (Ok((Set::empty(), Set::empty())), states)
    } else {
        let m = k - 1;
        let (r, st) = spec_timer_pass(definitions, states, root, globals, now, (k - 1) as nat);
        match r {
            Err(e) => (Err(e), st),
            Ok(acc) => fold_outcome(acc, st, m, spec_timer_step(definitions[m], st[m], m as usize, global_for(m, root, globals), now)),
        }
    }
}

/// A pass that succeeds moved only machines outside `serviced`, and moved
/// at least one when it raised any event.
pub open spec fn services_fresh(r: Result<(Set<u8>, Set<u8>), StateMachineError>, serviced: Set<u8>) -> bool {
    r matches Ok((raised, moved)) ==> {
        &&& moved.disjoint(serviced)
        &&& raised != Set::<u8>::empty() ==> exists|x: u8| #[trigger] moved.contains(x)
    }
}

/// A pass over unserviced machines only services machines not serviced
/// before, and raises events only when it services one.
pub proof fn lemma_event_pass_fresh<I, O, A>(
    definitions: Seq<StateMachine<I, O, A>>,
    states: Seq<StateView>,
    events: Set<u8>,
    serviced: Set<u8>,
    root: RootData,
    globals: Seq<Value>,
    now: Timestamp,
    k: nat,
)
    ensures
        services_fresh(spec_event_pass(definitions, states, events, serviced, root, globals, now, k).0, serviced),
    decreases k,
{
    let result = spec_event_pass(definitions, states, events, serviced, root, globals, now, k).0;
    if k == 0 {
        assert(Set::<u8>::empty().disjoint(serviced));
    } else {
        lemma_event_pass_fresh(definitions, states, events, serviced, root, globals, now, (k - 1) as nat);
        let m = k - 1;
        let (r, st) = spec_event_pass(definitions, states, events, serviced, root, globals, now, (k - 1) as nat);
        if let Ok(acc) = r {
            if !serviced.contains(m as u8) {
                let step = spec_event_step(definitions[m], st[m], m as usize, events, global_for(m, root, globals), now);
                assert(result == fold_outcome(acc, st, m, step).0);
                if let Some(Ok(ev)) = step.0 {
                    let moved = acc.1.insert(m as u8);
                    assert(moved.contains(m as u8));
                    assert(moved.disjoint(serviced));
                    assert(result == Ok::<(Set<u8>, Set<u8>), StateMachineError>((acc.0.union(ev), moved)));
                }
            } else {
                assert(result == r);
            }
        }
    }
}

/// A round that raises events services a machine not serviced before.
pub proof fn lemma_round_progress<I, O, A>(
    definitions: Seq<StateMachine<I, O, A>>,
    states: Seq<StateView>,
    events: Set<u8>,
    serviced: Set<u8>,
    root: RootData,
    globals: Seq<Value>,
    now: Timestamp,
    k: nat,
)
    ensures
        spec_event_pass(definitions, states, events, serviced, root, globals, now, k).0 matches Ok((raised, moved)) ==> (
        raised != Set::<u8>::empty() ==> unserviced(serviced.union(moved)) < unserviced(serviced)),
{
    lemma_event_pass_fresh(definitions, states, events, serviced, root, globals, now, k);
    if let Ok((raised, moved)) = spec_event_pass(definitions, states, events, serviced, root, globals, now, k).0 {
        if raised != Set::<u8>::empty() {
            let x = choose|x: u8| moved.contains(x);
            lemma_unserviced_shrinks(serviced, moved, x);
        }
    }
}

/// Rounds of internal events: the machines not yet serviced react to the
/// events of the previous round, until a round raises none or fails.
pub open spec fn spec_rounds<I, O, A>(
    definitions: Seq<StateMachine<I, O, A>>,
    states: Seq<StateView>,
    events: Set<u8>,
    serviced: Set<u8>,
    root: RootData,
    globals: Seq<Value>,
    now: Timestamp,
    k: nat,
) -> (Result<(), StateMachineError>, Seq<StateView>)
    decreases unserviced(serviced),
{
    if events == Set::<u8>::empty() {
        (Ok(()), states)
    } else {
        let (r, st) = spec_event_pass(definitions, states, events, serviced, root, globals, now, k);
        match r {
            Err(e) => (Err(e), st),
            Ok((raised, moved)) => if raised == Set::<u8>::empty() {
                (Ok(()), st)
            } else {
                proof {
                    lemma_round_progress(definitions, states, events, serviced, root, globals, now, k);
                }
                spec_rounds(definitions, st, raised, serviced.union(moved), root, globals, now, k)
            },
        }
    }
}

} // verus!

verus! {

/// A pass over the machines that failed stays failed, with the same states,
/// however many more machines it is given.
pub proof fn lemma_input_pass_stops<I, O, A, C: AreaCounter>(
    definitions: Seq<StateMachine<I, O, A>>,
    states: Seq<StateView>,
    input: PuzzleInput<I, A, C>,
    root: RootData,
    globals: Seq<Value>,
    now: Timestamp,
    k: nat,
    later: nat,
)
    requires
        k <= later,
        spec_input_pass(definitions, states, input, root, globals, now, k).0 is Err,
    ensures
        spec_input_pass(definitions, states, input, root, globals, now, later) == spec_input_pass(
            definitions,
            states,
            input,
            root,
            globals,
            now,
            k,
        ),
    decreases later - k,
{
    if later > k {
        lemma_input_pass_stops(definitions, states, input, root, globals, now, k, (later - 1) as nat);
    }
}

/// A failed pass over unserviced machines stays failed.
pub proof fn lemma_event_pass_stops<I, O, A>(
    definitions: Seq<StateMachine<I, O, A>>,
    states: Seq<StateView>,
    events: Set<u8>,
    serviced: Set<u8>,
    root: RootData,
    globals: Seq<Value>,
    now: Timestamp,
    k: nat,
    later: nat,
)
    requires
        k <= later,
        spec_event_pass(definitions, states, events, serviced, root, globals, now, k).0 is Err,
    ensures
        spec_event_pass(definitions, states, events, serviced, root, globals, now, later) == spec_event_pass(
            definitions,
            states,
            events,
            serviced,
            root,
            globals,
            now,
            k,
        ),
    decreases later - k,
{
    if later > k {
        lemma_event_pass_stops(definitions, states, events, serviced, root, globals, now, k, (later - 1) as nat);
    }
}

/// A failed pass over the machines' timers stays failed.
pub proof fn lemma_timer_pass_stops<I, O, A>(
    definitions: Seq<StateMachine<I, O, A>>,
    states: Seq<StateView>,
    root: RootData,
    globals: Seq<Value>,
    now: Timestamp,
    k: nat,
    later: nat,
)
    requires
        k <= later,
        spec_timer_pass(definitions, states, root, globals, now, k).0 is Err,
    ensures
        spec_timer_pass(definitions, states, root, globals, now, later) == spec_timer_pass(definitions, states, root, globals, now, k),
    decreases later - k,
{
    if later > k {
        lemma_timer_pass_stops(definitions, states, root, globals, now, k, (later - 1) as nat);
    }
}

} // verus!

verus! {

/// The result of a pass, told by whether it moved a machine.
pub open spec fn pass_result(moved: Set<u8>) -> ProcessingResult {
    if moved == Set::<u8>::empty() {
        ProcessingResult::Unchanged
    } else {
        ProcessingResult::Updated
    }
}

/// Processing a player input: the running machines react to it in order;
/// then the machines it did not move react, in rounds, to the internal events
/// raised. `Updated` when the input moved a machine; the first error otherwise.
pub open spec fn spec_process<I, O, A, C: AreaCounter>(
    definitions: Seq<StateMachine<I, O, A>>,
    states: Seq<StateView>,
    input: PuzzleInput<I, A, C>,
    root: RootData,
    globals: Seq<Value>,
    now: Timestamp,
) -> (Result<ProcessingResult, StateMachineError>, Seq<StateView>) {
    let k = if definitions.len() < states.len() { definitions.len() } else { states.len() };
    let (r, st) = spec_input_pass(definitions, states, input, root, globals, now, k);
    match r {
        Err(e) => (Err(e), st),
        Ok((raised, moved)) => {
            let (r2, st2) = spec_rounds(definitions, st, raised, moved, root, globals, now, k);
            match r2 {
                Err(e) => (Err(e), st2),
                Ok(_) => (Ok(pass_result(moved)), st2),
            }
        },
    }
}

/// Processing the time `now`: the running machines whose timers ran out take
/// their timer transitions; then the others react, in rounds, to the
/// internal events raised. `Updated` when a timer moved a machine.
pub open spec fn spec_process_timer<I, O, A>(
    definitions: Seq<StateMachine<I, O, A>>,
    states: Seq<StateView>,
    root: RootData,
    globals: Seq<Value>,
    now: Timestamp,
) -> (Result<ProcessingResult, StateMachineError>, Seq<StateView>) {
    let k = if definitions.len() < states.len() { definitions.len() } else { states.len() };
    let (r, st) = spec_timer_pass(definitions, states, root, globals, now, k);
    match r {
        Err(e) => (Err(e), st),
        Ok((raised, moved)) => {
            let (r2, st2) = spec_rounds(definitions, st, raised, moved, root, globals, now, k);
            match r2 {
                Err(e) => (Err(e), st2),
                Ok(_) => (Ok(pass_result(moved)), st2),
            }
        },
    }
}

} // verus!

verus! {

/// A pass that succeeded without moving a machine raised no event and left
/// every state as it was.
pub proof fn lemma_quiet_input_pass<I, O, A, C: AreaCounter>(
    definitions: Seq<StateMachine<I, O, A>>,
    states: Seq<StateView>,
    input: PuzzleInput<I, A, C>,
    root: RootData,
    globals: Seq<Value>,
    now: Timestamp,
    k: nat,
)
    ensures
        (spec_input_pass(definitions, states, input, root, globals, now, k).0 matches Ok((_, moved)) && moved
            == Set::<u8>::empty()) ==> spec_input_pass(definitions, states, input, root, globals, now, k) == (Ok::<
            (Set<u8>, Set<u8>),
            StateMachineError,
        >((Set::<u8>::empty(), Set::<u8>::empty())), states),
    decreases k,
{
    if k > 0 {
        lemma_quiet_input_pass(definitions, states, input, root, globals, now, (k - 1) as nat);
        let m = k - 1;
        let (r, st) = spec_input_pass(definitions, states, input, root, globals, now, (k - 1) as nat);
        if let Ok(acc) = r {
            let step = spec_input_step(definitions[m], st[m], m as usize, input, global_for(m, root, globals), now);
            if let Some(Ok(ev)) = step.0 {
                assert(acc.1.insert(m as u8).contains(m as u8));
            }
        }
    }
}

/// A timer pass that succeeded without moving a machine raised no event and
/// left every state as it was.
pub proof fn lemma_quiet_timer_pass<I, O, A>(
    definitions: Seq<StateMachine<I, O, A>>,
    states: Seq<StateView>,
    root: RootData,
    globals: Seq<Value>,
    now: Timestamp,
    k: nat,
)
    ensures
        (spec_timer_pass(definitions, states, root, globals, now, k).0 matches Ok((_, moved)) && moved
            == Set::<u8>::empty()) ==> spec_timer_pass(definitions, states, root, globals, now, k) == (Ok::<(Set<u8>, Set<u8>), StateMachineError>(
            (Set::<u8>::empty(), Set::<u8>::empty()),
        ), states),
    decreases k,
{
    if k > 0 {
        lemma_quiet_timer_pass(definitions, states, root, globals, now, (k - 1) as nat);
        let m = k - 1;
        let (r, st) = spec_timer_pass(definitions, states, root, globals, now, (k - 1) as nat);
        if let Ok(acc) = r {
            let step = spec_timer_step(definitions[m], st[m], m as usize, global_for(m, root, globals), now);
            if let Some(Ok(ev)) = step.0 {
                assert(acc.1.insert(m as u8).contains(m as u8));
            }
        }
    }
}

/// When processing a player input reports `Unchanged`, no machine changed
/// state: the input moved none, so no internal event was raised either.
pub proof fn lemma_unchanged_input_keeps_states<I, O, A, C: AreaCounter>(
    definitions: Seq<StateMachine<I, O, A>>,
    states: Seq<StateView>,
    input: PuzzleInput<I, A, C>,
    root: RootData,
    globals: Seq<Value>,
    now: Timestamp,
)
    requires
        spec_process(definitions, states, input, root, globals, now).0 == Ok::<ProcessingResult, StateMachineError>(
            ProcessingResult::Unchanged,
        ),
    ensures
        spec_process(definitions, states, input, root, globals, now).1 == states,
{
    let k = if definitions.len() < states.len() { definitions.len() } else { states.len() };
    lemma_quiet_input_pass(definitions, states, input, root, globals, now, k);
}

/// When processing the time reports `Unchanged`, no machine changed state.
pub proof fn lemma_unchanged_timer_keeps_states<I, O, A>(
    definitions: Seq<StateMachine<I, O, A>>,
    states: Seq<StateView>,
    root: RootData,
    globals: Seq<Value>,
    now: Timestamp,
)
    requires
        spec_process_timer(definitions, states, root, globals, now).0 == Ok::<ProcessingResult, StateMachineError>(
            ProcessingResult::Unchanged,
        ),
    ensures
        spec_process_timer(definitions, states, root, globals, now).1 == states,
{
    let k = if definitions.len() < states.len() { definitions.len() } else { states.len() };
    lemma_quiet_timer_pass(definitions, states, root, globals, now, k);
}

/// No timer of the first `k` machines ran out before `now`.
pub open spec fn no_timer_expired(states: Seq<StateView>, now: Timestamp, k: nat) -> bool {
    forall|i: int| 0 <= i < k ==> !(#[trigger] states[i].timer matches Some(t) && t.spec_before(now))
}

/// Processing a time before every machine's timer runs out changes nothing
/// and reports `Unchanged`.
pub proof fn lemma_no_expired_timer_is_quiet<I, O, A>(
    definitions: Seq<StateMachine<I, O, A>>,
    states: Seq<StateView>,
    root: RootData,
    globals: Seq<Value>,
    now: Timestamp,
)
    requires
        no_timer_expired(states, now, states.len()),
    ensures
        spec_process_timer(definitions, states, root, globals, now) == (Ok::<ProcessingResult, StateMachineError>(
            ProcessingResult::Unchanged,
        ), states),
{
    let k = if definitions.len() < states.len() { definitions.len() } else { states.len() };
    lemma_no_expired_timer_pass(definitions, states, root, globals, now, k);
}

proof fn lemma_no_expired_timer_pass<I, O, A>(
    definitions: Seq<StateMachine<I, O, A>>,
    states: Seq<StateView>,
    root: RootData,
    globals: Seq<Value>,
    now: Timestamp,
    k: nat,
)
    requires
        k <= states.len(),
        no_timer_expired(states, now, states.len()),
    ensures
        spec_timer_pass(definitions, states, root, globals, now, k) == (Ok::<(Set<u8>, Set<u8>), StateMachineError>(
            (Set::<u8>::empty(), Set::<u8>::empty()),
        ), states),
    decreases k,
{
    if k > 0 {
        lemma_no_expired_timer_pass(definitions, states, root, globals, now, (k - 1) as nat);
        let m = k - 1;
        assert(!(states[m].timer matches Some(t) && t.spec_before(now)));
    }
}

} // verus!

verus! {

/// The earliest timer among the first `k` machine states, if any has one.
pub open spec fn earliest_timer(states: Seq<StateView>, k: nat) -> Option<Timestamp>
    decreases k,
{
    if k == 0 {
        None
    } else {
        match (earliest_timer(states, (k - 1) as nat), states[k - 1].timer) {
            (None, t) => t,
            (Some(a), None) => Some(a),
            (Some(a), Some(b)) => Some(spec_earliest(a, b)),
        }
    }
}

/// Pairs the items of two lists, up to the shorter one's length.
pub open spec fn paired<X, Y>(xs: Seq<X>, ys: Seq<Y>) -> Seq<(X, Y)> {
    Seq::new(if xs.len() < ys.len() { xs.len() } else { ys.len() }, |i: int| (xs[i], ys[i]))
}

/// The outputs of the first `k` machines, each paired with its current value.
pub open spec fn spec_outputs<I, O, A>(definitions: Seq<StateMachine<I, O, A>>, states: Seq<State>, k: nat) -> Seq<
    (O, MultiStateValue),
>
    decreases k,
{
    if k == 0 {
        Seq::empty()
    } else {
        spec_outputs(definitions, states, (k - 1) as nat) + paired(definitions[k - 1].outputs@, states[k - 1].outputs@)
    }
}

} // verus!
