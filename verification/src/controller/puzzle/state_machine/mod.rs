//! Puzzles made of communicating state machines.

use vstd::prelude::*;
use std::collections::BTreeSet;
use std::sync::Arc;
use vstd::std_specs::iter::IteratorSpec;
use crate::controller::LoadError;
use crate::controller::puzzle::{MultiStateValue, ProcessingResult, PuzzleInput, Value};
use crate::controller::puzzle::area::AreaCounter;
use crate::controller::puzzle::state_machine::data::{GlobalData, LocalData, LocalVariableName, RootData};
use crate::controller::puzzle::state_machine::error::StateMachineError;
use crate::controller::puzzle::state_machine::expression::{ExpressionData, VariableExpression};
use crate::controller::puzzle::state_machine::processing::{
    first_internal_trigger, first_user_trigger, lemma_event_pass_stops, lemma_input_pass_stops, lemma_round_progress,
    lemma_timer_pass_stops, spec_event_pass, spec_event_step, spec_input_pass,
    spec_input_step, spec_process, spec_process_timer, spec_rounds, spec_timer_pass, spec_timer_step, unserviced, views,
    earliest_timer, paired, spec_outputs,
};
use crate::controller::puzzle::state_machine::lifecycle::{
    lemma_blank_states_stops, machine_matches, spec_blank_puzzle, spec_blank_states, state_matches,
};
use crate::controller::puzzle::state_machine::state::{
    State, StateMachine, StateView, eval_variables, evaluate_variables, lemma_outputs_current_trans, outputs_current,
    shows_current_outputs, timer_ok,
};
use crate::controller::puzzle::state_machine::timer_transition::{
    TimerDurationDataGenerator, TimerTransition, can_start_timers, timer_start_ok,
};
use crate::controller::puzzle::state_machine::transition::Transition;
use crate::time::{Date, Delay, Timestamp, is_known_zone, local_day, spec_until, utc_now, zone_known, zone_local_day};

pub mod data;
pub mod edge_action;
pub mod error;
pub mod expression;
pub mod holiday;
pub mod lifecycle;
pub mod processing;
pub mod state;
pub mod timer_transition;
pub mod transition;
pub mod validation;

verus! {

broadcast use {vstd::std_specs::btree::group_btree_axioms, vstd::seq_lib::group_seq_properties};

/// Identifiers of inputs, outputs and areas, compared for equality.
pub trait Identifier: Sized {
    fn same(&self, other: &Self) -> (r: bool)
        ensures
            r == (*self == *other),
    ;
}

impl Identifier for u8 {
    fn same(&self, other: &Self) -> (r: bool) {
        *self == *other
    }
}

impl Identifier for u16 {
    fn same(&self, other: &Self) -> (r: bool) {
        *self == *other
    }
}

impl Identifier for u32 {
    fn same(&self, other: &Self) -> (r: bool) {
        *self == *other
    }
}

impl Identifier for u64 {
    fn same(&self, other: &Self) -> (r: bool) {
        *self == *other
    }
}

/// `String`'s `==` (`PartialEq::eq`), which compares the two texts byte for
/// byte: true exactly when the two are the same string. Verus knows of `==`
/// on strings only that their texts agree; that two strings with the same
/// text are the same value is taken on trust here.
#[verifier::external_body]
fn same_string(a: &String, b: &String) -> (r: bool)
    ensures
        r == (*a == *b),
{
    *a == *b
}

impl Identifier for String {
    fn same(&self, other: &Self) -> (r: bool) {
        same_string(self, other)
    }
}


/// Adds every event of `source` to `target`.
fn extend_events(target: &mut BTreeSet<u8>, source: &BTreeSet<u8>)
    ensures
        final(target)@ == old(target)@.union(source@),
{
    let ghost keys = source.iter().remaining().unref();
    let ghost start = target@;
    for x in it: source.iter()
        invariant
            keys == it.seq().unref(),
            keys.to_set() == source@,
            target@ == start.union(keys.take(it.index() as int).to_set()),
    {
        let ghost before = keys.take(it.index() as int);
        proof {
            assert(keys.take(it.index() as int + 1) == before.push(*x));
            assert(before.push(*x).to_set() =~= before.to_set().insert(*x)) by {
                assert forall|y: u8| before.push(*x).to_set().contains(y) <==> before.to_set().insert(*x).contains(y) by {
                    if before.push(*x).contains(y) && y != *x {
                        let j = choose|j: int| 0 <= j < before.push(*x).len() && before.push(*x)[j] == y;
                        assert(before[j] == y);
                    }
                    if before.contains(y) {
                        let j = choose|j: int| 0 <= j < before.len() && before[j] == y;
                        assert(before.push(*x)[j] == y);
                    }
                    assert(before.push(*x)[before.len() as int] == *x);
                }
            }
        }
        target.insert(*x);
        proof {
            assert(target@ =~= start.union(before.push(*x).to_set()));
        }
    }
    proof {
        assert(keys.take(keys.len() as int) == keys);
        assert(target@ =~= start.union(source@));
    }
}

/// The outcome of one machine's step, with its events as a set.
pub open spec fn outcome_view(r: Option<Result<BTreeSet<u8>, StateMachineError>>) -> Option<Result<Set<u8>, StateMachineError>> {
    match r {
        None => None,
        Some(Ok(t)) => Some(Ok(t@)),
        Some(Err(e)) => Some(Err(e)),
    }
}

/// The outcome of a pass over the machines, with its sets as sets.
pub open spec fn pass_view(r: Result<(BTreeSet<u8>, BTreeSet<u8>), StateMachineError>) -> Result<(Set<u8>, Set<u8>), StateMachineError> {
    match r {
        Ok((raised, moved)) => Ok((raised@, moved@)),
        Err(e) => Err(e),
    }
}

/// Every machine's timer, if any, is a valid instant.
pub open spec fn timers_ok(states: Seq<State>) -> bool {
    forall|i: int| 0 <= i < states.len() ==> timer_ok(#[trigger] states[i].timer)
}

/// The number of machines a puzzle runs: those with both a definition and a state.
pub open spec fn machine_count(definitions: nat, states: nat) -> nat {
    if definitions < states { definitions } else { states }
}

/// The running state of a state-machine puzzle.
#[derive(Clone, Debug)]
pub struct StateMachinePuzzleState {
    pub global_values: Vec<Value>,
    pub last_time: Timestamp,
    pub seed: u32,
    pub states: Vec<State>,
    pub timezone: String,
}

/// The definition of a state-machine puzzle: its machines and its global variables.
#[derive(Debug)]
pub struct StateMachinePuzzleTemplate<InputIdentifier, OutputIdentifier, Area> {
    pub machines: Vec<StateMachine<InputIdentifier, OutputIdentifier, Area>>,
    pub variables: Vec<VariableExpression<()>>,
}

/// Anything a state-machine puzzle can take its definition from.
pub trait StateMachinePuzzleTemplateSource {
    type InputIdentifier;

    type OutputIdentifier;

    type Area;

    /// The definition this source holds.
    spec fn spec_template(&self) -> StateMachinePuzzleTemplate<Self::InputIdentifier, Self::OutputIdentifier, Self::Area>;

    /// The definition this source holds.
    fn template(&self) -> (r: &StateMachinePuzzleTemplate<Self::InputIdentifier, Self::OutputIdentifier, Self::Area>)
        ensures
            *r == self.spec_template(),
    ;
}

impl<InputIdentifier, OutputIdentifier, Area> StateMachinePuzzleTemplateSource for StateMachinePuzzleTemplate<
    InputIdentifier,
    OutputIdentifier,
    Area,
> {
    type InputIdentifier = InputIdentifier;

    type OutputIdentifier = OutputIdentifier;

    type Area = Area;

    open spec fn spec_template(&self) -> StateMachinePuzzleTemplate<InputIdentifier, OutputIdentifier, Area> {
        *self
    }

    fn template(&self) -> (r: &StateMachinePuzzleTemplate<InputIdentifier, OutputIdentifier, Area>) {
        self
    }
}

impl<T: StateMachinePuzzleTemplateSource> StateMachinePuzzleTemplateSource for Arc<T> {
    type InputIdentifier = T::InputIdentifier;

    type OutputIdentifier = T::OutputIdentifier;

    type Area = T::Area;

    open spec fn spec_template(&self) -> StateMachinePuzzleTemplate<T::InputIdentifier, T::OutputIdentifier, T::Area> {
        (**self).spec_template()
    }

    fn template(&self) -> (r: &StateMachinePuzzleTemplate<T::InputIdentifier, T::OutputIdentifier, T::Area>) {
        (**self).template()
    }
}

/// A running state-machine puzzle and the definition it runs.
pub struct StateMachinePuzzle<Template> {
    pub state: StateMachinePuzzleState,
    pub template: Template,
}

impl StateMachinePuzzleState {
    /// The state can be run: its time zone is known and its timers are valid instants.
    pub open spec fn wf(&self) -> bool {
        &&& zone_known(self.timezone@)
        &&& timers_ok(self.states@)
    }

    /// `now` falls on a local day in the puzzle's time zone.
    pub open spec fn has_local_day(&self, now: Timestamp) -> bool {
        zone_local_day(now.seconds, now.nanos, self.timezone@) is Some
    }

    /// The root data of expressions evaluated at `now`: the seed and the local day.
    pub open spec fn spec_root(&self, now: Timestamp) -> RootData {
        RootData { seed: self.seed, date: Date { days: zone_local_day(now.seconds, now.nanos, self.timezone@)->0 } }
    }

    /// The root data of expressions evaluated at `now`: the seed and the day
    /// `now` falls on in the puzzle's time zone.
    pub fn get_root_variable_data(&self, now: Timestamp) -> (r: RootData)
        requires
            self.has_local_day(now),
        ensures
            r == self.spec_root(now),
    {
        let days = local_day(now, self.timezone.as_str());
        match days {
            Some(days) => RootData { seed: self.seed, date: Date { days } },
            None => {
                proof {
                    assert(false);
                }
                RootData { seed: self.seed, date: Date { days: 0 } }
            },
        }
    }

    /// What machine `id` sees of the puzzle's globals at `now`.
    pub fn get_variable_data(&self, now: Timestamp, id: usize) -> (r: GlobalData)
        requires
            self.has_local_day(now),
        ensures
            r.id == id,
            r.root == self.spec_root(now),
            r.globals == &self.global_values,
    {
        GlobalData { id, root: self.get_root_variable_data(now), globals: &self.global_values }
    }

    /// What machine `id` sees of the puzzle's globals at `now`, when `now`
    /// falls on a local day in the puzzle's time zone; `None` otherwise.
    pub fn variable_data_at(&self, now: Timestamp, id: usize) -> (r: Option<GlobalData>)
        ensures
            r is None <==> !self.has_local_day(now),
            r matches Some(d) ==> d.id == id && d.root == self.spec_root(now) && d.globals == &self.global_values,
    {
        if local_day(now, self.timezone.as_str()).is_some() {
            Some(self.get_variable_data(now, id))
        } else {
            None
        }
    }
}

/// Finds the first transition that fires for a player input.
fn find_user_transition<I: Identifier, A: Identifier, C: AreaCounter>(
    ts: &Vec<Transition<I, A, LocalVariableName>>,
    input: &PuzzleInput<I, A, C>,
    local_data: &LocalData,
) -> (r: Option<Result<usize, StateMachineError>>)
    ensures
        first_user_trigger(ts@, *input, local_data.model(), 0) == match r {
            None => None,
            Some(Ok(j)) => Some(Ok::<nat, StateMachineError>(j as nat)),
            Some(Err(e)) => Some(Err::<nat, StateMachineError>(e)),
        },
        r matches Some(Ok(j)) ==> j < ts@.len(),
{
    let mut j: usize = 0;
    while j < ts.len()
        invariant
            j <= ts@.len(),
            first_user_trigger(ts@, *input, local_data.model(), 0) == first_user_trigger(ts@, *input, local_data.model(), j as nat),
        decreases ts@.len() - j,
    {
        match ts[j].should_trigger(input, local_data) {
            None => {},
            Some(Err(e)) => {
                return Some(Err(e));
            },
            Some(Ok(_)) => {
                return Some(Ok(j));
            },
        }
        j = j + 1;
    }
    None
}

/// Finds the first transition that fires for a set of internal events.
fn find_internal_transition<I: Identifier, A: Identifier>(
    ts: &Vec<Transition<I, A, LocalVariableName>>,
    events: &BTreeSet<u8>,
    local_data: &LocalData,
) -> (r: Option<Result<usize, StateMachineError>>)
    ensures
        first_internal_trigger(ts@, events@, local_data.model(), 0) == match r {
            None => None,
            Some(Ok(j)) => Some(Ok::<nat, StateMachineError>(j as nat)),
            Some(Err(e)) => Some(Err::<nat, StateMachineError>(e)),
        },
        r matches Some(Ok(j)) ==> j < ts@.len(),
{
    let mut j: usize = 0;
    while j < ts.len()
        invariant
            j <= ts@.len(),
            first_internal_trigger(ts@, events@, local_data.model(), 0) == first_internal_trigger(
                ts@,
                events@,
                local_data.model(),
                j as nat,
            ),
        decreases ts@.len() - j,
    {
        match ts[j].should_trigger_internal(events, local_data) {
            None => {},
            Some(Err(e)) => {
                return Some(Err(e));
            },
            Some(Ok(_)) => {
                return Some(Ok(j));
            },
        }
        j = j + 1;
    }
    None
}

/// Machine `machine` reacting to a player input.
fn input_step<I: Identifier, O, A: Identifier, C: AreaCounter>(
    definition: &StateMachine<I, O, A>,
    state: &mut State,
    machine: usize,
    input: &PuzzleInput<I, A, C>,
    global_data: GlobalData,
    now: Timestamp,
) -> (r: Option<Result<BTreeSet<u8>, StateMachineError>>)
    requires
        timer_start_ok(now),
        timer_ok(old(state).timer),
    ensures
        outcome_view(r) == spec_input_step(*definition, old(state)@, machine, *input, global_data.model(), now).0,
        final(state)@ == spec_input_step(*definition, old(state)@, machine, *input, global_data.model(), now).1,
        timer_ok(final(state).timer),
        r is None ==> *final(state) == *old(state),
        r matches Some(Ok(_)) ==> shows_current_outputs(*definition, *final(state)),
{
    if (state.current as usize) >= definition.states.len() {
        return Some(Err(StateMachineError::InvalidState { machine, state: state.current }));
    }
    let ts = &definition.states[state.current as usize].user_transitions;
    let found = {
        let local_data = state.get_local_variable_data(global_data);
        find_user_transition(ts, input, &local_data)
    };
    match found {
        None => None,
        Some(Err(e)) => Some(Err(e)),
        Some(Ok(j)) => {
            let t = &ts[j];
            Some(state.perform_transition(machine, t.next, &t.actions, now, definition, global_data, &()))
        },
    }
}

/// Machine `machine` reacting to a set of internal events.
fn event_step<I: Identifier, O, A: Identifier>(
    definition: &StateMachine<I, O, A>,
    state: &mut State,
    machine: usize,
    events: &BTreeSet<u8>,
    global_data: GlobalData,
    now: Timestamp,
) -> (r: Option<Result<BTreeSet<u8>, StateMachineError>>)
    requires
        timer_start_ok(now),
        timer_ok(old(state).timer),
    ensures
        outcome_view(r) == spec_event_step(*definition, old(state)@, machine, events@, global_data.model(), now).0,
        final(state)@ == spec_event_step(*definition, old(state)@, machine, events@, global_data.model(), now).1,
        timer_ok(final(state).timer),
        r is None ==> *final(state) == *old(state),
        r matches Some(Ok(_)) ==> shows_current_outputs(*definition, *final(state)),
{
    if (state.current as usize) >= definition.states.len() {
        return Some(Err(StateMachineError::InvalidState { machine, state: state.current }));
    }
    let ts = &definition.states[state.current as usize].user_transitions;
    let found = {
        let local_data = state.get_local_variable_data(global_data);
        find_internal_transition(ts, events, &local_data)
    };
    match found {
        None => None,
        Some(Err(e)) => Some(Err(e)),
        Some(Ok(j)) => {
            let t = &ts[j];
            Some(state.perform_transition(machine, t.next, &t.actions, now, definition, global_data, &()))
        },
    }
}

/// Machine `machine` reacting to the time `now`.
fn timer_step<I, O, A>(definition: &StateMachine<I, O, A>, state: &mut State, machine: usize, global_data: GlobalData, now: Timestamp) -> (r:
    Option<Result<BTreeSet<u8>, StateMachineError>>)
    requires
        timer_start_ok(now),
        timer_ok(old(state).timer),
    ensures
        outcome_view(r) == spec_timer_step(*definition, old(state)@, machine, global_data.model(), now).0,
        final(state)@ == spec_timer_step(*definition, old(state)@, machine, global_data.model(), now).1,
        timer_ok(final(state).timer),
        r is None ==> *final(state) == *old(state),
        r matches Some(Ok(_)) ==> shows_current_outputs(*definition, *final(state)),
{
    let elapsed: u32 = match state.timer {
        Some(t) => {
            if !t.before(&now) {
                return None;
            }
            t.elapsed_u32(&now)
        },
        None => {
            return None;
        },
    };
    if (state.current as usize) >= definition.states.len() {
        return Some(Err(StateMachineError::InvalidState { machine, state: state.current }));
    }
    match &definition.states[state.current as usize].timer_transition {
        TimerTransition::NoTimer => None,
        TimerTransition::Reset { next, actions, .. } => Some(
            state.perform_transition(machine, *next, actions, now, definition, global_data, &TimerDurationDataGenerator(elapsed)),
        ),
        TimerTransition::Rollover { next, actions, .. } => Some(
            state.perform_transition(machine, *next, actions, now, definition, global_data, &TimerDurationDataGenerator(elapsed)),
        ),
    }
}


impl<Template: StateMachinePuzzleTemplateSource> StateMachinePuzzle<Template> {
    /// The definitions of the machines this puzzle runs.
    pub open spec fn definitions(&self) -> Seq<StateMachine<Template::InputIdentifier, Template::OutputIdentifier, Template::Area>> {
        self.template.spec_template().machines@
    }

    /// How many machines run: those with both a definition and a state.
    pub open spec fn running(&self) -> nat {
        machine_count(self.definitions().len(), self.state.states@.len())
    }

    /// Whether `self` differs from `other` in its machine states only.
    pub open spec fn same_but_states(&self, other: Self) -> bool {
        &&& self.template == other.template
        &&& self.state.global_values == other.state.global_values
        &&& self.state.last_time == other.state.last_time
        &&& self.state.seed == other.state.seed
        &&& self.state.timezone == other.state.timezone
        &&& self.state.states@.len() == other.state.states@.len()
    }
}

impl<Template: StateMachinePuzzleTemplateSource> StateMachinePuzzle<Template> where
    Template::InputIdentifier: Identifier,
    Template::Area: Identifier,
 {

    /// Every running machine reacts to a player input, in order.
    fn input_pass<Counter: AreaCounter>(
        &mut self,
        input: &PuzzleInput<Template::InputIdentifier, Template::Area, Counter>,
        now: Timestamp,
        root: RootData,
    ) -> (r: Result<(BTreeSet<u8>, BTreeSet<u8>), StateMachineError>)
        requires
            timer_start_ok(now),
            timers_ok(old(self).state.states@),
        ensures
            final(self).same_but_states(*old(self)),
            timers_ok(final(self).state.states@),
            r is Ok ==> outputs_current(old(self).definitions(), old(self).state.states@, final(self).state.states@),
            (pass_view(r), views(final(self).state.states@)) == spec_input_pass(
                old(self).definitions(),
                views(old(self).state.states@),
                *input,
                root,
                old(self).state.global_values@,
                now,
                old(self).running(),
            ),
    {
        let ghost start = *self;
        let machines = &self.template.template().machines;
        let count = if machines.len() < self.state.states.len() {
            machines.len()
        } else {
            self.state.states.len()
        };
        let mut raised: BTreeSet<u8> = BTreeSet::new();
        let mut moved: BTreeSet<u8> = BTreeSet::new();
        let mut i: usize = 0;
        while i < count
            invariant
                i <= count,
                timer_start_ok(now),
                start == *old(self),
                count == start.running(),
                machines@ == start.definitions(),
                self.same_but_states(start),
                timers_ok(self.state.states@),
                outputs_current(start.definitions(), start.state.states@, self.state.states@),
                spec_input_pass(start.definitions(), views(start.state.states@), *input, root, start.state.global_values@, now, i as nat)
                    == (Ok::<(Set<u8>, Set<u8>), StateMachineError>((raised@, moved@)), views(self.state.states@)),
            decreases count - i,
        {
            let ghost before = self.state.states@;
            let global_data = GlobalData { id: i, root, globals: &self.state.global_values };
            let step = input_step(&machines[i], &mut self.state.states[i], i, input, global_data, now);
            proof {
                assert(views(self.state.states@) =~= views(before).update(i as int, self.state.states@[i as int]@));
                assert forall|j: int| 0 <= j < self.state.states@.len() implies timer_ok(#[trigger] self.state.states@[j].timer) by {
                    if j != i {
                        assert(self.state.states@[j] == before[j]);
                    }
                }
                if step matches Some(Err(_)) {
                } else {
                    assert forall|j: int| 0 <= j < self.state.states@.len() implies #[trigger] self.state.states@[j] == start.state.states@[j]
                        || (j < start.definitions().len() && shows_current_outputs(start.definitions()[j], self.state.states@[j])) by {
                        if j != i {
                            assert(self.state.states@[j] == before[j]);
                        }
                    }
                }
            }
            match step {
                None => {
                    proof {
                        assert(views(self.state.states@) =~= views(before));
                    }
                },
                Some(Err(e)) => {
                    proof {
                        lemma_input_pass_stops(start.definitions(), views(start.state.states@), *input, root, start.state.global_values@, now, i as nat + 1, count as nat);
                    }
                    return Err(e);
                },
                Some(Ok(events)) => {
                    extend_events(&mut raised, &events);
                    moved.insert(i as u8);
                },
            }
            i = i + 1;
        }
        Ok((raised, moved))
    }

    /// Every running machine not yet serviced reacts to a set of internal events, in order.
    fn event_pass(&mut self, events: &BTreeSet<u8>, serviced: &BTreeSet<u8>, now: Timestamp, root: RootData) -> (r: Result<
        (BTreeSet<u8>, BTreeSet<u8>),
        StateMachineError,
    >)
        requires
            timer_start_ok(now),
            timers_ok(old(self).state.states@),
        ensures
            final(self).same_but_states(*old(self)),
            timers_ok(final(self).state.states@),
            r is Ok ==> outputs_current(old(self).definitions(), old(self).state.states@, final(self).state.states@),
            (pass_view(r), views(final(self).state.states@)) == spec_event_pass(
                old(self).definitions(),
                views(old(self).state.states@),
                events@,
                serviced@,
                root,
                old(self).state.global_values@,
                now,
                old(self).running(),
            ),
    {
        let ghost start = *self;
        let machines = &self.template.template().machines;
        let count = if machines.len() < self.state.states.len() {
            machines.len()
        } else {
            self.state.states.len()
        };
        let mut raised: BTreeSet<u8> = BTreeSet::new();
        let mut moved: BTreeSet<u8> = BTreeSet::new();
        let mut i: usize = 0;
        while i < count
            invariant
                i <= count,
                timer_start_ok(now),
                start == *old(self),
                count == start.running(),
                machines@ == start.definitions(),
                self.same_but_states(start),
                timers_ok(self.state.states@),
                outputs_current(start.definitions(), start.state.states@, self.state.states@),
                spec_event_pass(
                    start.definitions(),
                    views(start.state.states@),
                    events@,
                    serviced@,
                    root,
                    start.state.global_values@,
                    now,
                    i as nat,
                ) == (Ok::<(Set<u8>, Set<u8>), StateMachineError>((raised@, moved@)), views(self.state.states@)),
            decreases count - i,
        {
            if !serviced.contains(&(i as u8)) {
                let ghost before = self.state.states@;
                let global_data = GlobalData { id: i, root, globals: &self.state.global_values };
                let step = event_step(&machines[i], &mut self.state.states[i], i, events, global_data, now);
                proof {
                    assert(views(self.state.states@) =~= views(before).update(i as int, self.state.states@[i as int]@));
                    assert forall|j: int| 0 <= j < self.state.states@.len() implies timer_ok(#[trigger] self.state.states@[j].timer) by {
                        if j != i {
                            assert(self.state.states@[j] == before[j]);
                        }
                    }
                    if step matches Some(Err(_)) {
                    } else {
                        assert forall|j: int| 0 <= j < self.state.states@.len() implies #[trigger] self.state.states@[j] == start.state.states@[j]
                            || (j < start.definitions().len() && shows_current_outputs(start.definitions()[j], self.state.states@[j])) by {
                            if j != i {
                                assert(self.state.states@[j] == before[j]);
                            }
                        }
                    }
                }
                match step {
                    None => {
                        proof {
                            assert(views(self.state.states@) =~= views(before));
                        }
                    },
                    Some(Err(e)) => {
                        proof {
                            lemma_event_pass_stops(
                                start.definitions(),
                                views(start.state.states@),
                                events@,
                                serviced@,
                                root,
                                start.state.global_values@,
                                now,
                                i as nat + 1,
                                count as nat,
                            );
                        }
                        return Err(e);
                    },
                    Some(Ok(more)) => {
                        extend_events(&mut raised, &more);
                        moved.insert(i as u8);
                    },
                }
            }
            i = i + 1;
        }
        Ok((raised, moved))
    }

    /// Every running machine whose timer ran out before `now` takes its
    /// timer transition, in order.
    fn timer_pass(&mut self, now: Timestamp, root: RootData) -> (r: Result<(BTreeSet<u8>, BTreeSet<u8>), StateMachineError>)
        requires
            timer_start_ok(now),
            timers_ok(old(self).state.states@),
        ensures
            final(self).same_but_states(*old(self)),
            timers_ok(final(self).state.states@),
            r is Ok ==> outputs_current(old(self).definitions(), old(self).state.states@, final(self).state.states@),
            (pass_view(r), views(final(self).state.states@)) == spec_timer_pass(
                old(self).definitions(),
                views(old(self).state.states@),
                root,
                old(self).state.global_values@,
                now,
                old(self).running(),
            ),
    {
        let ghost start = *self;
        let machines = &self.template.template().machines;
        let count = if machines.len() < self.state.states.len() {
            machines.len()
        } else {
            self.state.states.len()
        };
        let mut raised: BTreeSet<u8> = BTreeSet::new();
        let mut moved: BTreeSet<u8> = BTreeSet::new();
        let mut i: usize = 0;
        while i < count
            invariant
                i <= count,
                timer_start_ok(now),
                start == *old(self),
                count == start.running(),
                machines@ == start.definitions(),
                self.same_but_states(start),
                timers_ok(self.state.states@),
                outputs_current(start.definitions(), start.state.states@, self.state.states@),
                spec_timer_pass(start.definitions(), views(start.state.states@), root, start.state.global_values@, now, i as nat) == (
                Ok::<(Set<u8>, Set<u8>), StateMachineError>((raised@, moved@)), views(self.state.states@)),
            decreases count - i,
        {
            let ghost before = self.state.states@;
            let global_data = GlobalData { id: i, root, globals: &self.state.global_values };
            let step = timer_step(&machines[i], &mut self.state.states[i], i, global_data, now);
            proof {
                assert(views(self.state.states@) =~= views(before).update(i as int, self.state.states@[i as int]@));
                assert forall|j: int| 0 <= j < self.state.states@.len() implies timer_ok(#[trigger] self.state.states@[j].timer) by {
                    if j != i {
                        assert(self.state.states@[j] == before[j]);
                    }
                }
                if step matches Some(Err(_)) {
                } else {
                    assert forall|j: int| 0 <= j < self.state.states@.len() implies #[trigger] self.state.states@[j] == start.state.states@[j]
                        || (j < start.definitions().len() && shows_current_outputs(start.definitions()[j], self.state.states@[j])) by {
                        if j != i {
                            assert(self.state.states@[j] == before[j]);
                        }
                    }
                }
            }
            match step {
                None => {
                    proof {
                        assert(views(self.state.states@) =~= views(before));
                    }
                },
                Some(Err(e)) => {
                    proof {
                        lemma_timer_pass_stops(start.definitions(), views(start.state.states@), root, start.state.global_values@, now, i as nat + 1, count as nat);
                    }
                    return Err(e);
                },
                Some(Ok(events)) => {
                    extend_events(&mut raised, &events);
                    moved.insert(i as u8);
                },
            }
            i = i + 1;
        }
        Ok((raised, moved))
    }

    /// Runs rounds of internal events: the machines not yet serviced react to
    /// the events raised in the previous round, until a round raises none.
    fn process_triggers(&mut self, now: Timestamp, triggers: BTreeSet<u8>, serviced: BTreeSet<u8>) -> (r: Result<(), StateMachineError>)
        requires
            timer_start_ok(now),
            old(self).state.wf(),
            old(self).state.has_local_day(now),
        ensures
            final(self).same_but_states(*old(self)),
            final(self).state.wf(),
            r is Ok ==> outputs_current(old(self).definitions(), old(self).state.states@, final(self).state.states@),
            (r, views(final(self).state.states@)) == spec_rounds(
                old(self).definitions(),
                views(old(self).state.states@),
                triggers@,
                serviced@,
                old(self).state.spec_root(now),
                old(self).state.global_values@,
                now,
                old(self).running(),
            ),
    {
        let ghost start = *self;
        let ghost goal = spec_rounds(
            start.definitions(),
            views(start.state.states@),
            triggers@,
            serviced@,
            start.state.spec_root(now),
            start.state.global_values@,
            now,
            start.running(),
        );
        let root = self.state.get_root_variable_data(now);
        let mut events = triggers;
        let mut done = serviced;
        loop
            invariant
                timer_start_ok(now),
                start == *old(self),
                root == start.state.spec_root(now),
                self.same_but_states(start),
                self.state.wf(),
                outputs_current(start.definitions(), start.state.states@, self.state.states@),
                spec_rounds(
                    start.definitions(),
                    views(self.state.states@),
                    events@,
                    done@,
                    root,
                    start.state.global_values@,
                    now,
                    start.running(),
                ) == goal,
                goal == spec_rounds(
                    old(self).definitions(),
                    views(old(self).state.states@),
                    triggers@,
                    serviced@,
                    old(self).state.spec_root(now),
                    old(self).state.global_values@,
                    now,
                    old(self).running(),
                ),
            decreases unserviced(done@),
        {
            if events.is_empty() {
                assert(events@ == Set::<u8>::empty());
                assert(goal == (Ok::<(), StateMachineError>(()), views(self.state.states@)));
                return Ok(());
            }
            let ghost states_before = views(self.state.states@);
            let ghost machines_before = self.state.states@;
            let (raised, moved) = match self.event_pass(&events, &done, now, root) {
                Ok(found) => {
                    proof {
                        lemma_outputs_current_trans(start.definitions(), start.state.states@, machines_before, self.state.states@);
                    }
                    found
                },
                Err(e) => {
                    assert(goal == (Err::<(), StateMachineError>(e), views(self.state.states@)));
                    return Err(e);
                },
            };
            if raised.is_empty() {
                assert(raised@ == Set::<u8>::empty());
                assert(goal == (Ok::<(), StateMachineError>(()), views(self.state.states@)));
                return Ok(());
            }
            proof {
                lemma_round_progress(
                    start.definitions(),
                    states_before,
                    events@,
                    done@,
                    root,
                    start.state.global_values@,
                    now,
                    start.running(),
                );
            }
            extend_events(&mut done, &moved);
            events = raised;
        }
    }

    /// Every running machine reacts to a player input; then the machines not
    /// moved by it react, in rounds, to the internal events raised. The result
    /// is `Updated` when the input moved a machine.
    pub fn process<Counter: AreaCounter>(
        &mut self,
        input: PuzzleInput<Template::InputIdentifier, Template::Area, Counter>,
        now: Timestamp,
    ) -> (r: Result<ProcessingResult, StateMachineError>)
        requires
            timer_start_ok(now),
            old(self).state.wf(),
            old(self).state.has_local_day(now),
        ensures
            final(self).same_but_states(*old(self)),
            final(self).state.wf(),
            r is Ok ==> outputs_current(old(self).definitions(), old(self).state.states@, final(self).state.states@),
            (r, views(final(self).state.states@)) == spec_process(
                old(self).definitions(),
                views(old(self).state.states@),
                input,
                old(self).state.spec_root(now),
                old(self).state.global_values@,
                now,
            ),
    {
        let root = self.state.get_root_variable_data(now);
        let ghost start = *self;
        let (triggers, serviced) = self.input_pass(&input, now, root)?;
        let ghost middle = self.state.states@;
        let output = if serviced.is_empty() {
            ProcessingResult::Unchanged
        } else {
            ProcessingResult::Updated
        };
        self.process_triggers(now, triggers, serviced)?;
        proof {
            lemma_outputs_current_trans(start.definitions(), start.state.states@, middle, self.state.states@);
        }
        Ok(output)
    }

    /// Every running machine whose timer ran out before `now` takes its timer
    /// transition; then the other machines react, in rounds, to the internal
    /// events raised. The result is `Updated` when a timer moved a machine.
    pub fn process_timer(&mut self, now: Timestamp) -> (r: Result<ProcessingResult, StateMachineError>)
        requires
            timer_start_ok(now),
            old(self).state.wf(),
            old(self).state.has_local_day(now),
        ensures
            final(self).same_but_states(*old(self)),
            final(self).state.wf(),
            r is Ok ==> outputs_current(old(self).definitions(), old(self).state.states@, final(self).state.states@),
            (r, views(final(self).state.states@)) == spec_process_timer(
                old(self).definitions(),
                views(old(self).state.states@),
                old(self).state.spec_root(now),
                old(self).state.global_values@,
                now,
            ),
    {
        let root = self.state.get_root_variable_data(now);
        let ghost start = *self;
        let (triggers, serviced) = self.timer_pass(now, root)?;
        let ghost middle = self.state.states@;
        let output = if serviced.is_empty() {
            ProcessingResult::Unchanged
        } else {
            ProcessingResult::Updated
        };
        self.process_triggers(now, triggers, serviced)?;
        proof {
            lemma_outputs_current_trans(start.definitions(), start.state.states@, middle, self.state.states@);
        }
        Ok(output)
    }
}


/// Whether every machine's timer, if any, is a valid instant.
fn timers_valid(states: &Vec<State>) -> (r: bool)
    ensures
        r == timers_ok(states@),
{
    let mut i: usize = 0;
    while i < states.len()
        invariant
            i <= states@.len(),
            forall|j: int| 0 <= j < i ==> timer_ok(#[trigger] states@[j].timer),
        decreases states@.len() - i,
    {
        match states[i].timer {
            Some(t) => {
                if !t.is_valid() {
                    return false;
                }
            },
            None => {},
        }
        i = i + 1;
    }
    true
}

impl StateMachinePuzzleState {
    /// Whether the state can be run: its time zone is known and its timers are valid.
    pub fn is_runnable(&self) -> (r: bool)
        ensures
            r == self.wf(),
    {
        is_known_zone(self.timezone.as_str()) && timers_valid(&self.states)
    }
}

/// Gives the number a machine's expressions are evaluated for.
pub trait MachineIdentifier {
    fn machine(&self) -> (r: usize);
}

impl<'a> MachineIdentifier for GlobalData<'a> {
    fn machine(&self) -> (r: usize)
        ensures
            r == self.id,
    {
        self.id
    }
}

impl<Template: StateMachinePuzzleTemplateSource> StateMachinePuzzle<Template> where
    Template::InputIdentifier: Identifier,
    Template::Area: Identifier,
 {
    /// Processes a player input, when the puzzle can be run at `now`; leaves
    /// the puzzle untouched and returns `None` when it cannot.
    pub fn try_process<Counter: AreaCounter>(
        &mut self,
        input: PuzzleInput<Template::InputIdentifier, Template::Area, Counter>,
        now: Timestamp,
    ) -> (r: Option<Result<ProcessingResult, StateMachineError>>)
        ensures
            r is None <==> !(old(self).state.wf() && timer_start_ok(now) && old(self).state.has_local_day(now)),
            r is None ==> *final(self) == *old(self),
            r matches Some(res) ==> {
                &&& final(self).same_but_states(*old(self))
                &&& final(self).state.wf()
                &&& (res is Ok ==> outputs_current(old(self).definitions(), old(self).state.states@, final(self).state.states@))
                &&& (res, views(final(self).state.states@)) == spec_process(
                    old(self).definitions(),
                    views(old(self).state.states@),
                    input,
                    old(self).state.spec_root(now),
                    old(self).state.global_values@,
                    now,
                )
            },
    {
        if !can_start_timers(now) || !self.state.is_runnable() || local_day(now, self.state.timezone.as_str()).is_none() {
            return None;
        }
        Some(self.process(input, now))
    }

    /// Processes the time `now`, when the puzzle can be run then; leaves the
    /// puzzle untouched and returns `None` when it cannot.
    pub fn try_process_timer(&mut self, now: Timestamp) -> (r: Option<Result<ProcessingResult, StateMachineError>>)
        ensures
            r is None <==> !(old(self).state.wf() && timer_start_ok(now) && old(self).state.has_local_day(now)),
            r is None ==> *final(self) == *old(self),
            r matches Some(res) ==> {
                &&& final(self).same_but_states(*old(self))
                &&& final(self).state.wf()
                &&& (res is Ok ==> outputs_current(old(self).definitions(), old(self).state.states@, final(self).state.states@))
                &&& (res, views(final(self).state.states@)) == spec_process_timer(
                    old(self).definitions(),
                    views(old(self).state.states@),
                    old(self).state.spec_root(now),
                    old(self).state.global_values@,
                    now,
                )
            },
    {
        if !can_start_timers(now) || !self.state.is_runnable() || local_day(now, self.state.timezone.as_str()).is_none() {
            return None;
        }
        Some(self.process_timer(now))
    }
}

impl<Template: StateMachinePuzzleTemplateSource + Clone> StateMachinePuzzle<Template> {
    /// Starts `template` afresh at `now` in the time zone named `timezone`:
    /// evaluates the global variables on the local day, then starts each
    /// machine in its first state. `None` when the time zone gives no local
    /// day for `now`.
    pub fn blank(template: &Template, now: Timestamp, timezone: String, seed: u32) -> (r: Option<
        Result<StateMachinePuzzle<Template>, StateMachineError>,
    >)
        requires
            timer_start_ok(now),
        ensures
            r is None <==> zone_local_day(now.seconds, now.nanos, timezone@) is None,
            r matches Some(result) ==> {
                let root = RootData { seed, date: Date { days: zone_local_day(now.seconds, now.nanos, timezone@)->0 } };
                match result {
                    Ok(puzzle) => {
                        &&& spec_blank_puzzle(template.spec_template(), root, now) == Ok::<
                            (Seq<Value>, Seq<StateView>),
                            StateMachineError,
                        >((puzzle.state.global_values@, views(puzzle.state.states@)))
                        &&& puzzle.state.last_time == now
                        &&& puzzle.state.seed == seed
                        &&& puzzle.state.timezone@ == timezone@
                        &&& puzzle.state.wf()
                        &&& cloned::<Template>(*template, puzzle.template)
                    },
                    Err(e) => spec_blank_puzzle(template.spec_template(), root, now) == Err::<
                        (Seq<Value>, Seq<StateView>),
                        StateMachineError,
                    >(e),
                }
            },
    {
        let days = match local_day(now, timezone.as_str()) {
            Some(days) => days,
            None => {
                return None;
            },
        };
        let root = RootData { seed, date: Date { days } };
        let definition = template.template();
        let global_values = match evaluate_variables(&definition.variables, &root) {
            Ok(values) => values,
            Err(e) => {
                return Some(Err(e));
            },
        };
        let mut states: Vec<State> = Vec::new();
        let mut id: usize = 0;
        proof {
            assert(views(states@) =~= Seq::<StateView>::empty());
        }
        while id < definition.machines.len()
            invariant
                id <= definition.machines@.len(),
                timer_start_ok(now),
                zone_local_day(now.seconds, now.nanos, timezone@) == Some(days),
                root == (RootData { seed, date: Date { days } }),
                eval_variables(definition.variables@, root) == Ok::<Seq<Value>, StateMachineError>(global_values@),
                *definition == template.spec_template(),
                timers_ok(states@),
                spec_blank_states(definition.machines@, now, root, global_values@, id as nat) == Ok::<
                    Seq<StateView>,
                    StateMachineError,
                >(views(states@)),
            decreases definition.machines@.len() - id,
        {
            let global_data = GlobalData { id, root, globals: &global_values };
            match definition.machines[id].blank(id, now, global_data) {
                Ok(s) => {
                    let ghost before = states@;
                    states.push(s);
                    proof {
                        assert(views(states@) =~= views(before).push(s@));
                    }
                },
                Err(e) => {
                    proof {
                        lemma_blank_states_stops(
                            definition.machines@,
                            now,
                            root,
                            global_values@,
                            id as nat + 1,
                            definition.machines@.len(),
                        );
                    }
                    return Some(Err(e));
                },
            }
            id = id + 1;
        }
        Some(Ok(StateMachinePuzzle {
            state: StateMachinePuzzleState { global_values, last_time: now, seed, states, timezone },
            template: template.clone(),
        }))
    }

    /// Resumes `template` from a saved state. The saved state must fit the
    /// definition, name a known time zone and hold valid timers; otherwise
    /// the result is `DeserializationMismatch`.
    pub fn load<E>(template: &Template, state: StateMachinePuzzleState) -> (r: Result<
        StateMachinePuzzle<Template>,
        LoadError<E, StateMachineError>,
    >)
        ensures
            r is Ok <==> state.wf() && state_matches(template.spec_template(), state.global_values@, views(state.states@)),
            r matches Ok(puzzle) ==> puzzle.state == state && cloned::<Template>(*template, puzzle.template),
            r matches Err(e) ==> e is DeserializationMismatch,
    {
        let definition = template.template();
        if state.global_values.len() != definition.variables.len() || state.states.len() != definition.machines.len() {
            return Err(LoadError::DeserializationMismatch);
        }
        let mut i: usize = 0;
        while i < state.states.len()
            invariant
                i <= state.states@.len(),
                *definition == template.spec_template(),
                state.states@.len() == definition.machines@.len(),
                state.global_values@.len() == definition.variables@.len(),
                forall|j: int| 0 <= j < i ==> machine_matches(definition.machines@[j], #[trigger] views(state.states@)[j]),
            decreases state.states@.len() - i,
        {
            let machine = &definition.machines[i];
            let current = &state.states[i];
            assert(views(state.states@)[i as int] == current@);
            if (current.current as usize) >= machine.states.len() {
                assert(!machine_matches(definition.machines@[i as int], views(state.states@)[i as int]));
                return Err(LoadError::DeserializationMismatch);
            }
            if !machine.states[current.current as usize].matches_definition(current) || !machine.matches_definition(current) {
                assert(!machine_matches(definition.machines@[i as int], views(state.states@)[i as int]));
                return Err(LoadError::DeserializationMismatch);
            }
            i = i + 1;
        }
        if !state.is_runnable() {
            return Err(LoadError::DeserializationMismatch);
        }
        Ok(StateMachinePuzzle { state, template: template.clone() })
    }
}

impl<Template: StateMachinePuzzleTemplateSource> StateMachinePuzzle<Template> {
    /// How long after `now` the earliest machine timer runs out: `None` when
    /// no machine has a timer, or the earliest already ran out.
    pub fn next_timer_at(&self, now: Timestamp) -> (r: Option<Delay>)
        requires
            timers_ok(self.state.states@),
            now.valid(),
        ensures
            r == match earliest_timer(views(self.state.states@), self.state.states@.len()) {
                None => None,
                Some(t) => spec_until(t, now),
            },
    {
        let mut earliest: Option<Timestamp> = None;
        let mut i: usize = 0;
        while i < self.state.states.len()
            invariant
                i <= self.state.states@.len(),
                timers_ok(self.state.states@),
                earliest == earliest_timer(views(self.state.states@), i as nat),
                earliest matches Some(t) ==> t.valid(),
            decreases self.state.states@.len() - i,
        {
            assert(views(self.state.states@)[i as int] == self.state.states@[i as int]@);
            match (earliest, self.state.states[i].timer) {
                (None, t) => {
                    earliest = t;
                },
                (Some(a), None) => {},
                (Some(a), Some(b)) => {
                    if b.before(&a) {
                        earliest = Some(b);
                    }
                },
            }
            i = i + 1;
        }
        match earliest {
            None => None,
            Some(t) => t.until(&now),
        }
    }

    /// How long from the current time the earliest machine timer runs out.
    /// The current time is read from the clock, so nothing is promised of
    /// which span comes back beyond that it is the span from some valid
    /// instant; `None` when no machine has a timer.
    pub fn next_timer(&self) -> (r: Option<Delay>)
        requires
            timers_ok(self.state.states@),
        ensures
            earliest_timer(views(self.state.states@), self.state.states@.len()) is None ==> r is None,
            r matches Some(d) ==> exists|now: Timestamp|
                now.valid() && spec_until(earliest_timer(views(self.state.states@), self.state.states@.len())->0, now) == Some(
                    d,
                ),
    {
        let now = utc_now();
        self.next_timer_at(now)
    }

    /// Every output of every running machine, with its current value.
    pub fn outputs(&self) -> (r: Vec<(&Template::OutputIdentifier, &MultiStateValue)>)
        ensures
            r@.len() == spec_outputs(
                self.definitions(),
                self.state.states@,
                machine_count(self.definitions().len(), self.state.states@.len()),
            ).len(),
            forall|i: int|
                0 <= i < r@.len() ==> (*(#[trigger] r@[i]).0, *r@[i].1) == spec_outputs(
                    self.definitions(),
                    self.state.states@,
                    machine_count(self.definitions().len(), self.state.states@.len()),
                )[i],
    {
        let machines = &self.template.template().machines;
        let count = if machines.len() < self.state.states.len() {
            machines.len()
        } else {
            self.state.states.len()
        };
        let mut result: Vec<(&Template::OutputIdentifier, &MultiStateValue)> = Vec::new();
        let mut i: usize = 0;
        while i < count
            invariant
                i <= count,
                count == machine_count(self.definitions().len(), self.state.states@.len()),
                machines@ == self.definitions(),
                result@.len() == spec_outputs(self.definitions(), self.state.states@, i as nat).len(),
                forall|k: int|
                    0 <= k < result@.len() ==> (*(#[trigger] result@[k]).0, *result@[k].1) == spec_outputs(
                        self.definitions(),
                        self.state.states@,
                        i as nat,
                    )[k],
            decreases count - i,
        {
            let names = &machines[i].outputs;
            let values = &self.state.states[i].outputs;
            let ghost done = spec_outputs(self.definitions(), self.state.states@, i as nat);
            let ghost pairs = paired(names@, values@);
            let ghost start = result@;
            let mut j: usize = 0;
            while j < names.len() && j < values.len()
                invariant
                    j <= names@.len(),
                    j <= values@.len(),
                    result@.len() == done.len() + j,
                    forall|k: int| 0 <= k < start.len() ==> result@[k] == start[k],
                    forall|k: int|
                        0 <= k < done.len() ==> (*(#[trigger] result@[k]).0, *result@[k].1) == done[k],
                    pairs == paired(names@, values@),
                    forall|k: int|
                        done.len() <= k < result@.len() ==> (*(#[trigger] result@[k]).0, *result@[k].1) == pairs[k - done.len()],
                    start.len() == done.len(),
                    forall|k: int| 0 <= k < start.len() ==> (*(#[trigger] start[k]).0, *start[k].1) == done[k],
                decreases names@.len() - j,
            {
                result.push((&names[j], &values[j]));
                proof {
                    assert(pairs[j as int] == (names@[j as int], values@[j as int]));
                }
                j = j + 1;
            }
            proof {
                let next = spec_outputs(self.definitions(), self.state.states@, i as nat + 1);
                assert(next == done + pairs);
                assert forall|k: int| 0 <= k < result@.len() implies (*(#[trigger] result@[k]).0, *result@[k].1) == next[k] by {
                    if k >= done.len() {
                        assert(next[k] == pairs[k - done.len()]);
                    }
                }
            }
            i = i + 1;
        }
        result
    }
}

} // verus!
