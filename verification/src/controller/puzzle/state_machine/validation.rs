//! Checking a puzzle definition against the world it is placed in: every
//! output is produced by one machine only, every input and area a
//! transition listens to exists, and every output the world uses is produced.

use vstd::prelude::*;
use crate::controller::puzzle::state_machine::{Identifier, StateMachinePuzzleTemplate};
use crate::controller::puzzle::state_machine::state::{StateDefinition, StateMachine};
use crate::controller::puzzle::state_machine::transition::{InputTrigger, Transition};

verus! {

/// Why a puzzle definition does not fit the world it is placed in.
#[derive(Debug)]
pub enum ValidationError<'a, InputIdentifier, OutputIdentifier, Area> {
    DuplicateOutput { machine: usize, output: &'a OutputIdentifier },
    MissingInput { machine: usize, state: usize, input: &'a InputIdentifier },
    MissingArea { machine: usize, state: usize, area: &'a Area },
    UnproducedOutput { output: &'a OutputIdentifier },
}

/// A validation problem, by value.
pub enum Problem<I, O, A> {
    DuplicateOutput { machine: nat, output: O },
    MissingInput { machine: nat, state: nat, input: I },
    MissingArea { machine: nat, state: nat, area: A },
    UnproducedOutput { output: O },
}

/// The problem an error reports.
pub open spec fn problem_of<I, O, A>(e: ValidationError<I, O, A>) -> Problem<I, O, A> {
    match e {
        ValidationError::DuplicateOutput { machine, output } => Problem::DuplicateOutput { machine: machine as nat, output: *output },
        ValidationError::MissingInput { machine, state, input } => Problem::MissingInput {
            machine: machine as nat,
            state: state as nat,
            input: *input,
        },
        ValidationError::MissingArea { machine, state, area } => Problem::MissingArea {
            machine: machine as nat,
            state: state as nat,
            area: *area,
        },
        ValidationError::UnproducedOutput { output } => Problem::UnproducedOutput { output: *output },
    }
}

/// The outputs the first `m` machines produce, in order.
pub open spec fn produced_by<I, O, A>(machines: Seq<StateMachine<I, O, A>>, m: nat) -> Seq<O>
    decreases m,
{
    if m == 0 {
        Seq::empty()
    } else {
        produced_by(machines, (m - 1) as nat) + machines[m - 1].outputs@
    }
}

/// The first output of `outs`, from `j` on, produced before it: by an earlier
/// machine or earlier in `outs`.
pub open spec fn first_repeated<O>(earlier: Seq<O>, outs: Seq<O>, j: nat) -> Option<nat>
    decreases outs.len() - j,
{
    if j >= outs.len() {
        None
    } else if (earlier + outs.take(j as int)).contains(outs[j as int]) {
        Some(j)
    } else {
        first_repeated(earlier, outs, j + 1)
    }
}

/// Whether a transition listens to an input or area the world does not have.
pub open spec fn listens_to_missing<I, A, V>(t: Transition<I, A, V>, areas: Seq<A>, inputs: Seq<I>) -> bool {
    match t.input {
        InputTrigger::Click { source, .. } => !inputs.contains(source),
        InputTrigger::Count { area, .. } => !areas.contains(area),
        InputTrigger::Internal { .. } => false,
    }
}

/// The first transition, from `t` on, that listens to something missing.
pub open spec fn first_missing_transition<I, A, V>(ts: Seq<Transition<I, A, V>>, areas: Seq<A>, inputs: Seq<I>, t: nat) -> Option<nat>
    decreases ts.len() - t,
{
    if t >= ts.len() {
        None
    } else if listens_to_missing(ts[t as int], areas, inputs) {
        Some(t)
    } else {
        first_missing_transition(ts, areas, inputs, t + 1)
    }
}

/// The first state, from `s` on, with a transition that listens to
/// something missing, and that transition.
pub open spec fn first_missing_state<I, A>(states: Seq<StateDefinition<I, A>>, areas: Seq<A>, inputs: Seq<I>, s: nat) -> Option<(nat, nat)>
    decreases states.len() - s,
{
    if s >= states.len() {
        None
    } else {
        match first_missing_transition(states[s as int].user_transitions@, areas, inputs, 0) {
            Some(t) => Some((s, t)),
            None => first_missing_state(states, areas, inputs, s + 1),
        }
    }
}

/// The problem with machine `m`: an output already produced, else the first
/// transition listening to something missing.
pub open spec fn machine_problem<I, O, A>(machines: Seq<StateMachine<I, O, A>>, m: nat, areas: Seq<A>, inputs: Seq<I>) -> Option<
    Problem<I, O, A>,
> {
    let outs = machines[m as int].outputs@;
    match first_repeated(produced_by(machines, m), outs, 0) {
        Some(j) => Some(Problem::DuplicateOutput { machine: m, output: outs[j as int] }),
        None => match first_missing_state(machines[m as int].states@, areas, inputs, 0) {
            None => None,
            Some((s, t)) => match machines[m as int].states@[s as int].user_transitions@[t as int].input {
                InputTrigger::Click { source, .. } => Some(Problem::MissingInput { machine: m, state: s, input: source }),
                InputTrigger::Count { area, .. } => Some(Problem::MissingArea { machine: m, state: s, area }),
                InputTrigger::Internal { .. } => None,
            },
        },
    }
}

/// The problem with the first machine, from `m` on, that has one.
pub open spec fn first_machine_problem<I, O, A>(machines: Seq<StateMachine<I, O, A>>, areas: Seq<A>, inputs: Seq<I>, m: nat) -> Option<
    Problem<I, O, A>,
>
    decreases machines.len() - m,
{
    if m >= machines.len() {
        None
    } else {
        match machine_problem(machines, m, areas, inputs) {
            Some(p) => Some(p),
            None => first_machine_problem(machines, areas, inputs, m + 1),
        }
    }
}

/// The first output the world uses, from `j` on, that no machine produces.
pub open spec fn first_unproduced<O>(produced: Seq<O>, used: Seq<O>, j: nat) -> Option<nat>
    decreases used.len() - j,
{
    if j >= used.len() {
        None
    } else if !produced.contains(used[j as int]) {
        Some(j)
    } else {
        first_unproduced(produced, used, j + 1)
    }
}

/// The first problem of a puzzle definition in a world with the given areas,
/// inputs and used outputs, checked machine by machine, then output by output.
pub open spec fn spec_validate<I, O, A>(
    template: StateMachinePuzzleTemplate<I, O, A>,
    areas: Seq<A>,
    inputs: Seq<I>,
    outputs: Seq<O>,
) -> Option<Problem<I, O, A>> {
    let machines = template.machines@;
    match first_machine_problem(machines, areas, inputs, 0) {
        Some(p) => Some(p),
        None => match first_unproduced(produced_by(machines, machines.len()), outputs, 0) {
            Some(j) => Some(Problem::UnproducedOutput { output: outputs[j as int] }),
            None => None,
        },
    }
}

/// Whether `items` holds an identifier equal to `x`.
fn holds<T: Identifier>(items: &Vec<T>, x: &T) -> (r: bool)
    ensures
        r == items@.contains(*x),
{
    let mut i: usize = 0;
    while i < items.len()
        invariant
            i <= items@.len(),
            forall|k: int| 0 <= k < i ==> items@[k] != *x,
        decreases items@.len() - i,
    {
        if items[i].same(x) {
            return true;
        }
        i = i + 1;
    }
    false
}

/// Whether `items` refers to an identifier equal to `x`.
fn refers_to<T: Identifier>(items: &Vec<&T>, x: &T) -> (r: bool)
    ensures
        r == exists|k: int| 0 <= k < items@.len() && *items@[k] == *x,
{
    let mut i: usize = 0;
    while i < items.len()
        invariant
            i <= items@.len(),
            forall|k: int| 0 <= k < i ==> *items@[k] != *x,
        decreases items@.len() - i,
    {
        if items[i].same(x) {
            return true;
        }
        i = i + 1;
    }
    false
}

/// Finds the first transition that listens to an input or area the world does not have.
fn find_missing_transition<I: Identifier, A: Identifier, V>(ts: &Vec<Transition<I, A, V>>, areas: &Vec<A>, inputs: &Vec<I>) -> (r:
    Option<usize>)
    ensures
        first_missing_transition(ts@, areas@, inputs@, 0) == match r {
            Some(t) => Some(t as nat),
            None => None::<nat>,
        },
        r matches Some(t) ==> t < ts@.len(),
{
    let mut t: usize = 0;
    while t < ts.len()
        invariant
            t <= ts@.len(),
            first_missing_transition(ts@, areas@, inputs@, 0) == first_missing_transition(ts@, areas@, inputs@, t as nat),
        decreases ts@.len() - t,
    {
        let missing = match &ts[t].input {
            InputTrigger::Click { source, .. } => !holds(inputs, source),
            InputTrigger::Count { area, .. } => !holds(areas, area),
            InputTrigger::Internal { .. } => false,
        };
        if missing {
            return Some(t);
        }
        t = t + 1;
    }
    None
}

/// Finds the first state with a transition that listens to something missing.
fn find_missing_state<I: Identifier, A: Identifier>(states: &Vec<StateDefinition<I, A>>, areas: &Vec<A>, inputs: &Vec<I>) -> (r: Option<
    (usize, usize),
>)
    ensures
        first_missing_state(states@, areas@, inputs@, 0) == match r {
            Some((s, t)) => Some((s as nat, t as nat)),
            None => None::<(nat, nat)>,
        },
        r matches Some((s, t)) ==> s < states@.len() && t < states@[s as int].user_transitions@.len(),
{
    let mut s: usize = 0;
    while s < states.len()
        invariant
            s <= states@.len(),
            first_missing_state(states@, areas@, inputs@, 0) == first_missing_state(states@, areas@, inputs@, s as nat),
        decreases states@.len() - s,
    {
        match find_missing_transition(&states[s].user_transitions, areas, inputs) {
            Some(t) => {
                return Some((s, t));
            },
            None => {},
        }
        s = s + 1;
    }
    None
}

impl<InputIdentifier: Identifier, OutputIdentifier: Identifier, Area: Identifier> StateMachinePuzzleTemplate<
    InputIdentifier,
    OutputIdentifier,
    Area,
> {
    /// Checks this definition against the world it is placed in: no output
    /// is produced by two machines or twice by one, every input and area a
    /// transition listens to exists, and every output the world uses is
    /// produced. Reports the first problem found.
    pub fn validate<'a>(&'a self, areas: &Vec<Area>, inputs: &Vec<InputIdentifier>, outputs: &'a Vec<OutputIdentifier>) -> (r: Result<
        (),
        ValidationError<'a, InputIdentifier, OutputIdentifier, Area>,
    >)
        ensures
            match r {
                Ok(()) => spec_validate(*self, areas@, inputs@, outputs@) is None,
                Err(e) => spec_validate(*self, areas@, inputs@, outputs@) == Some(problem_of(e)),
            },
    {
        let ghost machines = self.machines@;
        let mut known: Vec<&'a OutputIdentifier> = Vec::new();
        let mut m: usize = 0;
        while m < self.machines.len()
            invariant
                m <= machines.len(),
                machines == self.machines@,
                known@.len() == produced_by(machines, m as nat).len(),
                forall|k: int| 0 <= k < known@.len() ==> *(#[trigger] known@[k]) == produced_by(machines, m as nat)[k],
                first_machine_problem(machines, areas@, inputs@, 0) == first_machine_problem(machines, areas@, inputs@, m as nat),
            decreases machines.len() - m,
        {
            let machine = &self.machines[m];
            let ghost earlier = produced_by(machines, m as nat);
            let ghost outs = machine.outputs@;
            let mut j: usize = 0;
            while j < machine.outputs.len()
                invariant
                    j <= outs.len(),
                    m < machines.len(),
                    machines == self.machines@,
                    outs == machine.outputs@,
                    *machine == machines[m as int],
                    first_machine_problem(machines, areas@, inputs@, 0) == first_machine_problem(machines, areas@, inputs@, m as nat),
                    earlier == produced_by(machines, m as nat),
                    known@.len() == earlier.len() + j,
                    forall|k: int| 0 <= k < known@.len() ==> *(#[trigger] known@[k]) == (earlier + outs.take(j as int))[k],
                    first_repeated(earlier, outs, 0) == first_repeated(earlier, outs, j as nat),
                decreases outs.len() - j,
            {
                let output = &machine.outputs[j];
                if refers_to(&known, output) {
                    proof {
                        let k = choose|k: int| 0 <= k < known@.len() && *known@[k] == *output;
                        assert((earlier + outs.take(j as int))[k] == outs[j as int]);
                        assert((earlier + outs.take(j as int)).contains(outs[j as int]));
                    }
                    return Err(ValidationError::DuplicateOutput { machine: m, output });
                }
                proof {
                    if (earlier + outs.take(j as int)).contains(outs[j as int]) {
                        let k = choose|k: int| 0 <= k < (earlier + outs.take(j as int)).len() && (earlier + outs.take(j as int))[k] == outs[j as int];
                        assert(*known@[k] == *output);
                    }
                }
                known.push(output);
                proof {
                    assert(earlier + outs.take(j as int + 1) =~= (earlier + outs.take(j as int)).push(outs[j as int]));
                }
                j = j + 1;
            }
            proof {
                assert(outs.take(outs.len() as int) =~= outs);
                assert(produced_by(machines, m as nat + 1) == earlier + outs);
            }
            match find_missing_state(&machine.states, areas, inputs) {
                Some((s, t)) => {
                    match &machine.states[s].user_transitions[t].input {
                        InputTrigger::Click { source, .. } => {
                            return Err(ValidationError::MissingInput { machine: m, state: s, input: source });
                        },
                        InputTrigger::Count { area, .. } => {
                            return Err(ValidationError::MissingArea { machine: m, state: s, area });
                        },
                        InputTrigger::Internal { .. } => {
                            proof {
                                lemma_missing_transition_listens(
                                    machine.states@[s as int].user_transitions@,
                                    areas@,
                                    inputs@,
                                    0,
                                );
                                lemma_missing_state_listens(machine.states@, areas@, inputs@, 0);
                            }
                        },
                    }
                },
                None => {},
            }
            m = m + 1;
        }
        let ghost produced = produced_by(machines, machines.len());
        let mut j: usize = 0;
        while j < outputs.len()
            invariant
                j <= outputs@.len(),
                machines == self.machines@,
                produced == produced_by(machines, machines.len()),
                known@.len() == produced.len(),
                forall|k: int| 0 <= k < known@.len() ==> *(#[trigger] known@[k]) == produced[k],
                first_machine_problem(machines, areas@, inputs@, 0) is None,
                first_unproduced(produced, outputs@, 0) == first_unproduced(produced, outputs@, j as nat),
            decreases outputs@.len() - j,
        {
            let output = &outputs[j];
            if !refers_to(&known, output) {
                proof {
                    if produced.contains(*output) {
                        let k = choose|k: int| 0 <= k < produced.len() && produced[k] == *output;
                        assert(*known@[k] == *output);
                    }
                }
                return Err(ValidationError::UnproducedOutput { output });
            }
            proof {
                let k = choose|k: int| 0 <= k < known@.len() && *known@[k] == *output;
                assert(produced[k] == *output);
            }
            j = j + 1;
        }
        Ok(())
    }
}

/// The transition found as missing does listen to something missing.
proof fn lemma_missing_transition_listens<I, A, V>(ts: Seq<Transition<I, A, V>>, areas: Seq<A>, inputs: Seq<I>, t: nat)
    ensures
        first_missing_transition(ts, areas, inputs, t) matches Some(k) ==> listens_to_missing(ts[k as int], areas, inputs),
    decreases ts.len() - t,
{
    if t < ts.len() {
        lemma_missing_transition_listens(ts, areas, inputs, t + 1);
    }
}

/// The state found as missing something has a transition that listens to it.
proof fn lemma_missing_state_listens<I, A>(states: Seq<StateDefinition<I, A>>, areas: Seq<A>, inputs: Seq<I>, s: nat)
    ensures
        first_missing_state(states, areas, inputs, s) matches Some((k, t)) ==> listens_to_missing(
            states[k as int].user_transitions@[t as int],
            areas,
            inputs,
        ),
    decreases states.len() - s,
{
    if s < states.len() {
        lemma_missing_transition_listens(states[s as int].user_transitions@, areas, inputs, 0);
        lemma_missing_state_listens(states, areas, inputs, s + 1);
    }
}

} // verus!
