use spadina::controller::puzzle::area::{CountCollection, PlayerStateCondition};
use spadina::controller::puzzle::state_machine::data::LocalVariableName;
use spadina::controller::puzzle::state_machine::edge_action::EdgeAction;
use spadina::controller::puzzle::state_machine::error::StateMachineError;
use spadina::controller::puzzle::state_machine::expression::{
    BoolExpression, MultiStateVariableExpression, NumberExpression, VariableExpression,
};
use spadina::controller::puzzle::state_machine::state::{StateDefinition, StateMachine};
use spadina::controller::puzzle::state_machine::timer_transition::TimerTransition;
use spadina::controller::puzzle::state_machine::transition::{InputTrigger, Transition};
use spadina::controller::puzzle::state_machine::validation::ValidationError;
use spadina::controller::puzzle::state_machine::{StateMachinePuzzle, StateMachinePuzzleTemplate};
use spadina::controller::puzzle::{MultiStateValue, ProcessingResult, PuzzleInput, Value};
use spadina::controller::LoadError;
use spadina::time::{Delay, Timestamp};
use std::sync::Arc;

type Template = StateMachinePuzzleTemplate<u32, u32, u32>;
type Input = PuzzleInput<u32, u32, CountCollection<Vec<u32>>>;

const NOW: Timestamp = Timestamp { seconds: 1_700_000_000, nanos: 0 };

fn state(
    output: MultiStateVariableExpression<LocalVariableName>,
    user_transitions: Vec<Transition<u32, u32, LocalVariableName>>,
    timer_transition: TimerTransition<LocalVariableName>,
) -> StateDefinition<u32, u32> {
    StateDefinition { outputs: vec![output], user_transitions, timer_transition, variables: vec![] }
}

fn click(source: u32, next: u8, actions: Vec<EdgeAction<LocalVariableName>>) -> Transition<u32, u32, LocalVariableName> {
    Transition {
        input: InputTrigger::Click { source, player_condition: PlayerStateCondition::Always, condition: BoolExpression::Constant(true) },
        next,
        actions,
    }
}

fn internal(source: u8, next: u8) -> Transition<u32, u32, LocalVariableName> {
    Transition { input: InputTrigger::Internal { source, condition: BoolExpression::Constant(true) }, next, actions: vec![] }
}

/// A switch flipped by clicking input 7, which raises event 3, and a lamp
/// that lights on event 3.
fn switch_and_lamp() -> Template {
    let switch = StateMachine {
        counters: 0,
        outputs: vec![1],
        states: vec![
            state(
                MultiStateVariableExpression::Bool(BoolExpression::Constant(false)),
                vec![click(7, 1, vec![EdgeAction::Trigger { target: 3, condition: BoolExpression::Constant(true) }])],
                TimerTransition::NoTimer,
            ),
            state(MultiStateVariableExpression::Bool(BoolExpression::Constant(true)), vec![], TimerTransition::NoTimer),
        ],
    };
    let lamp = StateMachine {
        counters: 0,
        outputs: vec![2],
        states: vec![
            state(MultiStateVariableExpression::Num(NumberExpression::Constant(0)), vec![internal(3, 1)], TimerTransition::NoTimer),
            state(MultiStateVariableExpression::Num(NumberExpression::Constant(5)), vec![], TimerTransition::NoTimer),
        ],
    };
    StateMachinePuzzleTemplate { machines: vec![switch, lamp], variables: vec![VariableExpression::Num(NumberExpression::Constant(42))] }
}

/// A machine that moves to its second state ten seconds after starting.
fn timed() -> Template {
    let machine = StateMachine {
        counters: 1,
        outputs: vec![9],
        states: vec![
            state(
                MultiStateVariableExpression::Bool(BoolExpression::Constant(false)),
                vec![],
                TimerTransition::Reset { duration: NumberExpression::Constant(10), next: 1, actions: vec![] },
            ),
            state(MultiStateVariableExpression::Bool(BoolExpression::Constant(true)), vec![], TimerTransition::NoTimer),
        ],
    };
    StateMachinePuzzleTemplate { machines: vec![machine], variables: vec![] }
}

fn outputs_of(puzzle: &StateMachinePuzzle<Arc<Template>>) -> Vec<(u32, String)> {
    puzzle.outputs().into_iter().map(|(id, value)| (*id, format!("{:?}", value))).collect()
}

#[test]
fn a_blank_puzzle_starts_every_machine_in_its_first_state() {
    let template = Arc::new(switch_and_lamp());
    let puzzle = StateMachinePuzzle::blank(&template, NOW, "UTC".to_string(), 1).unwrap().unwrap();
    assert!(matches!(puzzle.state.global_values.as_slice(), [Value::Num(42)]));
    assert_eq!(puzzle.state.states.len(), 2);
    assert!(puzzle.state.states.iter().all(|s| s.current == 0 && s.timer.is_none()));
    assert_eq!(puzzle.state.last_time, NOW);
    assert_eq!(outputs_of(&puzzle), vec![(1, format!("{:?}", MultiStateValue::Bool(false))), (2, format!("{:?}", MultiStateValue::Num(0)))]);
}

#[test]
fn an_unknown_time_zone_gives_no_puzzle() {
    let template = Arc::new(switch_and_lamp());
    assert!(StateMachinePuzzle::blank(&template, NOW, "Nowhere/Special".to_string(), 1).is_none());
}

#[test]
fn a_click_moves_the_switch_and_its_event_the_lamp() {
    let template = Arc::new(switch_and_lamp());
    let mut puzzle = StateMachinePuzzle::blank(&template, NOW, "UTC".to_string(), 1).unwrap().unwrap();
    let input: Input = PuzzleInput::Click(7, 0);
    assert_eq!(puzzle.try_process(input, NOW), Some(Ok(ProcessingResult::Updated)));
    assert_eq!(puzzle.state.states[0].current, 1);
    assert_eq!(puzzle.state.states[1].current, 1);
    assert_eq!(outputs_of(&puzzle), vec![(1, format!("{:?}", MultiStateValue::Bool(true))), (2, format!("{:?}", MultiStateValue::Num(5)))]);
}

#[test]
fn an_input_nothing_listens_to_changes_nothing() {
    let template = Arc::new(switch_and_lamp());
    let mut puzzle = StateMachinePuzzle::blank(&template, NOW, "UTC".to_string(), 1).unwrap().unwrap();
    let input: Input = PuzzleInput::Click(8, 0);
    assert_eq!(puzzle.process(input, NOW), Ok(ProcessingResult::Unchanged));
    assert!(puzzle.state.states.iter().all(|s| s.current == 0));
}

#[test]
fn a_transition_to_a_missing_state_fails() {
    let mut template = switch_and_lamp();
    template.machines[0].states[0].user_transitions = vec![click(7, 9, vec![])];
    let template = Arc::new(template);
    let mut puzzle = StateMachinePuzzle::blank(&template, NOW, "UTC".to_string(), 1).unwrap().unwrap();
    let input: Input = PuzzleInput::Click(7, 0);
    assert_eq!(puzzle.process(input, NOW), Err(StateMachineError::InvalidState { machine: 0, state: 9 }));
}

#[test]
fn reading_a_missing_global_fails() {
    let mut template = switch_and_lamp();
    template.machines[0].states[1].outputs =
        vec![MultiStateVariableExpression::Num(NumberExpression::Variable(LocalVariableName::Other(
            spadina::controller::puzzle::state_machine::data::StateVariableName::Global(4),
        )))];
    let template = Arc::new(template);
    let mut puzzle = StateMachinePuzzle::blank(&template, NOW, "UTC".to_string(), 1).unwrap().unwrap();
    let input: Input = PuzzleInput::Click(7, 0);
    assert_eq!(puzzle.process(input, NOW), Err(StateMachineError::NoGlobal { machine: 0, name: 4 }));
}

#[test]
fn a_machine_without_states_cannot_start() {
    let mut template = switch_and_lamp();
    template.machines[1].states.clear();
    let template = Arc::new(template);
    assert_eq!(StateMachinePuzzle::blank(&template, NOW, "UTC".to_string(), 1).unwrap().err(), Some(StateMachineError::NoStates(1)));
}

#[test]
fn timers_run_out_after_their_duration() {
    let template = Arc::new(timed());
    let mut puzzle = StateMachinePuzzle::blank(&template, NOW, "UTC".to_string(), 1).unwrap().unwrap();
    assert_eq!(puzzle.state.states[0].timer, Some(Timestamp { seconds: NOW.seconds + 10, nanos: 0 }));
    assert_eq!(puzzle.next_timer_at(NOW), Some(Delay { seconds: 10, nanos: 0 }));
    let early = Timestamp { seconds: NOW.seconds + 5, nanos: 0 };
    assert_eq!(puzzle.try_process_timer(early), Some(Ok(ProcessingResult::Unchanged)));
    assert_eq!(puzzle.state.states[0].current, 0);
    let late = Timestamp { seconds: NOW.seconds + 11, nanos: 0 };
    assert_eq!(puzzle.process_timer(late), Ok(ProcessingResult::Updated));
    assert_eq!(puzzle.state.states[0].current, 1);
    assert_eq!(puzzle.state.states[0].timer, None);
    assert_eq!(puzzle.next_timer_at(late), None);
}

#[test]
fn an_expired_timer_is_not_waited_for() {
    let template = Arc::new(timed());
    let puzzle = StateMachinePuzzle::blank(&template, NOW, "UTC".to_string(), 1).unwrap().unwrap();
    assert_eq!(puzzle.next_timer_at(Timestamp { seconds: NOW.seconds + 20, nanos: 0 }), None);
}

#[test]
fn the_clock_decides_how_long_a_timer_has_left() {
    let template = Arc::new(timed());
    let past = StateMachinePuzzle::blank(&template, NOW, "UTC".to_string(), 1).unwrap().unwrap();
    assert_eq!(past.next_timer(), None);
    let future = Timestamp { seconds: 7_000_000_000, nanos: 0 };
    let pending = StateMachinePuzzle::blank(&template, future, "UTC".to_string(), 1).unwrap().unwrap();
    let left = pending.next_timer().unwrap();
    assert!(left.seconds > 1_000_000_000);
    assert!(left.seconds <= 7_000_000_010);
    let idle = StateMachinePuzzle::blank(&Arc::new(switch_and_lamp()), future, "UTC".to_string(), 1).unwrap().unwrap();
    assert_eq!(idle.next_timer(), None);
}

#[test]
fn a_puzzle_that_cannot_run_is_left_alone() {
    let template = Arc::new(switch_and_lamp());
    let mut puzzle = StateMachinePuzzle::blank(&template, NOW, "UTC".to_string(), 1).unwrap().unwrap();
    puzzle.state.timezone = "Nowhere/Special".to_string();
    let input: Input = PuzzleInput::Click(7, 0);
    assert_eq!(puzzle.try_process(input, NOW), None);
    assert_eq!(puzzle.state.states[0].current, 0);
    assert!(puzzle.state.variable_data_at(NOW, 0).is_none());
}

#[test]
fn a_blank_state_loads_again() {
    let template = Arc::new(switch_and_lamp());
    let puzzle = StateMachinePuzzle::blank(&template, NOW, "UTC".to_string(), 1).unwrap().unwrap();
    let loaded = StateMachinePuzzle::load::<()>(&template, puzzle.state);
    assert!(loaded.is_ok());
}

#[test]
fn a_state_that_does_not_fit_is_refused() {
    let template = Arc::new(switch_and_lamp());
    let mut puzzle = StateMachinePuzzle::blank(&template, NOW, "UTC".to_string(), 1).unwrap().unwrap();
    puzzle.state.global_values.push(Value::Bool(true));
    assert!(matches!(StateMachinePuzzle::load::<()>(&template, puzzle.state), Err(LoadError::DeserializationMismatch)));
    let mut puzzle = StateMachinePuzzle::blank(&template, NOW, "UTC".to_string(), 1).unwrap().unwrap();
    puzzle.state.states[1].current = 5;
    assert!(matches!(StateMachinePuzzle::load::<()>(&template, puzzle.state), Err(LoadError::DeserializationMismatch)));
}

#[test]
fn validation_reports_the_first_problem() {
    let template = switch_and_lamp();
    assert!(template.validate(&vec![], &vec![7], &vec![1, 2]).is_ok());
    match template.validate(&vec![], &vec![], &vec![1]) {
        Err(ValidationError::MissingInput { machine: 0, state: 0, input }) => assert_eq!(*input, 7),
        other => panic!("unexpected {:?}", other),
    }
    match template.validate(&vec![], &vec![7], &vec![1, 5]) {
        Err(ValidationError::UnproducedOutput { output }) => assert_eq!(*output, 5),
        other => panic!("unexpected {:?}", other),
    }
    let mut doubled = switch_and_lamp();
    doubled.machines[1].outputs = vec![1];
    match doubled.validate(&vec![], &vec![7], &vec![]) {
        Err(ValidationError::DuplicateOutput { machine: 1, output }) => assert_eq!(*output, 1),
        other => panic!("unexpected {:?}", other),
    }
}

#[test]
fn counting_areas_must_exist() {
    let mut template = switch_and_lamp();
    template.machines[1].states[0].user_transitions = vec![Transition {
        input: InputTrigger::Count { area: 11, condition: BoolExpression::Constant(true) },
        next: 1,
        actions: vec![],
    }];
    match template.validate(&vec![], &vec![7], &vec![]) {
        Err(ValidationError::MissingArea { machine: 1, state: 0, area }) => assert_eq!(*area, 11),
        other => panic!("unexpected {:?}", other),
    }
    assert!(template.validate(&vec![11], &vec![7], &vec![]).is_ok());
}

#[test]
fn processing_results_combine() {
    let unchanged = ProcessingResult::Unchanged;
    let updated = ProcessingResult::Updated;
    assert_eq!(unchanged | unchanged, unchanged);
    assert_eq!(unchanged | updated, updated);
    assert_eq!(updated | unchanged, updated);
    assert_eq!(updated | updated, updated);
    let mut result = unchanged;
    result.update();
    assert_eq!(result, updated);
}
