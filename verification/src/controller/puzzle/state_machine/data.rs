//! The environments machine expressions are evaluated in: the puzzle's root
//! data, its globals, a machine's counters and its state's locals.

use vstd::prelude::*;
use crate::controller::puzzle::Value;
use crate::controller::puzzle::state_machine::error::StateMachineError;
use crate::controller::puzzle::state_machine::expression::{ExpressionData, ExpressionSpec};
use crate::time::Date;

verus! {

/// The data every expression can read: the puzzle's seed and the local day.
#[derive(Copy, Clone, Debug, PartialEq, Eq)]
pub struct RootData {
    pub seed: u32,
    pub date: Date,
}

impl ExpressionSpec<()> for RootData {
    open spec fn spec_date(&self) -> Date {
        self.date
    }

    open spec fn spec_seed(&self) -> u32 {
        self.seed
    }

    open spec fn spec_variable(&self, name: ()) -> Result<Value, StateMachineError> {
        Err(StateMachineError::VariableInGlobal)
    }
}

impl ExpressionData<()> for RootData {
    type Model = RootData;

    open spec fn model(&self) -> RootData {
        *self
    }

    fn date(&self) -> (r: Date) {
        self.date
    }

    fn seed(&self) -> (r: u32) {
        self.seed
    }

    fn variable(&self, name: &()) -> (r: Result<Value, StateMachineError>) {
        Err(StateMachineError::VariableInGlobal)
    }
}

/// What a machine's expressions see of the puzzle's global variables.
pub struct GlobalModel {
    pub id: usize,
    pub root: RootData,
    pub globals: Seq<Value>,
}

impl ExpressionSpec<u8> for GlobalModel {
    open spec fn spec_date(&self) -> Date {
        self.root.date
    }

    open spec fn spec_seed(&self) -> u32 {
        self.root.seed
    }

    open spec fn spec_variable(&self, name: u8) -> Result<Value, StateMachineError> {
        if (name as int) < self.globals.len() {
            Ok(self.globals[name as int])
        } else {
            Err(StateMachineError::NoGlobal { machine: self.id, name })
        }
    }
}

/// The global variables, seen from machine `id`.
#[derive(Copy, Clone)]
pub struct GlobalData<'a> {
    pub id: usize,
    pub root: RootData,
    pub globals: &'a Vec<Value>,
}

impl<'a> ExpressionData<u8> for GlobalData<'a> {
    type Model = GlobalModel;

    open spec fn model(&self) -> GlobalModel {
        GlobalModel { id: self.id, root: self.root, globals: self.globals@ }
    }

    fn date(&self) -> (r: Date) {
        assert(self.model().spec_date() == self.root.date);
        self.root.date
    }

    fn seed(&self) -> (r: u32) {
        assert(self.model().spec_seed() == self.root.seed);
        self.root.seed
    }

    fn variable(&self, name: &u8) -> (r: Result<Value, StateMachineError>) {
        let r = {
            if (*name as usize) < self.globals.len() {
                Ok(self.globals[*name as usize])
            } else {
                Err(StateMachineError::NoGlobal { machine: self.id, name: *name })
            }
        };
        assert(r == self.model().spec_variable(*name));
        r
    }
}

/// A variable a state's variable expressions may read.
#[derive(Copy, Clone, Debug, PartialEq, Eq)]
pub enum StateVariableName {
    Counter(u8),
    Global(u8),
}

/// A variable transition and output expressions may read.
#[derive(Copy, Clone, Debug, PartialEq, Eq)]
pub enum LocalVariableName {
    Local(u8),
    Other(StateVariableName),
}

/// What a state's variable expressions see: globals and the machine's counters.
pub struct StateDataModel {
    pub global: GlobalModel,
    pub counters: Seq<u32>,
}

impl ExpressionSpec<StateVariableName> for StateDataModel {
    open spec fn spec_date(&self) -> Date {
        self.global.root.date
    }

    open spec fn spec_seed(&self) -> u32 {
        self.global.root.seed
    }

    open spec fn spec_variable(&self, name: StateVariableName) -> Result<Value, StateMachineError> {
        match name {
            StateVariableName::Counter(c) => if (c as int) < self.counters.len() {
                Ok(Value::Num(self.counters[c as int]))
            } else {
                Err(StateMachineError::NoCounter { machine: self.global.id, name: c })
            },
            StateVariableName::Global(g) => self.global.spec_variable(g),
        }
    }
}

/// Globals and a machine's counters.
#[derive(Copy, Clone)]
pub struct StateData<'a> {
    pub global_data: GlobalData<'a>,
    pub counters: &'a Vec<u32>,
}

impl<'a> ExpressionData<StateVariableName> for StateData<'a> {
    type Model = StateDataModel;

    open spec fn model(&self) -> StateDataModel {
        StateDataModel { global: self.global_data.model(), counters: self.counters@ }
    }

    fn date(&self) -> (r: Date) {
        assert(self.model().spec_date() == self.global_data.root.date);
        self.global_data.root.date
    }

    fn seed(&self) -> (r: u32) {
        assert(self.model().spec_seed() == self.global_data.root.seed);
        self.global_data.root.seed
    }

    fn variable(&self, name: &StateVariableName) -> (r: Result<Value, StateMachineError>) {
        let r = {
            match name {
                StateVariableName::Counter(c) => {
                    if (*c as usize) < self.counters.len() {
                        Ok(Value::Num(self.counters[*c as usize]))
                    } else {
                        Err(StateMachineError::NoCounter { machine: self.global_data.id, name: *c })
                    }
                },
                StateVariableName::Global(g) => self.global_data.variable(g),
            }
        };
        assert(r == self.model().spec_variable(*name));
        r
    }
}

/// What transition and output expressions see: globals, counters and the
/// current state's local variables.
pub struct LocalModel {
    pub state: StateDataModel,
    pub locals: Seq<Value>,
}

impl ExpressionSpec<LocalVariableName> for LocalModel {
    open spec fn spec_date(&self) -> Date {
        self.state.global.root.date
    }

    open spec fn spec_seed(&self) -> u32 {
        self.state.global.root.seed
    }

    open spec fn spec_variable(&self, name: LocalVariableName) -> Result<Value, StateMachineError> {
        match name {
            LocalVariableName::Local(l) => if (l as int) < self.locals.len() {
                Ok(self.locals[l as int])
            } else {
                Err(StateMachineError::NoLocal { machine: self.state.global.id, name: l })
            },
            LocalVariableName::Other(o) => self.state.spec_variable(o),
        }
    }
}

/// Globals, counters and the current state's locals.
#[derive(Copy, Clone)]
pub struct LocalData<'a> {
    pub state_data: StateData<'a>,
    pub locals: &'a Vec<Value>,
}

impl<'a> ExpressionData<LocalVariableName> for LocalData<'a> {
    type Model = LocalModel;

    open spec fn model(&self) -> LocalModel {
        LocalModel { state: self.state_data.model(), locals: self.locals@ }
    }

    fn date(&self) -> (r: Date) {
        assert(self.model().spec_date() == self.state_data.global_data.root.date);
        self.state_data.global_data.root.date
    }

    fn seed(&self) -> (r: u32) {
        assert(self.model().spec_seed() == self.state_data.global_data.root.seed);
        self.state_data.global_data.root.seed
    }

    fn variable(&self, name: &LocalVariableName) -> (r: Result<Value, StateMachineError>) {
        let r = {
            match name {
                LocalVariableName::Local(l) => {
                    if (*l as usize) < self.locals.len() {
                        Ok(self.locals[*l as usize])
                    } else {
                        Err(StateMachineError::NoLocal { machine: self.state_data.global_data.id, name: *l })
                    }
                },
                LocalVariableName::Other(o) => self.state_data.variable(o),
            }
        };
        assert(r == self.model().spec_variable(*name));
        r
    }
}

} // verus!
