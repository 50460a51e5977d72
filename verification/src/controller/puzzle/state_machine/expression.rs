//! Expressions that compute the values of state-machine variables.

use vstd::prelude::*;
use crate::controller::puzzle::area::{PlayerStateCondition, equivalent};
use crate::controller::puzzle::state_machine::error::StateMachineError;
use crate::controller::puzzle::state_machine::holiday::{Holiday, spec_is_holiday};
use crate::controller::puzzle::{MultiStateModel, MultiStateValue, Value};
use crate::time::Date;
use rand::SeedableRng;

verus! {

broadcast use vstd::std_specs::vec::group_vec_axioms;

/// A boolean-valued expression.
#[derive(Debug)]
pub enum BoolExpression<Variable> {
    And(Box<BoolExpression<Variable>>, Box<BoolExpression<Variable>>),
    Constant(bool),
    Equal(NumberExpression<Variable>, NumberExpression<Variable>),
    GreaterThan(NumberExpression<Variable>, NumberExpression<Variable>),
    GreaterThanOrEqual(NumberExpression<Variable>, NumberExpression<Variable>),
    If(Box<BoolExpression<Variable>>, Box<BoolExpression<Variable>>, Box<BoolExpression<Variable>>),
    IsHoliday(Vec<Holiday>),
    LessThan(NumberExpression<Variable>, NumberExpression<Variable>),
    LessThanOrEqual(NumberExpression<Variable>, NumberExpression<Variable>),
    Not(Box<BoolExpression<Variable>>),
    NotEqual(NumberExpression<Variable>, NumberExpression<Variable>),
    Or(Box<BoolExpression<Variable>>, Box<BoolExpression<Variable>>),
    Variable(Variable),
}

/// A number-valued expression.
#[derive(Debug)]
pub enum NumberExpression<Variable> {
    Add(Box<NumberExpression<Variable>>, Box<NumberExpression<Variable>>),
    And(Box<NumberExpression<Variable>>, Box<NumberExpression<Variable>>),
    Case(Box<NumberExpression<Variable>>, Vec<NumberExpression<Variable>>, Box<NumberExpression<Variable>>),
    Constant(u32),
    Divide(Box<NumberExpression<Variable>>, Box<NumberExpression<Variable>>),
    If(Box<BoolExpression<Variable>>, Box<NumberExpression<Variable>>, Box<NumberExpression<Variable>>),
    Mask { offset: u8, length: u8 },
    Max(Box<NumberExpression<Variable>>, Box<NumberExpression<Variable>>),
    Min(Box<NumberExpression<Variable>>, Box<NumberExpression<Variable>>),
    Modulo(Box<NumberExpression<Variable>>, Box<NumberExpression<Variable>>),
    /// Evaluates to the sum of its operands, saturating at `u32::MAX`, not
    /// their product.
    Multiply(Box<NumberExpression<Variable>>, Box<NumberExpression<Variable>>),
    /// Evaluates to the bitwise and of its operands, not their bitwise or.
    Or(Box<NumberExpression<Variable>>, Box<NumberExpression<Variable>>),
    Permutation {
        seed: Box<NumberExpression<Variable>>,
        index: Box<NumberExpression<Variable>>,
        length: Box<NumberExpression<Variable>>,
    },
    Seed,
    Subtract(Box<NumberExpression<Variable>>, Box<NumberExpression<Variable>>),
    Variable(Variable),
    XOr(Box<NumberExpression<Variable>>, Box<NumberExpression<Variable>>),
}

/// An expression for a variable of either kind.
#[derive(Debug)]
pub enum VariableExpression<Variable> {
    Bool(BoolExpression<Variable>),
    Num(NumberExpression<Variable>),
}

/// An expression for an output that may depend on the player's state.
#[derive(Debug)]
pub enum MultiStateVariableExpression<Variable> {
    Bool(BoolExpression<Variable>),
    Num(NumberExpression<Variable>),
    MultiBool { default: BoolExpression<Variable>, expressions: Vec<(PlayerStateCondition, BoolExpression<Variable>)> },
    MultiNum { default: NumberExpression<Variable>, expressions: Vec<(PlayerStateCondition, NumberExpression<Variable>)> },
}

/// What an expression can read: the local calendar day, the puzzle's seed
/// and its variables.
pub trait ExpressionSpec<Variable> {
    spec fn spec_date(&self) -> Date;

    spec fn spec_seed(&self) -> u32;

    spec fn spec_variable(&self, name: Variable) -> Result<Value, StateMachineError>;
}

/// The environment an expression is evaluated in.
pub trait ExpressionData<Variable> {
    type Model: ExpressionSpec<Variable>;

    /// What this environment lets an expression read.
    spec fn model(&self) -> Self::Model;

    /// The local calendar day.
    fn date(&self) -> (r: Date)
        ensures
            r == self.model().spec_date(),
    ;

    /// The seed of the puzzle.
    fn seed(&self) -> (r: u32)
        ensures
            r == self.model().spec_seed(),
    ;

    /// The value of a variable.
    fn variable(&self, name: &Variable) -> (r: Result<Value, StateMachineError>)
        ensures
            r == self.model().spec_variable(*name),
    ;
}

/// The position of `index` in a random permutation of `0..length` drawn with
/// `rand`'s `SmallRng` seeded from `seed` (`rand::seq::index::sample`). That
/// generator's algorithm depends on the machine's word size, given as `word_bits`.
pub uninterp spec fn permutation_entry(seed: u64, length: usize, index: usize, word_bits: u32) -> usize;

/// Draws entry `index` of a random permutation of `0..length` (`SmallRng::seed_from_u64`
/// then `rand::seq::index::sample(.., length, length).index(index)`); the entry is below `length`.
/// Lengths above `u32::MAX` are left out: there `sample` takes a path whose
/// debug assertion fails when all entries are drawn.
#[verifier::external_body]
pub(crate) fn permute(seed: u64, length: usize, index: usize) -> (r: usize)
    requires
        index < length,
        length <= u32::MAX,
    ensures
        r == permutation_entry(seed, length, index, usize::BITS),
        r < length,
{
    let mut rng = rand::rngs::SmallRng::seed_from_u64(seed);
    rand::seq::index::sample(&mut rng, length, length).index(index)
}

/// Both results, or the first error.
pub open spec fn both<A, B>(a: Result<A, StateMachineError>, b: Result<B, StateMachineError>) -> Result<(A, B), StateMachineError> {
    match a {
        Err(e) => Err(e),
        Ok(x) => match b {
            Err(e) => Err(e),
            Ok(y) => Ok((x, y)),
        },
    }
}

/// The mask of `length` bits at `offset`; bits that do not fit are dropped.
pub open spec fn spec_mask(offset: u8, length: u8) -> u32 {
    let mask: u32 = if length < 32 { ((1u32 << length) - 1) as u32 } else { 0 };
    if offset < 32 { mask << offset } else { 0 }
}

/// Whether any of the holidays contains `date`.
pub open spec fn any_holiday(holidays: Seq<Holiday>, date: Date) -> bool {
    exists|i: int| 0 <= i < holidays.len() && spec_is_holiday(#[trigger] holidays[i], date)
}

/// The value of a boolean expression, or the first error met evaluating it.
pub open spec fn eval_bool<V, D: ExpressionSpec<V>>(e: BoolExpression<V>, d: D) -> Result<bool, StateMachineError>
    decreases e, 0nat,
{
    match e {
        BoolExpression::And(left, right) => match eval_bool(*left, d) {
            Err(x) => Err(x),
            Ok(false) => Ok(false),
            Ok(true) => eval_bool(*right, d),
        },
        BoolExpression::Constant(value) => Ok(value),
        BoolExpression::Equal(left, right) => match both(eval_num(left, d), eval_num(right, d)) {
            Err(x) => Err(x),
            Ok((l, r)) => Ok(l == r),
        },
        BoolExpression::GreaterThan(left, right) => match both(eval_num(left, d), eval_num(right, d)) {
            Err(x) => Err(x),
            Ok((l, r)) => Ok(l > r),
        },
        BoolExpression::GreaterThanOrEqual(left, right) => match both(eval_num(left, d), eval_num(right, d)) {
            Err(x) => Err(x),
            Ok((l, r)) => Ok(l >= r),
        },
        BoolExpression::If(condition, when_true, when_false) => match eval_bool(*condition, d) {
            Err(x) => Err(x),
            Ok(true) => eval_bool(*when_true, d),
            Ok(false) => eval_bool(*when_false, d),
        },
        BoolExpression::IsHoliday(holidays) => Ok(any_holiday(holidays@, d.spec_date())),
        BoolExpression::LessThan(left, right) => match both(eval_num(left, d), eval_num(right, d)) {
            Err(x) => Err(x),
            Ok((l, r)) => Ok(l < r),
        },
        BoolExpression::LessThanOrEqual(left, right) => match both(eval_num(left, d), eval_num(right, d)) {
            Err(x) => Err(x),
            Ok((l, r)) => Ok(l <= r),
        },
        BoolExpression::Not(inner) => match eval_bool(*inner, d) {
            Err(x) => Err(x),
            Ok(v) => Ok(!v),
        },
        BoolExpression::NotEqual(left, right) => match both(eval_num(left, d), eval_num(right, d)) {
            Err(x) => Err(x),
            Ok((l, r)) => Ok(l != r),
        },
        BoolExpression::Or(left, right) => match eval_bool(*left, d) {
            Err(x) => Err(x),
            Ok(true) => Ok(true),
            Ok(false) => eval_bool(*right, d),
        },
        BoolExpression::Variable(name) => match d.spec_variable(name) {
            Err(x) => Err(x),
            Ok(v) => Ok(v.spec_to_bool()),
        },
    }
}

/// The value of a number expression, or the first error met evaluating it.
pub open spec fn eval_num<V, D: ExpressionSpec<V>>(e: NumberExpression<V>, d: D) -> Result<u32, StateMachineError>
    decreases e, 0nat,
{
    match e {
        NumberExpression::Add(left, right) => match both(eval_num(*left, d), eval_num(*right, d)) {
            Err(x) => Err(x),
            Ok((l, r)) => Ok(if l + r > u32::MAX { u32::MAX } else { (l + r) as u32 }),
        },
        NumberExpression::And(left, right) => match both(eval_num(*left, d), eval_num(*right, d)) {
            Err(x) => Err(x),
            Ok((l, r)) => Ok(l & r),
        },
        NumberExpression::Case(index, cases, default) => match eval_num(*index, d) {
            Err(x) => Err(x),
            Ok(i) => if (i as int) < cases@.len() {
                eval_num(cases@[i as int], d)
            } else {
                eval_num(*default, d)
            },
        },
        NumberExpression::Constant(value) => Ok(value),
        NumberExpression::Divide(left, right) => match eval_num(*right, d) {
            Err(x) => Err(x),
            Ok(r) => if r == 0 {
                Ok(0)
            } else {
                match eval_num(*left, d) {
                    Err(x) => Err(x),
                    Ok(l) => Ok(l / r),
                }
            },
        },
        NumberExpression::If(condition, when_true, when_false) => match eval_bool(*condition, d) {
            Err(x) => Err(x),
            Ok(true) => eval_num(*when_true, d),
            Ok(false) => eval_num(*when_false, d),
        },
        NumberExpression::Mask { offset, length } => Ok(spec_mask(offset, length)),
        NumberExpression::Max(left, right) => match both(eval_num(*left, d), eval_num(*right, d)) {
            Err(x) => Err(x),
            Ok((l, r)) => Ok(if l >= r { l } else { r }),
        },
        NumberExpression::Min(left, right) => match both(eval_num(*left, d), eval_num(*right, d)) {
            Err(x) => Err(x),
            Ok((l, r)) => Ok(if l <= r { l } else { r }),
        },
        NumberExpression::Modulo(left, right) => match eval_num(*right, d) {
            Err(x) => Err(x),
            Ok(r) => if r == 0 {
                Ok(0)
            } else {
                match eval_num(*left, d) {
                    Err(x) => Err(x),
                    Ok(l) => Ok(l % r),
                }
            },
        },
        // The multiplication expression saturates an addition of its operands.
        NumberExpression::Multiply(left, right) => match both(eval_num(*left, d), eval_num(*right, d)) {
            Err(x) => Err(x),
            Ok((l, r)) => Ok(if l + r > u32::MAX { u32::MAX } else { (l + r) as u32 }),
        },
        // The or expression takes the bitwise and of its operands.
        NumberExpression::Or(left, right) => match both(eval_num(*left, d), eval_num(*right, d)) {
            Err(x) => Err(x),
            Ok((l, r)) => Ok(l & r),
        },
        NumberExpression::Permutation { seed, index, length } => match eval_num(*seed, d) {
            Err(x) => Err(x),
            Ok(s) => match eval_num(*index, d) {
                Err(x) => Err(x),
                Ok(i) => match eval_num(*length, d) {
                    Err(x) => Err(x),
                    Ok(n) => Ok(
                        if n == 0 || i >= n {
                            0
                        } else {
                            permutation_entry(s as u64, n as usize, i as usize, usize::BITS) as u32
                        },
                    ),
                },
            },
        },
        NumberExpression::Seed => Ok(d.spec_seed()),
        NumberExpression::Subtract(left, right) => match both(eval_num(*left, d), eval_num(*right, d)) {
            Err(x) => Err(x),
            Ok((l, r)) => Ok(if l < r { 0 } else { (l - r) as u32 }),
        },
        NumberExpression::Variable(name) => match d.spec_variable(name) {
            Err(x) => Err(x),
            Ok(v) => Ok(v.spec_to_num()),
        },
        NumberExpression::XOr(left, right) => match both(eval_num(*left, d), eval_num(*right, d)) {
            Err(x) => Err(x),
            Ok((l, r)) => Ok(l ^ r),
        },
    }
}

fn mask(offset: u8, length: u8) -> (r: u32)
    ensures
        r == spec_mask(offset, length),
{
    let m: u32 = if length < 32 {
        let v: u32 = 1u32 << length;
        assert(v >= 1) by (bit_vector)
            requires
                v == 1u32 << length,
                length < 32,
        ;
        v - 1
    } else {
        0
    };
    if offset < 32 { m << offset } else { 0 }
}

fn any_holiday_exec(holidays: &Vec<Holiday>, date: &Date) -> (r: bool)
    ensures
        r == any_holiday(holidays@, *date),
{
    let mut i: usize = 0;
    while i < holidays.len()
        invariant
            i <= holidays@.len(),
            forall|j: int| 0 <= j < i ==> !spec_is_holiday(#[trigger] holidays@[j], *date),
        decreases holidays@.len() - i,
    {
        if holidays[i].is_holiday(date) {
            return true;
        }
        i = i + 1;
    }
    false
}

impl<Variable> BoolExpression<Variable> {
    /// Evaluates the expression; `And` and `Or` skip their right side when the
    /// left one decides, and the first error met is returned.
    pub fn evaluate<Data: ExpressionData<Variable>>(&self, data: &Data) -> (r: Result<bool, StateMachineError>)
        ensures
            r == eval_bool(*self, data.model()),
        decreases self,
    {
        match self {
            BoolExpression::And(left, right) => {
                let l = left.evaluate(data)?;
                if l { right.evaluate(data) } else { Ok(false) }
            },
            BoolExpression::Constant(value) => Ok(*value),
            BoolExpression::Equal(left, right) => {
                let l = left.evaluate(data)?;
                let r = right.evaluate(data)?;
                Ok(l == r)
            },
            BoolExpression::GreaterThan(left, right) => {
                let l = left.evaluate(data)?;
                let r = right.evaluate(data)?;
                Ok(l > r)
            },
            BoolExpression::GreaterThanOrEqual(left, right) => {
                let l = left.evaluate(data)?;
                let r = right.evaluate(data)?;
                Ok(l >= r)
            },
            BoolExpression::If(condition, when_true, when_false) => {
                if condition.evaluate(data)? {
                    when_true.evaluate(data)
                } else {
                    when_false.evaluate(data)
                }
            },
            BoolExpression::IsHoliday(holidays) => {
                let date = data.date();
                Ok(any_holiday_exec(holidays, &date))
            },
            BoolExpression::LessThan(left, right) => {
                let l = left.evaluate(data)?;
                let r = right.evaluate(data)?;
                Ok(l < r)
            },
            BoolExpression::LessThanOrEqual(left, right) => {
                let l = left.evaluate(data)?;
                let r = right.evaluate(data)?;
                Ok(l <= r)
            },
            BoolExpression::Not(inner) => {
                let v = inner.evaluate(data)?;
                Ok(!v)
            },
            BoolExpression::NotEqual(left, right) => {
                let l = left.evaluate(data)?;
                let r = right.evaluate(data)?;
                Ok(l != r)
            },
            BoolExpression::Or(left, right) => {
                let l = left.evaluate(data)?;
                if l { Ok(true) } else { right.evaluate(data) }
            },
            BoolExpression::Variable(name) => {
                let v = data.variable(name)?;
                Ok(v.to_bool())
            },
        }
    }
}

impl<Variable> NumberExpression<Variable> {
    /// Evaluates the expression, returning the first error met. Addition and
    /// subtraction saturate; dividing by zero gives zero.
    pub fn evaluate<Data: ExpressionData<Variable>>(&self, data: &Data) -> (r: Result<u32, StateMachineError>)
        ensures
            r == eval_num(*self, data.model()),
        decreases self,
    {
        match self {
            NumberExpression::Add(left, right) => {
                let l = left.evaluate(data)?;
                let r = right.evaluate(data)?;
                Ok(l.saturating_add(r))
            },
            NumberExpression::And(left, right) => {
                let l = left.evaluate(data)?;
                let r = right.evaluate(data)?;
                Ok(l & r)
            },
            NumberExpression::Case(index, cases, default) => {
                let i = index.evaluate(data)?;
                if (i as usize) < cases.len() {
                    proof {
                        assert(decreases_to!(*self => (*self)->Case_1));
                        assert(decreases_to!(*cases => cases[i as int]));
                    }
                    cases[i as usize].evaluate(data)
                } else {
                    default.evaluate(data)
                }
            },
            NumberExpression::Constant(value) => Ok(*value),
            NumberExpression::Divide(left, right) => {
                let r = right.evaluate(data)?;
                if r == 0 {
                    Ok(0)
                } else {
                    let l = left.evaluate(data)?;
                    Ok(l / r)
                }
            },
            NumberExpression::If(condition, when_true, when_false) => {
                if condition.evaluate(data)? {
                    when_true.evaluate(data)
                } else {
                    when_false.evaluate(data)
                }
            },
            NumberExpression::Mask { offset, length } => Ok(mask(*offset, *length)),
            NumberExpression::Max(left, right) => {
                let l = left.evaluate(data)?;
                let r = right.evaluate(data)?;
                Ok(if l >= r { l } else { r })
            },
            NumberExpression::Min(left, right) => {
                let l = left.evaluate(data)?;
                let r = right.evaluate(data)?;
                Ok(if l <= r { l } else { r })
            },
            NumberExpression::Modulo(left, right) => {
                let r = right.evaluate(data)?;
                if r == 0 {
                    Ok(0)
                } else {
                    let l = left.evaluate(data)?;
                    Ok(l % r)
                }
            },
            NumberExpression::Multiply(left, right) => {
                let l = left.evaluate(data)?;
                let r = right.evaluate(data)?;
                Ok(l.saturating_add(r))
            },
            NumberExpression::Or(left, right) => {
                let l = left.evaluate(data)?;
                let r = right.evaluate(data)?;
                Ok(l & r)
            },
            NumberExpression::Permutation { seed, index, length } => {
                let s = seed.evaluate(data)?;
                let i = index.evaluate(data)?;
                let n = length.evaluate(data)?;
                if n == 0 || i >= n {
                    Ok(0)
                } else {
                    let p = permute(s as u64, n as usize, i as usize);
                    Ok(p as u32)
                }
            },
            NumberExpression::Seed => Ok(data.seed()),
            NumberExpression::Subtract(left, right) => {
                let l = left.evaluate(data)?;
                let r = right.evaluate(data)?;
                Ok(l.saturating_sub(r))
            },
            NumberExpression::Variable(name) => {
                let v = data.variable(name)?;
                Ok(v.to_num())
            },
            NumberExpression::XOr(left, right) => {
                let l = left.evaluate(data)?;
                let r = right.evaluate(data)?;
                Ok(l ^ r)
            },
        }
    }
}

/// The value of a variable expression.
pub open spec fn eval_variable<V, D: ExpressionSpec<V>>(e: VariableExpression<V>, d: D) -> Result<Value, StateMachineError> {
    match e {
        VariableExpression::Bool(b) => match eval_bool(b, d) {
            Err(x) => Err(x),
            Ok(v) => Ok(Value::Bool(v)),
        },
        VariableExpression::Num(n) => match eval_num(n, d) {
            Err(x) => Err(x),
            Ok(v) => Ok(Value::Num(v)),
        },
    }
}

impl<Variable> VariableExpression<Variable> {
    /// Evaluates the expression to a value of its kind.
    pub fn evaluate<D: ExpressionData<Variable>>(&self, data: &D) -> (r: Result<Value, StateMachineError>)
        ensures
            r == eval_variable(*self, data.model()),
    {
        match self {
            VariableExpression::Bool(e) => Ok(Value::Bool(e.evaluate(data)?)),
            VariableExpression::Num(e) => Ok(Value::Num(e.evaluate(data)?)),
        }
    }
}

/// The values of the listed boolean expressions, or the first error.
pub open spec fn eval_bool_list<V, D: ExpressionSpec<V>>(es: Seq<(PlayerStateCondition, BoolExpression<V>)>, d: D) -> Result<Seq<bool>, StateMachineError>
    decreases es.len(),
{
    if es.len() == 0 {
        Ok(Seq::empty())
    } else {
        match eval_bool_list(es.drop_last(), d) {
            Err(x) => Err(x),
            Ok(vs) => match eval_bool(es.last().1, d) {
                Err(x) => Err(x),
                Ok(v) => Ok(vs.push(v)),
            },
        }
    }
}

/// The values of the listed number expressions, or the first error.
pub open spec fn eval_num_list<V, D: ExpressionSpec<V>>(es: Seq<(PlayerStateCondition, NumberExpression<V>)>, d: D) -> Result<Seq<u32>, StateMachineError>
    decreases es.len(),
{
    if es.len() == 0 {
        Ok(Seq::empty())
    } else {
        match eval_num_list(es.drop_last(), d) {
            Err(x) => Err(x),
            Ok(vs) => match eval_num(es.last().1, d) {
                Err(x) => Err(x),
                Ok(v) => Ok(vs.push(v)),
            },
        }
    }
}

proof fn lemma_bool_list_error<V, D: ExpressionSpec<V>>(
    es: Seq<(PlayerStateCondition, BoolExpression<V>)>,
    d: D,
    i: int,
    k: int,
)
    requires
        1 <= i <= k <= es.len(),
        eval_bool_list(es.take(i), d) is Err,
    ensures
        eval_bool_list(es.take(k), d) == eval_bool_list(es.take(i), d),
    decreases k - i,
{
    if k > i {
        lemma_bool_list_error(es, d, i, k - 1);
        assert(es.take(k).drop_last() == es.take(k - 1));
    }
}

proof fn lemma_num_list_error<V, D: ExpressionSpec<V>>(
    es: Seq<(PlayerStateCondition, NumberExpression<V>)>,
    d: D,
    i: int,
    k: int,
)
    requires
        1 <= i <= k <= es.len(),
        eval_num_list(es.take(i), d) is Err,
    ensures
        eval_num_list(es.take(k), d) == eval_num_list(es.take(i), d),
    decreases k - i,
{
    if k > i {
        lemma_num_list_error(es, d, i, k - 1);
        assert(es.take(k).drop_last() == es.take(k - 1));
    }
}

/// The value of a multi-state expression, without its player conditions.
pub open spec fn eval_multi<V, D: ExpressionSpec<V>>(e: MultiStateVariableExpression<V>, d: D) -> Result<MultiStateModel, StateMachineError> {
    match e {
        MultiStateVariableExpression::Bool(b) => match eval_bool(b, d) {
            Err(x) => Err(x),
            Ok(v) => Ok(MultiStateModel::Bool(v)),
        },
        MultiStateVariableExpression::Num(n) => match eval_num(n, d) {
            Err(x) => Err(x),
            Ok(v) => Ok(MultiStateModel::Num(v)),
        },
        MultiStateVariableExpression::MultiBool { default, expressions } => match eval_bool(default, d) {
            Err(x) => Err(x),
            Ok(v) => match eval_bool_list(expressions@, d) {
                Err(x) => Err(x),
                Ok(vs) => Ok(MultiStateModel::MultiBool { default: v, values: vs }),
            },
        },
        MultiStateVariableExpression::MultiNum { default, expressions } => match eval_num(default, d) {
            Err(x) => Err(x),
            Ok(v) => match eval_num_list(expressions@, d) {
                Err(x) => Err(x),
                Ok(vs) => Ok(MultiStateModel::MultiNum { default: v, values: vs }),
            },
        },
    }
}

/// The player conditions of an evaluated output are those of its expression.
pub open spec fn conditions_kept<V>(value: MultiStateValue, e: MultiStateVariableExpression<V>) -> bool {
    match (value, e) {
        (MultiStateValue::MultiBool { values, .. }, MultiStateVariableExpression::MultiBool { expressions, .. }) => {
            &&& values@.len() == expressions@.len()
            &&& forall|i: int| 0 <= i < values@.len() ==> equivalent(#[trigger] values@[i].0, expressions@[i].0)
        },
        (MultiStateValue::MultiNum { values, .. }, MultiStateVariableExpression::MultiNum { expressions, .. }) => {
            &&& values@.len() == expressions@.len()
            &&& forall|i: int| 0 <= i < values@.len() ==> equivalent(#[trigger] values@[i].0, expressions@[i].0)
        },
        _ => true,
    }
}

impl<Variable> MultiStateVariableExpression<Variable> {
    /// Evaluates the output: its default first, then each conditional value in order.
    pub fn evaluate<D: ExpressionData<Variable>>(&self, data: &D) -> (r: Result<MultiStateValue, StateMachineError>)
        ensures
            match r {
                Err(x) => eval_multi(*self, data.model()) == Err::<MultiStateModel, StateMachineError>(x),
                Ok(v) => eval_multi(*self, data.model()) == Ok::<MultiStateModel, StateMachineError>(v.model()) && conditions_kept(v, *self),
            },
    {
        match self {
            MultiStateVariableExpression::Bool(e) => Ok(MultiStateValue::Bool(e.evaluate(data)?)),
            MultiStateVariableExpression::Num(e) => Ok(MultiStateValue::Num(e.evaluate(data)?)),
            MultiStateVariableExpression::MultiBool { default, expressions } => {
                let d = default.evaluate(data)?;
                let mut values: Vec<(PlayerStateCondition, bool)> = Vec::new();
                let mut i: usize = 0;
                proof {
                    assert(expressions@.take(0) =~= Seq::empty());
                    assert(values@.map_values(|p: (PlayerStateCondition, bool)| p.1) =~= Seq::empty());
                }
                while i < expressions.len()
                    invariant
                        *self == (MultiStateVariableExpression::MultiBool { default: *default, expressions: *expressions }),
                        eval_bool(*default, data.model()) == Ok::<bool, StateMachineError>(d),
                        i <= expressions@.len(),
                        values@.len() == i,
                        eval_bool_list(expressions@.take(i as int), data.model()) == Ok::<Seq<bool>, StateMachineError>(
                            values@.map_values(|p: (PlayerStateCondition, bool)| p.1),
                        ),
                        forall|j: int| 0 <= j < i ==> equivalent(#[trigger] values@[j].0, expressions@[j].0),
                    decreases expressions@.len() - i,
                {
                    proof {
                        assert(expressions@.take(i as int + 1).drop_last() == expressions@.take(i as int));
                    }
                    let v = expressions[i].1.evaluate(data);
                    match v {
                        Err(x) => {
                            proof {
                                assert(eval_bool_list(expressions@.take(i as int + 1), data.model()) == Err::<Seq<bool>, StateMachineError>(x));
                                lemma_bool_list_error(expressions@, data.model(), i as int + 1, expressions@.len() as int);
                                assert(expressions@.take(expressions@.len() as int) == expressions@);
                            }
                            return Err(x);
                        },
                        Ok(b) => {
                            let condition = expressions[i].0.duplicate();
                            let ghost before = values@;
                            values.push((condition, b));
                            proof {
                                assert(values@.map_values(|p: (PlayerStateCondition, bool)| p.1) =~= before.map_values(
                                    |p: (PlayerStateCondition, bool)| p.1,
                                ).push(b));
                            }
                        },
                    }
                    i = i + 1;
                }
                proof {
                    assert(expressions@.take(i as int) == expressions@);
                }
                Ok(MultiStateValue::MultiBool { default: d, values })
            },
            MultiStateVariableExpression::MultiNum { default, expressions } => {
                let d = default.evaluate(data)?;
                let mut values: Vec<(PlayerStateCondition, u32)> = Vec::new();
                let mut i: usize = 0;
                proof {
                    assert(expressions@.take(0) =~= Seq::empty());
                    assert(values@.map_values(|p: (PlayerStateCondition, u32)| p.1) =~= Seq::empty());
                }
                while i < expressions.len()
                    invariant
                        *self == (MultiStateVariableExpression::MultiNum { default: *default, expressions: *expressions }),
                        eval_num(*default, data.model()) == Ok::<u32, StateMachineError>(d),
                        i <= expressions@.len(),
                        values@.len() == i,
                        eval_num_list(expressions@.take(i as int), data.model()) == Ok::<Seq<u32>, StateMachineError>(
                            values@.map_values(|p: (PlayerStateCondition, u32)| p.1),
                        ),
                        forall|j: int| 0 <= j < i ==> equivalent(#[trigger] values@[j].0, expressions@[j].0),
                    decreases expressions@.len() - i,
                {
                    proof {
                        assert(expressions@.take(i as int + 1).drop_last() == expressions@.take(i as int));
                    }
                    let v = expressions[i].1.evaluate(data);
                    match v {
                        Err(x) => {
                            proof {
                                assert(eval_num_list(expressions@.take(i as int + 1), data.model()) == Err::<Seq<u32>, StateMachineError>(x));
                                lemma_num_list_error(expressions@, data.model(), i as int + 1, expressions@.len() as int);
                                assert(expressions@.take(expressions@.len() as int) == expressions@);
                            }
                            return Err(x);
                        },
                        Ok(n) => {
                            let condition = expressions[i].0.duplicate();
                            let ghost before = values@;
                            values.push((condition, n));
                            proof {
                                assert(values@.map_values(|p: (PlayerStateCondition, u32)| p.1) =~= before.map_values(
                                    |p: (PlayerStateCondition, u32)| p.1,
                                ).push(n));
                            }
                        },
                    }
                    i = i + 1;
                }
                proof {
                    assert(expressions@.take(i as int) == expressions@);
                }
                Ok(MultiStateValue::MultiNum { default: d, values })
            },
        }
    }
}

/// A comparison of two numbers that evaluate says how the first stands to
/// the second; swapping the operands of a strict or non-strict comparison
/// gives its mirror.
pub proof fn lemma_comparisons_compare_values<V, D: ExpressionSpec<V>>(
    a: NumberExpression<V>,
    b: NumberExpression<V>,
    d: D,
    x: u32,
    y: u32,
)
    requires
        eval_num(a, d) == Ok::<u32, StateMachineError>(x),
        eval_num(b, d) == Ok::<u32, StateMachineError>(y),
    ensures
        eval_bool(BoolExpression::GreaterThan(a, b), d) == Ok::<bool, StateMachineError>(x > y),
        eval_bool(BoolExpression::GreaterThanOrEqual(a, b), d) == Ok::<bool, StateMachineError>(x >= y),
        eval_bool(BoolExpression::LessThan(a, b), d) == Ok::<bool, StateMachineError>(x < y),
        eval_bool(BoolExpression::LessThanOrEqual(a, b), d) == Ok::<bool, StateMachineError>(x <= y),
        eval_bool(BoolExpression::Equal(a, b), d) == Ok::<bool, StateMachineError>(x == y),
        eval_bool(BoolExpression::NotEqual(a, b), d) == Ok::<bool, StateMachineError>(x != y),
        eval_bool(BoolExpression::GreaterThan(a, b), d) == eval_bool(BoolExpression::LessThan(b, a), d),
        eval_bool(BoolExpression::GreaterThanOrEqual(a, b), d) == eval_bool(BoolExpression::LessThanOrEqual(b, a), d),
        eval_bool(BoolExpression::Equal(a, b), d) == eval_bool(BoolExpression::Equal(b, a), d),
{
}

/// A comparison whose first operand fails gives that operand's error.
pub proof fn lemma_comparison_errors<V, D: ExpressionSpec<V>>(a: NumberExpression<V>, b: NumberExpression<V>, d: D, e: StateMachineError)
    requires
        eval_num(a, d) == Err::<u32, StateMachineError>(e),
    ensures
        eval_bool(BoolExpression::GreaterThan(a, b), d) == Err::<bool, StateMachineError>(e),
        eval_bool(BoolExpression::LessThan(a, b), d) == Err::<bool, StateMachineError>(e),
        eval_bool(BoolExpression::Equal(a, b), d) == Err::<bool, StateMachineError>(e),
{
}

/// The logical operators on values that evaluate: negation flips, `And`
/// holds when both hold, `Or` when either does, and `If` picks a branch.
pub proof fn lemma_logic_values<V, D: ExpressionSpec<V>>(
    a: BoolExpression<V>,
    b: BoolExpression<V>,
    c: BoolExpression<V>,
    d: D,
    p: bool,
    q: bool,
)
    requires
        eval_bool(a, d) == Ok::<bool, StateMachineError>(p),
        eval_bool(b, d) == Ok::<bool, StateMachineError>(q),
    ensures
        eval_bool(BoolExpression::Not(Box::new(a)), d) == Ok::<bool, StateMachineError>(!p),
        eval_bool(BoolExpression::And(Box::new(a), Box::new(b)), d) == Ok::<bool, StateMachineError>(p && q),
        eval_bool(BoolExpression::Or(Box::new(a), Box::new(b)), d) == Ok::<bool, StateMachineError>(p || q),
        eval_bool(BoolExpression::If(Box::new(a), Box::new(b), Box::new(c)), d) == (if p {
            Ok::<bool, StateMachineError>(q)
        } else {
            eval_bool(c, d)
        }),
        eval_bool(BoolExpression::Constant(p), d) == Ok::<bool, StateMachineError>(p),
{
}

/// The arithmetic operators on numbers that evaluate: sums and differences
/// saturate at the ends of `u32`, quotient and remainder divide the first
/// number by a non-zero second (and give 0 for a zero one), `Max` and `Min`
/// pick the larger and smaller operand, and `XOr` undoes itself. As the
/// original writes them, `Multiply` is the saturating sum and `Or` the
/// bitwise and.
pub proof fn lemma_arithmetic_values<V, D: ExpressionSpec<V>>(
    a: NumberExpression<V>,
    b: NumberExpression<V>,
    d: D,
    x: u32,
    y: u32,
)
    requires
        eval_num(a, d) == Ok::<u32, StateMachineError>(x),
        eval_num(b, d) == Ok::<u32, StateMachineError>(y),
    ensures
        eval_num(NumberExpression::Constant(x), d) == Ok::<u32, StateMachineError>(x),
        eval_num(NumberExpression::Add(Box::new(a), Box::new(b)), d) matches Ok(s) && (x + y <= u32::MAX ==> s == x + y) && (x
            + y > u32::MAX ==> s == u32::MAX),
        eval_num(NumberExpression::Add(Box::new(a), Box::new(b)), d) == eval_num(NumberExpression::Add(Box::new(b), Box::new(a)), d),
        eval_num(NumberExpression::Subtract(Box::new(a), Box::new(b)), d) matches Ok(s) && (x >= y ==> s + y == x) && (x < y ==> s
            == 0),
        y > 0 ==> (eval_num(NumberExpression::Divide(Box::new(a), Box::new(b)), d) matches Ok(q) && eval_num(
            NumberExpression::Modulo(Box::new(a), Box::new(b)),
            d,
        ) matches Ok(m) && q * y + m == x && m < y),
        y == 0 ==> eval_num(NumberExpression::Divide(Box::new(a), Box::new(b)), d) == Ok::<u32, StateMachineError>(0)
            && eval_num(NumberExpression::Modulo(Box::new(a), Box::new(b)), d) == Ok::<u32, StateMachineError>(0),
        eval_num(NumberExpression::Max(Box::new(a), Box::new(b)), d) matches Ok(m) && m >= x && m >= y && (m == x || m == y),
        eval_num(NumberExpression::Min(Box::new(a), Box::new(b)), d) matches Ok(m) && m <= x && m <= y && (m == x || m == y),
        eval_num(NumberExpression::XOr(Box::new(a), Box::new(b)), d) matches Ok(z) && z ^ y == x,
        eval_num(NumberExpression::And(Box::new(a), Box::new(b)), d) == Ok::<u32, StateMachineError>(x & y),
        eval_num(NumberExpression::Or(Box::new(a), Box::new(b)), d) == Ok::<u32, StateMachineError>(x & y),
        eval_num(NumberExpression::Multiply(Box::new(a), Box::new(b)), d) == eval_num(
            NumberExpression::Add(Box::new(a), Box::new(b)),
            d,
        ),
{
    assert((x ^ y) ^ y == x) by (bit_vector);
    if y > 0 {
        assert((x / y) * y + x % y == x) by (nonlinear_arith)
            requires
                y > 0,
        ;
    }
}

} // verus!
