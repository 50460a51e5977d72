//! Primitive operations that puzzle pieces perform on their values.

use vstd::prelude::*;
use std::cmp::Ordering;
use vstd::std_specs::cmp::{PartialEqSpec, PartialOrdSpec};

verus! {

/// An arithmetic operation between two numbers.
#[derive(Copy, Clone, Debug, PartialEq, Eq)]
pub enum ArithmeticOperation {
    Add,
    Subtract,
    Multiply,
    Divide,
    Modulo,
    AbsoluteDifference,
}

/// The kind of values a comparator works on.
#[derive(Copy, Clone, Debug, PartialEq, Eq)]
pub enum ComparatorType {
    Bool,
    Int,
}

/// A comparison between two values.
#[derive(Copy, Clone, Debug, PartialEq, Eq)]
pub enum ComparatorOperation {
    Equals,
    NotEquals,
    LessThan,
    LessThanOrEqualTo,
    GreaterThan,
    GreaterThanOrEqualTo,
}

/// The element type of a list.
#[derive(Copy, Clone, Debug, PartialEq, Eq)]
pub enum ListType {
    Bool,
    Int,
    Realm,
}

/// A logical operation between two booleans.
#[derive(Copy, Clone, Debug, PartialEq, Eq)]
pub enum LogicOperation {
    And,
    Or,
    ExclusiveOr,
    NAnd,
    NOr,
}

/// The mathematical meaning of an arithmetic operation.
pub open spec fn spec_arithmetic(op: ArithmeticOperation, left: int, right: int) -> int {
    match op {
        ArithmeticOperation::Add => left + right,
        ArithmeticOperation::Subtract => left - right,
        ArithmeticOperation::Multiply => left * right,
        ArithmeticOperation::Divide => if right == 0 { left } else { left / right },
        ArithmeticOperation::Modulo => if right == 0 { left } else { left % right },
        ArithmeticOperation::AbsoluteDifference => crate::spec_abs_difference(left, right),
    }
}

/// The operands on which an operation stays within `u32` (outside them the
/// unchecked arithmetic overflows).
pub open spec fn arithmetic_in_range(op: ArithmeticOperation, left: u32, right: u32) -> bool {
    0 <= spec_arithmetic(op, left as int, right as int) <= u32::MAX
}

impl ArithmeticOperation {
    /// Applies the operation; dividing by zero leaves the left value.
    pub fn perform(&self, left: u32, right: u32) -> (r: u32)
        requires
            arithmetic_in_range(*self, left, right),
        ensures
            r == spec_arithmetic(*self, left as int, right as int),
    {
        match self {
            ArithmeticOperation::Add => left + right,
            ArithmeticOperation::Subtract => left - right,
            ArithmeticOperation::Multiply => left * right,
            ArithmeticOperation::Divide => {
                if right == 0 {
                    left
                } else {
                    left / right
                }
            },
            ArithmeticOperation::Modulo => {
                if right == 0 {
                    left
                } else {
                    left % right
                }
            },
            ArithmeticOperation::AbsoluteDifference => crate::abs_difference(left, right),
        }
    }
}

/// What a comparison means for values whose equality and order follow
/// their specifications.
pub open spec fn compares<T: PartialOrd>(op: ComparatorOperation, left: T, right: T) -> bool {
    match op {
        ComparatorOperation::Equals => left.eq_spec(&right),
        ComparatorOperation::NotEquals => !left.eq_spec(&right),
        ComparatorOperation::LessThan => left.partial_cmp_spec(&right) == Some(Ordering::Less),
        ComparatorOperation::LessThanOrEqualTo => left.partial_cmp_spec(&right) matches Some(Ordering::Less | Ordering::Equal),
        ComparatorOperation::GreaterThan => left.partial_cmp_spec(&right) == Some(Ordering::Greater),
        ComparatorOperation::GreaterThanOrEqualTo => left.partial_cmp_spec(&right) matches Some(
            Ordering::Greater
            | Ordering::Equal,
        ),
    }
}

impl ComparatorOperation {
    /// Compares two values; exact for types whose equality and order follow
    /// their specifications, as integers and booleans do.
    pub fn compare<T: PartialOrd>(&self, left: T, right: T) -> (r: bool)
        ensures
            T::obeys_eq_spec() && T::obeys_partial_cmp_spec() ==> r == compares(*self, left, right),
    {
        match self {
            ComparatorOperation::Equals => left == right,
            ComparatorOperation::NotEquals => left != right,
            ComparatorOperation::LessThan => left < right,
            ComparatorOperation::LessThanOrEqualTo => left <= right,
            ComparatorOperation::GreaterThan => left > right,
            ComparatorOperation::GreaterThanOrEqualTo => left >= right,
        }
    }
}

/// The meaning of a logical operation.
pub open spec fn spec_logic(op: LogicOperation, left: bool, right: bool) -> bool {
    match op {
        LogicOperation::And => left && right,
        LogicOperation::Or => left || right,
        LogicOperation::ExclusiveOr => left != right,
        LogicOperation::NAnd => !(left && right),
        LogicOperation::NOr => !(left || right),
    }
}

impl LogicOperation {
    /// Combines two booleans.
    pub fn perform(&self, left: bool, right: bool) -> (r: bool)
        ensures
            r == spec_logic(*self, left, right),
    {
        match self {
            LogicOperation::And => left && right,
            LogicOperation::Or => left || right,
            LogicOperation::ExclusiveOr => left ^ right,
            LogicOperation::NAnd => !(left && right),
            LogicOperation::NOr => !(left || right),
        }
    }
}

/// The negated operations are the negations of their positive forms.
pub proof fn lemma_negated_logic(left: bool, right: bool)
    ensures
        spec_logic(LogicOperation::NAnd, left, right) == !spec_logic(LogicOperation::And, left, right),
        spec_logic(LogicOperation::NOr, left, right) == !spec_logic(LogicOperation::Or, left, right),
{
}

/// On numbers, each comparison has an opposite that is always its negation,
/// and swapping the operands turns a comparison into its mirror.
pub proof fn lemma_compare_opposites(left: u32, right: u32)
    ensures
        compares(ComparatorOperation::NotEquals, left, right) == !compares(ComparatorOperation::Equals, left, right),
        compares(ComparatorOperation::LessThan, left, right) == !compares(ComparatorOperation::GreaterThanOrEqualTo, left, right),
        compares(ComparatorOperation::GreaterThan, left, right) == !compares(ComparatorOperation::LessThanOrEqualTo, left, right),
        compares(ComparatorOperation::LessThan, left, right) == compares(ComparatorOperation::GreaterThan, right, left),
        compares(ComparatorOperation::Equals, left, right) == (left == right),
{
}

} // verus!
