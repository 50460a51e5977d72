use spadina::asset::puzzle::{ArithmeticOperation, ComparatorOperation, LogicOperation};
use spadina::asset::rules::{Comparator, PlayerMarkMatcher};

#[test]
fn arithmetic_operations_compute() {
    assert_eq!(ArithmeticOperation::Add.perform(2, 3), 5);
    assert_eq!(ArithmeticOperation::Subtract.perform(7, 3), 4);
    assert_eq!(ArithmeticOperation::Multiply.perform(6, 7), 42);
    assert_eq!(ArithmeticOperation::Divide.perform(17, 5), 3);
    assert_eq!(ArithmeticOperation::Modulo.perform(17, 5), 2);
    assert_eq!(ArithmeticOperation::AbsoluteDifference.perform(3, 10), 7);
    assert_eq!(ArithmeticOperation::AbsoluteDifference.perform(10, 3), 7);
}

#[test]
fn dividing_by_zero_keeps_the_left_value() {
    assert_eq!(ArithmeticOperation::Divide.perform(9, 0), 9);
    assert_eq!(ArithmeticOperation::Modulo.perform(9, 0), 9);
}

#[test]
fn comparator_operations_compare_numbers_and_booleans() {
    assert!(ComparatorOperation::Equals.compare(4u32, 4u32));
    assert!(ComparatorOperation::NotEquals.compare(4u32, 5u32));
    assert!(ComparatorOperation::LessThan.compare(4u32, 5u32));
    assert!(!ComparatorOperation::LessThan.compare(5u32, 5u32));
    assert!(ComparatorOperation::LessThanOrEqualTo.compare(5u32, 5u32));
    assert!(ComparatorOperation::GreaterThan.compare(6u32, 5u32));
    assert!(ComparatorOperation::GreaterThanOrEqualTo.compare(5u32, 5u32));
    assert!(ComparatorOperation::LessThan.compare(false, true));
    assert!(!ComparatorOperation::GreaterThan.compare(false, true));
}

#[test]
fn opposite_comparisons_disagree() {
    for (l, r) in [(1u32, 2u32), (2, 2), (3, 2)] {
        assert_eq!(ComparatorOperation::NotEquals.compare(l, r), !ComparatorOperation::Equals.compare(l, r));
        assert_eq!(ComparatorOperation::LessThan.compare(l, r), !ComparatorOperation::GreaterThanOrEqualTo.compare(l, r));
        assert_eq!(ComparatorOperation::LessThan.compare(l, r), ComparatorOperation::GreaterThan.compare(r, l));
    }
}

#[test]
fn logic_operations_combine() {
    assert!(LogicOperation::And.perform(true, true));
    assert!(!LogicOperation::And.perform(true, false));
    assert!(LogicOperation::Or.perform(false, true));
    assert!(LogicOperation::ExclusiveOr.perform(true, false));
    assert!(!LogicOperation::ExclusiveOr.perform(true, true));
    assert!(LogicOperation::NAnd.perform(true, false));
    assert!(LogicOperation::NOr.perform(false, false));
    assert!(!LogicOperation::NOr.perform(true, false));
}

#[test]
fn comparators_compare_with_congruence() {
    assert!(Comparator::Equal.compare(3, 3));
    assert!(Comparator::NotEqual.compare(3, 4));
    assert!(Comparator::LessThanOrEqual.compare(3, 3));
    assert!(Comparator::LessThan.compare(2, 3));
    assert!(Comparator::GreaterThanOrEqual.compare(3, 3));
    assert!(Comparator::GreaterThan.compare(4, 3));
    assert!(Comparator::Congruent(5).compare(12, 7));
    assert!(!Comparator::Congruent(5).compare(12, 8));
}

#[test]
fn player_marks_match() {
    assert!(PlayerMarkMatcher::Any.matches(None));
    assert!(PlayerMarkMatcher::Unmarked.matches(None));
    assert!(!PlayerMarkMatcher::Unmarked.matches(Some(1)));
    assert!(PlayerMarkMatcher::Marked(vec![1, 4], false).matches(Some(4)));
    assert!(!PlayerMarkMatcher::Marked(vec![1, 4], false).matches(Some(2)));
    assert!(PlayerMarkMatcher::Marked(vec![1, 4], true).matches(None));
    assert!(!PlayerMarkMatcher::NotMarked(vec![1, 4], true).matches(Some(4)));
    assert!(PlayerMarkMatcher::HasBit(2, false).matches(Some(0b100)));
    assert!(!PlayerMarkMatcher::HasBit(1, false).matches(Some(0b100)));
    assert!(PlayerMarkMatcher::HasNotBit(1, false).matches(Some(0b100)));
}

#[test]
fn bits_past_the_mark_use_the_unmarked_answer() {
    assert!(PlayerMarkMatcher::HasBit(8, true).matches(Some(0xFF)));
    assert!(!PlayerMarkMatcher::HasBit(9, false).matches(Some(0xFF)));
    assert!(PlayerMarkMatcher::HasNotBit(8, true).matches(Some(0)));
}

#[test]
fn negated_matchers_are_negations() {
    for state in [None, Some(0u8), Some(3), Some(4), Some(0xFF)] {
        for w in [false, true] {
            assert_eq!(
                PlayerMarkMatcher::NotMarked(vec![3, 7], w).matches(state),
                !PlayerMarkMatcher::Marked(vec![3, 7], !w).matches(state)
            );
            for bit in [0u8, 2, 8] {
                assert_eq!(PlayerMarkMatcher::HasNotBit(bit, w).matches(state), !PlayerMarkMatcher::HasBit(bit, !w).matches(state));
            }
        }
    }
}
