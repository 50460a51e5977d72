//! Conditions on, and changes to, the per-player state bits a puzzle tracks.

use vstd::prelude::*;

verus! {

broadcast use vstd::std_specs::vec::group_vec_axioms;

/// A condition on a player's state bits.
#[derive(Debug)]
pub enum PlayerStateCondition {
    All(Vec<PlayerStateCondition>),
    Always,
    Any(Vec<PlayerStateCondition>),
    AnyBits { offset: u8, length: u8 },
    HasBit(u8),
    NoBits { offset: u8, length: u8 },
    NotHasBit(u8),
}

/// A change to apply to a player's state bits.
#[derive(Clone, Debug)]
pub enum PlayerStateModification {
    ClearAll,
    ClearBit(u8),
    SetAll,
    SetBit(u8),
    SetRange { offset: u8, length: u8, value: u8 },
}

/// The mask of `length` bits starting at `offset`, when both shifts fit in 32 bits.
pub open spec fn spec_bit_range(offset: u8, length: u8) -> Option<u32> {
    if length < 32 && offset < 32 {
        Some((((1u32 << length) - 1) as u32) << offset)
    } else {
        None
    }
}

/// The single-bit mask for `bit`, when it fits in 32 bits.
pub open spec fn spec_single_bit(bit: u8) -> Option<u32> {
    if bit < 32 {
        Some(1u32 << bit)
    } else {
        None
    }
}

/// Whether a player with state bits `value` satisfies `condition`.
pub open spec fn spec_check(condition: PlayerStateCondition, value: u32) -> bool
    decreases condition, 0nat,
{
    match condition {
        PlayerStateCondition::All(conditions) => all_hold(conditions@, value),
        PlayerStateCondition::Always => true,
        PlayerStateCondition::Any(conditions) => any_holds(conditions@, value),
        PlayerStateCondition::AnyBits { offset, length } => match spec_bit_range(offset, length) {
            Some(mask) => value & mask != 0,
            None => false,
        },
        PlayerStateCondition::HasBit(b) => match spec_single_bit(b) {
            Some(mask) => value & mask != 0,
            None => false,
        },
        PlayerStateCondition::NoBits { offset, length } => match spec_bit_range(offset, length) {
            Some(mask) => value & mask == 0,
            None => true,
        },
        PlayerStateCondition::NotHasBit(b) => match spec_single_bit(b) {
            Some(mask) => value & mask == 0,
            None => true,
        },
    }
}

/// Every condition in the list holds.
pub open spec fn all_hold(conditions: Seq<PlayerStateCondition>, value: u32) -> bool
    decreases conditions, conditions.len(),
{
    if conditions.len() == 0 {
        true
    } else {
        spec_check(conditions[0], value) && all_hold(conditions.subrange(1, conditions.len() as int), value)
    }
}

/// Some condition in the list holds.
pub open spec fn any_holds(conditions: Seq<PlayerStateCondition>, value: u32) -> bool
    decreases conditions, conditions.len(),
{
    if conditions.len() == 0 {
        false
    } else {
        spec_check(conditions[0], value) || any_holds(conditions.subrange(1, conditions.len() as int), value)
    }
}

/// `all_hold` and `any_holds` are the quantified statements over the list.
pub proof fn lemma_lists(conditions: Seq<PlayerStateCondition>, value: u32)
    ensures
        all_hold(conditions, value) == (forall|i: int| 0 <= i < conditions.len() ==> #[trigger] spec_check(conditions[i], value)),
        any_holds(conditions, value) == (exists|i: int| 0 <= i < conditions.len() && #[trigger] spec_check(conditions[i], value)),
    decreases conditions.len(),
{
    if conditions.len() > 0 {
        let rest = conditions.subrange(1, conditions.len() as int);
        lemma_lists(rest, value);
        assert forall|i: int| 1 <= i < conditions.len() implies spec_check(conditions[i], value) == spec_check(#[trigger] rest[i - 1], value) by {
            assert(rest[i - 1] == conditions[i]);
        }
        if any_holds(conditions, value) && !spec_check(conditions[0], value) {
            let j = choose|j: int| 0 <= j < rest.len() && #[trigger] spec_check(rest[j], value);
            assert(spec_check(conditions[j + 1], value));
        }
        if all_hold(conditions, value) {
            assert forall|i: int| 0 <= i < conditions.len() implies #[trigger] spec_check(conditions[i], value) by {
                if i > 0 {
                    assert(spec_check(rest[i - 1], value));
                }
            }
        }
        if exists|i: int| 0 <= i < conditions.len() && #[trigger] spec_check(conditions[i], value) {
            let i = choose|i: int| 0 <= i < conditions.len() && #[trigger] spec_check(conditions[i], value);
            if i > 0 {
                assert(spec_check(rest[i - 1], value));
            }
        }
        if forall|i: int| 0 <= i < conditions.len() ==> #[trigger] spec_check(conditions[i], value) {
            assert forall|i: int| 0 <= i < rest.len() implies #[trigger] spec_check(rest[i], value) by {
                assert(spec_check(conditions[i + 1], value));
            }
        }
    }
}

fn bit_range(offset: u8, length: u8) -> (r: Option<u32>)
    ensures
        r == spec_bit_range(offset, length),
{
    if length < 32 && offset < 32 {
        let v: u32 = 1u32 << length;
        assert(v >= 1) by (bit_vector)
            requires
                v == 1u32 << length,
                length < 32,
        ;
        Some((v - 1) << offset)
    } else {
        None
    }
}

fn single_bit(bit: u8) -> (r: Option<u32>)
    ensures
        r == spec_single_bit(bit),
{
    if bit < 32 {
        Some(1u32 << bit)
    } else {
        None
    }
}

impl PlayerStateCondition {
    /// A copy of this condition; it accepts exactly the same state bits.
    pub fn duplicate(&self) -> (r: Self)
        ensures
            equivalent(r, *self),
        decreases self,
    {
        match self {
            PlayerStateCondition::All(conditions) => {
                let copy = duplicate_all(conditions);
                proof {
                    lemma_equivalent_lists(copy, *conditions);
                }
                PlayerStateCondition::All(copy)
            },
            PlayerStateCondition::Always => PlayerStateCondition::Always,
            PlayerStateCondition::Any(conditions) => {
                let copy = duplicate_all(conditions);
                proof {
                    lemma_equivalent_lists(copy, *conditions);
                }
                PlayerStateCondition::Any(copy)
            },
            PlayerStateCondition::AnyBits { offset, length } => PlayerStateCondition::AnyBits { offset: *offset, length: *length },
            PlayerStateCondition::HasBit(b) => PlayerStateCondition::HasBit(*b),
            PlayerStateCondition::NoBits { offset, length } => PlayerStateCondition::NoBits { offset: *offset, length: *length },
            PlayerStateCondition::NotHasBit(b) => PlayerStateCondition::NotHasBit(*b),
        }
    }

    /// Checks whether a player with state bits `value` satisfies this condition.
    pub fn check(&self, value: u32) -> (r: bool)
        ensures
            r == spec_check(*self, value),
        decreases self,
    {
        match self {
            PlayerStateCondition::All(conditions) => {
                proof {
                    lemma_lists(conditions@, value);
                }
                let mut i: usize = 0;
                while i < conditions.len()
                    invariant
                        *self == PlayerStateCondition::All(*conditions),
                        all_hold(conditions@, value) == (forall|j: int| 0 <= j < conditions@.len() ==> #[trigger] spec_check(conditions@[j], value)),
                        i <= conditions@.len(),
                        forall|j: int| 0 <= j < i ==> #[trigger] spec_check(conditions@[j], value),
                    decreases conditions@.len() - i,
                {
                    proof {
                        assert(decreases_to!(*conditions => conditions[i as int]));
                        assert(decreases_to!(*self => (*self)->All_0));
                        assert(decreases_to!(*self => conditions[i as int]));
                    }
                    if !conditions[i].check(value) {
                        return false;
                    }
                    i = i + 1;
                }
                true
            },
            PlayerStateCondition::Always => true,
            PlayerStateCondition::Any(conditions) => {
                proof {
                    lemma_lists(conditions@, value);
                }
                let mut i: usize = 0;
                while i < conditions.len()
                    invariant
                        *self == PlayerStateCondition::Any(*conditions),
                        any_holds(conditions@, value) == (exists|j: int| 0 <= j < conditions@.len() && #[trigger] spec_check(conditions@[j], value)),
                        i <= conditions@.len(),
                        forall|j: int| 0 <= j < i ==> !#[trigger] spec_check(conditions@[j], value),
                    decreases conditions@.len() - i,
                {
                    proof {
                        assert(decreases_to!(*conditions => conditions[i as int]));
                        assert(decreases_to!(*self => (*self)->Any_0));
                        assert(decreases_to!(*self => conditions[i as int]));
                    }
                    if conditions[i].check(value) {
                        return true;
                    }
                    i = i + 1;
                }
                false
            },
            PlayerStateCondition::AnyBits { offset, length } => match bit_range(*offset, *length) {
                Some(mask) => value & mask != 0,
                None => false,
            },
            PlayerStateCondition::HasBit(b) => match single_bit(*b) {
                Some(mask) => value & mask != 0,
                None => false,
            },
            PlayerStateCondition::NoBits { offset, length } => match bit_range(*offset, *length) {
                Some(mask) => value & mask == 0,
                None => true,
            },
            PlayerStateCondition::NotHasBit(b) => match single_bit(*b) {
                Some(mask) => value & mask == 0,
                None => true,
            },
        }
    }
}

/// Something that can count the players in an area that satisfy a condition.
pub trait AreaCounter {
    spec fn spec_count_players(&self, filter: PlayerStateCondition) -> u32;

    fn count_players(&self, filter: &PlayerStateCondition) -> (r: u32)
        ensures
            r == self.spec_count_players(*filter),
    ;
}

/// The number of entries in `values` that satisfy `filter`.
pub open spec fn count_matching(values: Seq<u32>, filter: PlayerStateCondition) -> nat
    decreases values.len(),
{
    if values.len() == 0 {
        0
    } else {
        count_matching(values.drop_last(), filter) + if spec_check(filter, values.last()) { 1nat } else { 0nat }
    }
}

proof fn lemma_count_matching_bound(values: Seq<u32>, filter: PlayerStateCondition)
    ensures
        count_matching(values, filter) <= values.len(),
    decreases values.len(),
{
    if values.len() > 0 {
        lemma_count_matching_bound(values.drop_last(), filter);
    }
}

impl Clone for PlayerStateCondition {
    fn clone(&self) -> (r: Self)
        ensures
            equivalent(r, *self),
    {
        self.duplicate()
    }
}

fn duplicate_all(conditions: &Vec<PlayerStateCondition>) -> (r: Vec<PlayerStateCondition>)
    ensures
        r@.len() == conditions@.len(),
        forall|i: int| 0 <= i < r@.len() ==> equivalent(#[trigger] r@[i], conditions@[i]),
    decreases conditions,
{
    let mut result: Vec<PlayerStateCondition> = Vec::new();
    let mut i: usize = 0;
    while i < conditions.len()
        invariant
            i <= conditions@.len(),
            result@.len() == i,
            forall|j: int| 0 <= j < i ==> equivalent(#[trigger] result@[j], conditions@[j]),
        decreases conditions@.len() - i,
    {
        proof {
            assert(decreases_to!(*conditions => conditions[i as int]));
        }
        result.push(conditions[i].duplicate());
        i = i + 1;
    }
    result
}

proof fn lemma_equivalent_lists(a: Vec<PlayerStateCondition>, b: Vec<PlayerStateCondition>)
    requires
        a@.len() == b@.len(),
        forall|i: int| 0 <= i < a@.len() ==> equivalent(#[trigger] a@[i], b@[i]),
    ensures
        equivalent(PlayerStateCondition::All(a), PlayerStateCondition::All(b)),
        equivalent(PlayerStateCondition::Any(a), PlayerStateCondition::Any(b)),
{
    assert forall|value: u32| #[trigger] spec_check(PlayerStateCondition::All(a), value) == spec_check(PlayerStateCondition::All(b), value) by {
        lemma_lists(a@, value);
        lemma_lists(b@, value);
        assert forall|i: int| 0 <= i < a@.len() implies spec_check(a@[i], value) == spec_check(b@[i], value) by {
            assert(equivalent(a@[i], b@[i]));
        }
    }
    assert forall|value: u32| #[trigger] spec_check(PlayerStateCondition::Any(a), value) == spec_check(PlayerStateCondition::Any(b), value) by {
        lemma_lists(a@, value);
        lemma_lists(b@, value);
        assert forall|i: int| 0 <= i < a@.len() implies spec_check(a@[i], value) == spec_check(b@[i], value) by {
            assert(equivalent(a@[i], b@[i]));
        }
    }
}

/// Two conditions accept exactly the same state bits.
pub open spec fn equivalent(a: PlayerStateCondition, b: PlayerStateCondition) -> bool {
    forall|value: u32| #[trigger] spec_check(a, value) == spec_check(b, value)
}

/// An area counter over the state bits of each player present.
pub struct CountCollection<C>(pub C);

impl AreaCounter for CountCollection<Vec<u32>> {
    open spec fn spec_count_players(&self, filter: PlayerStateCondition) -> u32 {
        count_matching(self.0@, filter) as u32
    }

    fn count_players(&self, filter: &PlayerStateCondition) -> (r: u32) {
        let mut count: u64 = 0;
        let mut i: usize = 0;
        while i < self.0.len()
            invariant
                i <= self.0@.len(),
                count == count_matching(self.0@.take(i as int), *filter),
                count <= i,
            decreases self.0@.len() - i,
        {
            proof {
                assert(self.0@.take(i as int + 1).drop_last() == self.0@.take(i as int));
                lemma_count_matching_bound(self.0@.take(i as int), *filter);
            }
            if filter.check(self.0[i]) {
                count = count + 1;
            }
            i = i + 1;
        }
        proof {
            assert(self.0@.take(i as int) == self.0@);
        }
        count as u32
    }
}

/// `NoBits` is exactly the negation of `AnyBits`, and `NotHasBit` of `HasBit`.
pub proof fn lemma_negated_conditions(offset: u8, length: u8, bit: u8, value: u32)
    ensures
        spec_check(PlayerStateCondition::NoBits { offset, length }, value) == !spec_check(
            PlayerStateCondition::AnyBits { offset, length },
            value,
        ),
        spec_check(PlayerStateCondition::NotHasBit(bit), value) == !spec_check(PlayerStateCondition::HasBit(bit), value),
{
}

/// An empty `All` always holds; an empty `Any` never does.
pub proof fn lemma_empty_combinations(empty: Vec<PlayerStateCondition>, value: u32)
    requires
        empty@.len() == 0,
    ensures
        spec_check(PlayerStateCondition::All(empty), value),
        !spec_check(PlayerStateCondition::Any(empty), value),
{
}

/// A player meets `HasBit(b)` exactly when bit `b` of its state bits is
/// set; so a player whose bits are all clear meets no `HasBit`.
pub proof fn lemma_has_bit_reads_the_bit(bit: u8, value: u32)
    ensures
        spec_check(PlayerStateCondition::HasBit(bit), value) == (bit < 32 && (value >> bit) % 2 == 1),
        !spec_check(PlayerStateCondition::HasBit(bit), 0),
{
    if bit < 32 {
        let b = bit as u32;
        assert((value & (1u32 << b) != 0) == ((value >> b) % 2 == 1)) by (bit_vector)
            requires
                b < 32,
        ;
        assert((0u32 & (1u32 << b)) == 0) by (bit_vector);
    }
}

} // verus!
