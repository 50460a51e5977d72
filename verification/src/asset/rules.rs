//! How puzzle pieces compare values, which players they react to, and how a
//! value sent from one piece is changed on its way to another.

use vstd::prelude::*;
use crate::realm::{RealmSetting, RealmSettings, RealmTarget, setting_named};
use vstd::std_specs::convert::IntoSpec;

verus! {

/// How two numbers are compared.
#[derive(Copy, Clone, Debug, PartialEq, Eq)]
pub enum Comparator {
    NotEqual,
    Equal,
    LessThanOrEqual,
    LessThan,
    GreaterThanOrEqual,
    GreaterThan,
    Congruent(u32),
}

/// A value carried by an event between puzzle pieces.
#[derive(Clone, Debug, PartialEq)]
pub enum PieceValue<S> {
    Empty,
    Bool(bool),
    Num(u32),
    Realm(LinkOut<S>),
    BoolList(Vec<bool>),
    NumList(Vec<u32>),
    RealmList(Vec<LinkOut<S>>),
}

/// A piece value with its lists as sequences.
pub enum PieceValueView<S> {
    Empty,
    Bool(bool),
    Num(u32),
    Realm(LinkOut<S>),
    BoolList(Seq<bool>),
    NumList(Seq<u32>),
    RealmList(Seq<LinkOut<S>>),
}

impl<S> View for PieceValue<S> {
    type V = PieceValueView<S>;

    open spec fn view(&self) -> PieceValueView<S> {
        match self {
            PieceValue::Empty => PieceValueView::Empty,
            PieceValue::Bool(b) => PieceValueView::Bool(*b),
            PieceValue::Num(n) => PieceValueView::Num(*n),
            PieceValue::Realm(l) => PieceValueView::Realm(*l),
            PieceValue::BoolList(v) => PieceValueView::BoolList(v@),
            PieceValue::NumList(v) => PieceValueView::NumList(v@),
            PieceValue::RealmList(v) => PieceValueView::RealmList(v@),
        }
    }
}

/// Which players, by the mark they carry, a piece reacts to.
#[derive(Clone, Debug)]
pub enum PlayerMarkMatcher {
    Any,
    Unmarked,
    Marked(Vec<u8>, bool),
    HasBit(u8, bool),
    NotMarked(Vec<u8>, bool),
    HasNotBit(u8, bool),
}

/// How a value sent from one piece is changed before another receives it.
#[derive(Clone, Debug)]
pub enum PropagationValueMatcher<S> {
    Unchanged,
    EmptyToBool { output: bool },
    EmptyToNum { output: u32 },
    EmptyToBoolList { output: Vec<bool> },
    EmptyToNumList { output: Vec<u32> },
    EmptyToGlobalRealm { asset: S, owner: S, server: S },
    EmptyToOwnerRealm { asset: S },
    EmptyToSettingRealm { setting: S },
    EmptyToSpawnPoint { name: S },
    EmptyToTrainNext,
    EmptyToHome,
    BoolInvert,
    BoolEmpty { input: bool },
    BoolToNum { input: bool, output: u32 },
    BoolToNumList { input: bool, output: Vec<u32> },
    BoolToBoolList { input: bool, output: Vec<bool> },
    NumToEmpty { input: u32, comparison: Comparator },
    NumToBool { input: u32, comparison: Comparator },
    NumToBoolList { bits: u32, low_to_high: bool },
    AnyToEmpty,
}

/// How a change in one piece of a puzzle changes another: when `sender`
/// raises `trigger`, `recipient` is sent `causes` with the value changed by
/// `propagation_match`. `E` and `C` are the puzzle's event and command
/// kinds.
#[derive(Clone, Debug)]
pub struct PropagationRule<I, S, E, C> {
    pub sender: I,
    pub trigger: E,
    pub recipient: I,
    pub causes: C,
    pub propagation_match: PropagationValueMatcher<S>,
}

/// A realm or spawn point a player should be sent to.
#[derive(Clone, Debug, PartialEq, Eq)]
pub enum LinkOut<S> {
    Realm(RealmTarget<S>),
    Spawn(S),
    TrainNext,
}

impl Comparator {
    /// Whether `source` stands in this relation to `reference`; congruence
    /// is modulo its divisor.
    pub open spec fn spec_compare(self, source: u32, reference: u32) -> bool {
        match self {
            Comparator::NotEqual => source != reference,
            Comparator::Equal => source == reference,
            Comparator::LessThanOrEqual => source <= reference,
            Comparator::LessThan => source < reference,
            Comparator::GreaterThanOrEqual => source >= reference,
            Comparator::GreaterThan => source > reference,
            Comparator::Congruent(by) => source % by == reference % by,
        }
    }

    /// Compares two numbers; a congruence needs a non-zero divisor.
    pub fn compare(&self, source: u32, reference: u32) -> (r: bool)
        requires
            self matches Comparator::Congruent(by) ==> by != 0,
        ensures
            r == self.spec_compare(source, reference),
    {
        match self {
            Comparator::NotEqual => source != reference,
            Comparator::Equal => source == reference,
            Comparator::LessThanOrEqual => source <= reference,
            Comparator::LessThan => source < reference,
            Comparator::GreaterThanOrEqual => source >= reference,
            Comparator::GreaterThan => source > reference,
            Comparator::Congruent(by) => source % *by == reference % *by,
        }
    }
}

/// Each comparator and its opposite disagree, and swapping the operands
/// turns a comparison into its mirror.
pub proof fn lemma_comparator_duals(source: u32, reference: u32, by: u32)
    ensures
        Comparator::NotEqual.spec_compare(source, reference) == !Comparator::Equal.spec_compare(source, reference),
        Comparator::LessThan.spec_compare(source, reference) == !Comparator::GreaterThanOrEqual.spec_compare(source, reference),
        Comparator::LessThanOrEqual.spec_compare(source, reference) == !Comparator::GreaterThan.spec_compare(source, reference),
        Comparator::LessThan.spec_compare(source, reference) == Comparator::GreaterThan.spec_compare(reference, source),
        Comparator::LessThanOrEqual.spec_compare(source, reference) == Comparator::GreaterThanOrEqual.spec_compare(reference, source),
        Comparator::Congruent(by).spec_compare(source, reference) == Comparator::Congruent(by).spec_compare(reference, source),
        by != 0 ==> Comparator::Congruent(by).spec_compare(source, source),
{
}

/// Whether any item of `items` is `x`.
pub open spec fn any_is(items: Seq<u8>, x: u8) -> bool {
    exists|i: int| 0 <= i < items.len() && items[i] == x
}

/// Whether bit `bit` of `state` is set; `None` when there is no such bit.
pub open spec fn bit_set(state: u8, bit: u8) -> Option<bool> {
    if bit < 8 {
        Some((1u8 << bit) & state != 0)
    } else {
        None
    }
}

impl PlayerMarkMatcher {
    /// Whether a player with mark `state` (`None` when unmarked) matches.
    pub open spec fn spec_matches(self, state: Option<u8>) -> bool {
        match self {
            PlayerMarkMatcher::Any => true,
            PlayerMarkMatcher::Unmarked => state is None,
            PlayerMarkMatcher::Marked(allowed, when_unmarked) => match state {
                None => when_unmarked,
                Some(s) => any_is(allowed@, s),
            },
            PlayerMarkMatcher::NotMarked(disallowed, when_unmarked) => match state {
                None => when_unmarked,
                Some(s) => !any_is(disallowed@, s),
            },
            PlayerMarkMatcher::HasBit(bit, when_unmarked) => match state {
                None => when_unmarked,
                Some(s) => match bit_set(s, bit) {
                    Some(set) => set,
                    None => when_unmarked,
                },
            },
            PlayerMarkMatcher::HasNotBit(bit, when_unmarked) => match state {
                None => when_unmarked,
                Some(s) => match bit_set(s, bit) {
                    Some(set) => !set,
                    None => when_unmarked,
                },
            },
        }
    }

    /// Whether a player with mark `state` (`None` when unmarked) matches.
    pub fn matches(&self, state: Option<u8>) -> (r: bool)
        ensures
            r == self.spec_matches(state),
    {
        match self {
            PlayerMarkMatcher::Any => true,
            PlayerMarkMatcher::Unmarked => state.is_none(),
            PlayerMarkMatcher::Marked(allowed, when_unmarked) => match state {
                None => *when_unmarked,
                Some(s) => contains_mark(allowed, s),
            },
            PlayerMarkMatcher::NotMarked(disallowed, when_unmarked) => match state {
                None => *when_unmarked,
                Some(s) => !contains_mark(disallowed, s),
            },
            PlayerMarkMatcher::HasBit(bit, when_unmarked) => match state {
                None => *when_unmarked,
                Some(s) => {
                    if *bit < 8 {
                        (1u8 << *bit) & s != 0
                    } else {
                        *when_unmarked
                    }
                },
            },
            PlayerMarkMatcher::HasNotBit(bit, when_unmarked) => match state {
                None => *when_unmarked,
                Some(s) => {
                    if *bit < 8 {
                        (1u8 << *bit) & s == 0
                    } else {
                        *when_unmarked
                    }
                },
            },
        }
    }
}

/// Whether `marks` holds `mark`.
fn contains_mark(marks: &Vec<u8>, mark: u8) -> (r: bool)
    ensures
        r == any_is(marks@, mark),
{
    let mut i: usize = 0;
    while i < marks.len()
        invariant
            i <= marks@.len(),
            forall|j: int| 0 <= j < i ==> marks@[j] != mark,
        decreases marks@.len() - i,
    {
        if marks[i] == mark {
            return true;
        }
        i = i + 1;
    }
    false
}

/// Excluding marks is the negation of allowing them with the opposite
/// answer for unmarked players, and likewise for a bit that must be clear.
pub proof fn lemma_negated_matchers(marks: Vec<u8>, bit: u8, when_unmarked: bool, state: Option<u8>)
    ensures
        PlayerMarkMatcher::NotMarked(marks, when_unmarked).spec_matches(state) == !PlayerMarkMatcher::Marked(
            marks,
            !when_unmarked,
        ).spec_matches(state),
        PlayerMarkMatcher::HasNotBit(bit, when_unmarked).spec_matches(state) == !PlayerMarkMatcher::HasBit(
            bit,
            !when_unmarked,
        ).spec_matches(state),
{
}

/// The list `NumToBoolList` produces from `input`: entry `k` tells whether
/// `input & (1 << i) == 1` for the bit `i` it stands for, bits counted from
/// the low end or from the high end.
pub open spec fn bool_list_of(input: u32, bits: u32, low_to_high: bool) -> Seq<bool> {
    Seq::new(
        bits as nat,
        |k: int|
            {
                let i = if low_to_high { k } else { bits - 1 - k };
                input & (1u32 << (i as u32)) == 1
            },
    )
}

/// Only the lowest bit can ever compare equal to one, so the list is all
/// `false` but for the lowest bit's entry, which is whether `input` is odd.
pub proof fn lemma_bool_list_lowest_bit(input: u32, i: u32)
    requires
        i < 32,
    ensures
        (input & (1u32 << i) == 1) == (i == 0 && input % 2 == 1),
{
    assert((input & (1u32 << i) == 1) == (i == 0 && input % 2 == 1)) by (bit_vector)
        requires
            i < 32,
    ;
}

impl PropagationValueMatcher<String> {
    /// The value a piece receives when `input` is sent through this rule in a
    /// realm owned by `realm_owner` with `settings`; `None` when the rule
    /// does not pass the value on.
    pub open spec fn spec_apply(self, realm_owner: String, input: PieceValueView<String>, settings: Seq<
        (String, RealmSetting<String>),
    >) -> Option<PieceValueView<String>> {
        match self {
            PropagationValueMatcher::Unchanged => Some(input),
            PropagationValueMatcher::EmptyToBool { output } => if input is Empty {
                Some(PieceValueView::Bool(output))
            } else {
                None
            },
            PropagationValueMatcher::EmptyToNum { output } => if input is Empty {
                Some(PieceValueView::Num(output))
            } else {
                None
            },
            PropagationValueMatcher::EmptyToBoolList { output } => if input is Empty {
                Some(PieceValueView::BoolList(output@))
            } else {
                None
            },
            PropagationValueMatcher::EmptyToNumList { output } => if input is Empty {
                Some(PieceValueView::NumList(output@))
            } else {
                None
            },
            PropagationValueMatcher::EmptyToGlobalRealm { asset, owner, server } => if input is Empty {
                Some(PieceValueView::Realm(LinkOut::Realm(RealmTarget::RemoteRealm { asset, owner, server })))
            } else {
                None
            },
            PropagationValueMatcher::EmptyToOwnerRealm { asset } => if input is Empty {
                Some(PieceValueView::Realm(LinkOut::Realm(RealmTarget::LocalRealm { asset, owner: realm_owner })))
            } else {
                None
            },
            PropagationValueMatcher::EmptyToSettingRealm { setting } => if input is Empty {
                match setting_named(settings, setting@) {
                    Some(RealmSetting::Realm(realm)) => Some(PieceValueView::Realm(LinkOut::Realm(realm))),
                    _ => None,
                }
            } else {
                None
            },
            PropagationValueMatcher::EmptyToSpawnPoint { name } => if input is Empty {
                Some(PieceValueView::Realm(LinkOut::Spawn(name)))
            } else {
                None
            },
            PropagationValueMatcher::EmptyToTrainNext => if input is Empty {
                Some(PieceValueView::Realm(LinkOut::TrainNext))
            } else {
                None
            },
            PropagationValueMatcher::EmptyToHome => if input is Empty {
                Some(PieceValueView::Realm(LinkOut::Realm(RealmTarget::Home)))
            } else {
                None
            },
            PropagationValueMatcher::BoolInvert => match input {
                PieceValueView::Bool(b) => Some(PieceValueView::Bool(!b)),
                _ => None,
            },
            PropagationValueMatcher::BoolEmpty { input: reference } => match input {
                PieceValueView::Bool(b) => if b == reference {
                    Some(PieceValueView::Empty)
                } else {
                    None
                },
                _ => None,
            },
            PropagationValueMatcher::BoolToNum { input: reference, output } => match input {
                PieceValueView::Bool(b) => if b == reference {
                    Some(PieceValueView::Num(output))
                } else {
                    None
                },
                _ => None,
            },
            PropagationValueMatcher::BoolToNumList { input: reference, output } => match input {
                PieceValueView::Bool(b) => if b == reference {
                    Some(PieceValueView::NumList(output@))
                } else {
                    None
                },
                _ => None,
            },
            PropagationValueMatcher::BoolToBoolList { input: reference, output } => match input {
                PieceValueView::Bool(b) => if b == reference {
                    Some(PieceValueView::BoolList(output@))
                } else {
                    None
                },
                _ => None,
            },
            PropagationValueMatcher::NumToEmpty { input: reference, comparison } => match input {
                PieceValueView::Num(n) => if comparison.spec_compare(n, reference) {
                    Some(PieceValueView::Empty)
                } else {
                    None
                },
                _ => None,
            },
            PropagationValueMatcher::NumToBool { input: reference, comparison } => match input {
                PieceValueView::Num(n) => Some(PieceValueView::Bool(comparison.spec_compare(n, reference))),
                _ => None,
            },
            PropagationValueMatcher::NumToBoolList { bits, low_to_high } => match input {
                PieceValueView::Num(n) => Some(PieceValueView::BoolList(bool_list_of(n, bits, low_to_high))),
                _ => None,
            },
            PropagationValueMatcher::AnyToEmpty => Some(PieceValueView::Empty),
        }
    }

    /// The inputs on which this rule can be applied without a panic: a
    /// congruence needs a non-zero divisor, and a list of bits holds at most
    /// 32 entries.
    pub open spec fn applicable(self, input: PieceValueView<String>) -> bool {
        match self {
            PropagationValueMatcher::NumToEmpty { comparison, .. } => input is Num ==> !(comparison matches Comparator::Congruent(
                0,
            )),
            PropagationValueMatcher::NumToBool { comparison, .. } => input is Num ==> !(comparison matches Comparator::Congruent(
                0,
            )),
            PropagationValueMatcher::NumToBoolList { bits, .. } => input is Num ==> bits <= 32,
            _ => true,
        }
    }

    /// Applies this rule to `input`: the value a piece receives, or `None`
    /// when the rule does not pass the value on.
    pub fn apply(&self, realm_owner: &String, input: &PieceValue<String>, settings: &RealmSettings<String>) -> (r: Option<
        PieceValue<String>,
    >)
        requires
            self.applicable(input@),
        ensures
            match r {
                Some(v) => self.spec_apply(*realm_owner, input@, settings.entries@) == Some(v@),
                None => self.spec_apply(*realm_owner, input@, settings.entries@) is None,
            },
    {
        match self {
            PropagationValueMatcher::Unchanged => Some(input.duplicate()),
            PropagationValueMatcher::EmptyToBool { output } => match input {
                PieceValue::Empty => Some(PieceValue::Bool(*output)),
                _ => None,
            },
            PropagationValueMatcher::EmptyToNum { output } => match input {
                PieceValue::Empty => Some(PieceValue::Num(*output)),
                _ => None,
            },
            PropagationValueMatcher::EmptyToBoolList { output } => match input {
                PieceValue::Empty => Some(PieceValue::BoolList(output.clone())),
                _ => None,
            },
            PropagationValueMatcher::EmptyToNumList { output } => match input {
                PieceValue::Empty => Some(PieceValue::NumList(output.clone())),
                _ => None,
            },
            PropagationValueMatcher::EmptyToGlobalRealm { asset, owner, server } => match input {
                PieceValue::Empty => Some(
                    PieceValue::Realm(
                        LinkOut::Realm(RealmTarget::RemoteRealm { asset: asset.clone(), owner: owner.clone(), server: server.clone() }),
                    ),
                ),
                _ => None,
            },
            PropagationValueMatcher::EmptyToOwnerRealm { asset } => match input {
                PieceValue::Empty => Some(
                    PieceValue::Realm(LinkOut::Realm(RealmTarget::LocalRealm { asset: asset.clone(), owner: realm_owner.clone() })),
                ),
                _ => None,
            },
            PropagationValueMatcher::EmptyToSettingRealm { setting } => match input {
                PieceValue::Empty => match settings.get(setting) {
                    Some(RealmSetting::Realm(realm)) => Some(PieceValue::Realm(LinkOut::Realm(realm.duplicate()))),
                    _ => None,
                },
                _ => None,
            },
            PropagationValueMatcher::EmptyToSpawnPoint { name } => match input {
                PieceValue::Empty => Some(PieceValue::Realm(LinkOut::Spawn(name.clone()))),
                _ => None,
            },
            PropagationValueMatcher::EmptyToTrainNext => match input {
                PieceValue::Empty => Some(PieceValue::Realm(LinkOut::TrainNext)),
                _ => None,
            },
            PropagationValueMatcher::EmptyToHome => match input {
                PieceValue::Empty => Some(PieceValue::Realm(LinkOut::Realm(RealmTarget::Home))),
                _ => None,
            },
            PropagationValueMatcher::BoolInvert => match input {
                PieceValue::Bool(b) => Some(PieceValue::Bool(!*b)),
                _ => None,
            },
            PropagationValueMatcher::BoolEmpty { input: reference } => match input {
                PieceValue::Bool(b) => {
                    if *b == *reference {
                        Some(PieceValue::Empty)
                    } else {
                        None
                    }
                },
                _ => None,
            },
            PropagationValueMatcher::BoolToNum { input: reference, output } => match input {
                PieceValue::Bool(b) => {
                    if *b == *reference {
                        Some(PieceValue::Num(*output))
                    } else {
                        None
                    }
                },
                _ => None,
            },
            PropagationValueMatcher::BoolToNumList { input: reference, output } => match input {
                PieceValue::Bool(b) => {
                    if *b == *reference {
                        Some(PieceValue::NumList(output.clone()))
                    } else {
                        None
                    }
                },
                _ => None,
            },
            PropagationValueMatcher::BoolToBoolList { input: reference, output } => match input {
                PieceValue::Bool(b) => {
                    if *b == *reference {
                        Some(PieceValue::BoolList(output.clone()))
                    } else {
                        None
                    }
                },
                _ => None,
            },
            PropagationValueMatcher::NumToEmpty { input: reference, comparison } => match input {
                PieceValue::Num(n) => {
                    if comparison.compare(*n, *reference) {
                        Some(PieceValue::Empty)
                    } else {
                        None
                    }
                },
                _ => None,
            },
            PropagationValueMatcher::NumToBool { input: reference, comparison } => match input {
                PieceValue::Num(n) => Some(PieceValue::Bool(comparison.compare(*n, *reference))),
                _ => None,
            },
            PropagationValueMatcher::NumToBoolList { bits, low_to_high } => match input {
                PieceValue::Num(n) => Some(PieceValue::BoolList(bits_of(*n, *bits, *low_to_high))),
                _ => None,
            },
            PropagationValueMatcher::AnyToEmpty => Some(PieceValue::Empty),
        }
    }
}

/// The list `NumToBoolList` produces from `input`.
fn bits_of(input: u32, bits: u32, low_to_high: bool) -> (r: Vec<bool>)
    requires
        bits <= 32,
    ensures
        r@ == bool_list_of(input, bits, low_to_high),
{
    let mut list: Vec<bool> = Vec::new();
    let mut k: u32 = 0;
    while k < bits
        invariant
            k <= bits <= 32,
            list@ == bool_list_of(input, bits, low_to_high).take(k as int),
        decreases bits - k,
    {
        let i: u32 = if low_to_high {
            k
        } else {
            bits - 1 - k
        };
        list.push(input & (1u32 << i) == 1);
        proof {
            assert(list@ =~= bool_list_of(input, bits, low_to_high).take(k as int + 1));
        }
        k = k + 1;
    }
    proof {
        assert(list@ =~= bool_list_of(input, bits, low_to_high));
    }
    list
}

impl LinkOut<String> {
    /// A copy of this link.
    pub fn duplicate(&self) -> (r: Self)
        ensures
            r == *self,
    {
        match self {
            LinkOut::Realm(target) => LinkOut::Realm(target.duplicate()),
            LinkOut::Spawn(name) => LinkOut::Spawn(name.clone()),
            LinkOut::TrainNext => LinkOut::TrainNext,
        }
    }
}

impl PieceValue<String> {
    /// A copy of this value.
    pub fn duplicate(&self) -> (r: Self)
        ensures
            r@ == self@,
    {
        match self {
            PieceValue::Empty => PieceValue::Empty,
            PieceValue::Bool(b) => PieceValue::Bool(*b),
            PieceValue::Num(n) => PieceValue::Num(*n),
            PieceValue::Realm(l) => PieceValue::Realm(l.duplicate()),
            PieceValue::BoolList(v) => PieceValue::BoolList(v.clone()),
            PieceValue::NumList(v) => PieceValue::NumList(v.clone()),
            PieceValue::RealmList(v) => {
                let mut links: Vec<LinkOut<String>> = Vec::new();
                let mut i: usize = 0;
                while i < v.len()
                    invariant
                        i <= v@.len(),
                        links@ == v@.take(i as int),
                    decreases v@.len() - i,
                {
                    links.push(v[i].duplicate());
                    proof {
                        assert(links@ =~= v@.take(i as int + 1));
                    }
                    i = i + 1;
                }
                proof {
                    assert(links@ =~= v@);
                }
                PieceValue::RealmList(links)
            },
        }
    }
}

/// Inverting a boolean twice gives it back, and a rule that empties any
/// value always passes `Empty` on.
pub proof fn lemma_rules_round_trip(realm_owner: String, b: bool, input: PieceValueView<String>, settings: Seq<
    (String, RealmSetting<String>),
>)
    ensures
        PropagationValueMatcher::BoolInvert.spec_apply(realm_owner, PieceValueView::Bool(b), settings) matches Some(v)
            && PropagationValueMatcher::BoolInvert.spec_apply(realm_owner, v, settings) == Some(
            PieceValueView::<String>::Bool(b),
        ),
        PropagationValueMatcher::AnyToEmpty.spec_apply(realm_owner, input, settings) == Some(PieceValueView::<String>::Empty),
        PropagationValueMatcher::Unchanged.spec_apply(realm_owner, input, settings) == Some(input),
{
}

impl<S> PropagationValueMatcher<S> {
    /// This rule with each of its strings converted by `Into`.
    pub open spec fn spec_convert<T>(self) -> PropagationValueMatcher<T> where S: Into<T> {
        match self {
            PropagationValueMatcher::Unchanged => PropagationValueMatcher::Unchanged,
            PropagationValueMatcher::EmptyToBool { output } => PropagationValueMatcher::EmptyToBool { output },
            PropagationValueMatcher::EmptyToNum { output } => PropagationValueMatcher::EmptyToNum { output },
            PropagationValueMatcher::EmptyToBoolList { output } => PropagationValueMatcher::EmptyToBoolList { output },
            PropagationValueMatcher::EmptyToNumList { output } => PropagationValueMatcher::EmptyToNumList { output },
            PropagationValueMatcher::EmptyToGlobalRealm { asset, owner, server } => PropagationValueMatcher::EmptyToGlobalRealm {
                asset: asset.into_spec(),
                owner: owner.into_spec(),
                server: server.into_spec(),
            },
            PropagationValueMatcher::EmptyToOwnerRealm { asset } => PropagationValueMatcher::EmptyToOwnerRealm { asset: asset.into_spec() },
            PropagationValueMatcher::EmptyToSettingRealm { setting } => PropagationValueMatcher::EmptyToSettingRealm {
                setting: setting.into_spec(),
            },
            PropagationValueMatcher::EmptyToSpawnPoint { name } => PropagationValueMatcher::EmptyToSpawnPoint { name: name.into_spec() },
            PropagationValueMatcher::EmptyToTrainNext => PropagationValueMatcher::EmptyToTrainNext,
            PropagationValueMatcher::EmptyToHome => PropagationValueMatcher::EmptyToHome,
            PropagationValueMatcher::BoolInvert => PropagationValueMatcher::BoolInvert,
            PropagationValueMatcher::BoolEmpty { input } => PropagationValueMatcher::BoolEmpty { input },
            PropagationValueMatcher::BoolToNum { input, output } => PropagationValueMatcher::BoolToNum { input, output },
            PropagationValueMatcher::BoolToNumList { input, output } => PropagationValueMatcher::BoolToNumList { input, output },
            PropagationValueMatcher::BoolToBoolList { input, output } => PropagationValueMatcher::BoolToBoolList { input, output },
            PropagationValueMatcher::NumToEmpty { input, comparison } => PropagationValueMatcher::NumToEmpty { input, comparison },
            PropagationValueMatcher::NumToBool { input, comparison } => PropagationValueMatcher::NumToBool { input, comparison },
            PropagationValueMatcher::NumToBoolList { bits, low_to_high } => PropagationValueMatcher::NumToBoolList { bits, low_to_high },
            PropagationValueMatcher::AnyToEmpty => PropagationValueMatcher::AnyToEmpty,
        }
    }

    /// The same rule over another string type: every string converted with
    /// `Into`, everything else kept. Exact where the conversion follows its
    /// specification.
    pub fn convert_str<T>(self) -> (r: PropagationValueMatcher<T>) where S: Into<T>
        ensures
            S::obeys_into_spec() ==> r == self.spec_convert::<T>(),
    {
        match self {
            PropagationValueMatcher::Unchanged => PropagationValueMatcher::Unchanged,
            PropagationValueMatcher::EmptyToBool { output } => PropagationValueMatcher::EmptyToBool { output },
            PropagationValueMatcher::EmptyToNum { output } => PropagationValueMatcher::EmptyToNum { output },
            PropagationValueMatcher::EmptyToBoolList { output } => PropagationValueMatcher::EmptyToBoolList { output },
            PropagationValueMatcher::EmptyToNumList { output } => PropagationValueMatcher::EmptyToNumList { output },
            PropagationValueMatcher::EmptyToGlobalRealm { asset, owner, server } => PropagationValueMatcher::EmptyToGlobalRealm {
                asset: asset.into(),
                owner: owner.into(),
                server: server.into(),
            },
            PropagationValueMatcher::EmptyToOwnerRealm { asset } => PropagationValueMatcher::EmptyToOwnerRealm { asset: asset.into() },
            PropagationValueMatcher::EmptyToSettingRealm { setting } => PropagationValueMatcher::EmptyToSettingRealm {
                setting: setting.into(),
            },
            PropagationValueMatcher::EmptyToSpawnPoint { name } => PropagationValueMatcher::EmptyToSpawnPoint { name: name.into() },
            PropagationValueMatcher::EmptyToTrainNext => PropagationValueMatcher::EmptyToTrainNext,
            PropagationValueMatcher::EmptyToHome => PropagationValueMatcher::EmptyToHome,
            PropagationValueMatcher::BoolInvert => PropagationValueMatcher::BoolInvert,
            PropagationValueMatcher::BoolEmpty { input } => PropagationValueMatcher::BoolEmpty { input },
            PropagationValueMatcher::BoolToNum { input, output } => PropagationValueMatcher::BoolToNum { input, output },
            PropagationValueMatcher::BoolToNumList { input, output } => PropagationValueMatcher::BoolToNumList { input, output },
            PropagationValueMatcher::BoolToBoolList { input, output } => PropagationValueMatcher::BoolToBoolList { input, output },
            PropagationValueMatcher::NumToEmpty { input, comparison } => PropagationValueMatcher::NumToEmpty { input, comparison },
            PropagationValueMatcher::NumToBool { input, comparison } => PropagationValueMatcher::NumToBool { input, comparison },
            PropagationValueMatcher::NumToBoolList { bits, low_to_high } => PropagationValueMatcher::NumToBoolList { bits, low_to_high },
            PropagationValueMatcher::AnyToEmpty => PropagationValueMatcher::AnyToEmpty,
        }
    }
}

/// A number sent through `NumToBool` becomes whether it stands in the rule's
/// comparison to the rule's number, the incoming number on the left: below
/// it for `LessThan`, above it for `GreaterThan`, and so on. It is `true`
/// exactly when `NumToEmpty` with the same number and comparison passes the
/// value on.
pub proof fn lemma_num_to_bool_compares_incoming(
    reference: u32,
    comparison: Comparator,
    n: u32,
    realm_owner: String,
    settings: Seq<(String, RealmSetting<String>)>,
)
    ensures
        ({
            let to_bool = PropagationValueMatcher::NumToBool { input: reference, comparison }.spec_apply(
                realm_owner,
                PieceValueView::Num(n),
                settings,
            );
            let to_empty = PropagationValueMatcher::NumToEmpty { input: reference, comparison }.spec_apply(
                realm_owner,
                PieceValueView::Num(n),
                settings,
            );
            &&& to_bool == Some(PieceValueView::<String>::Bool(to_empty is Some))
            &&& comparison is LessThan ==> to_bool == Some(PieceValueView::<String>::Bool(n < reference))
            &&& comparison is LessThanOrEqual ==> to_bool == Some(PieceValueView::<String>::Bool(n <= reference))
            &&& comparison is GreaterThan ==> to_bool == Some(PieceValueView::<String>::Bool(n > reference))
            &&& comparison is GreaterThanOrEqual ==> to_bool == Some(PieceValueView::<String>::Bool(n >= reference))
            &&& comparison is Equal ==> to_bool == Some(PieceValueView::<String>::Bool(n == reference))
            &&& comparison is NotEqual ==> to_bool == Some(PieceValueView::<String>::Bool(n != reference))
            &&& to_empty is Some ==> to_empty == Some(PieceValueView::<String>::Empty)
        }),
{
}

/// Rules on a boolean: `BoolInvert` gives its opposite, so inverting twice
/// gives it back; `BoolEmpty` and `BoolToNum` pass on something exactly
/// when it is the rule's value; `Unchanged` passes it as it is, and
/// `AnyToEmpty` always passes an empty value.
pub proof fn lemma_bool_rules(
    b: bool,
    reference: bool,
    output: u32,
    realm_owner: String,
    settings: Seq<(String, RealmSetting<String>)>,
)
    ensures
        PropagationValueMatcher::BoolInvert.spec_apply(realm_owner, PieceValueView::Bool(b), settings) == Some(
            PieceValueView::<String>::Bool(!b),
        ),
        PropagationValueMatcher::BoolInvert.spec_apply(
            realm_owner,
            PropagationValueMatcher::BoolInvert.spec_apply(realm_owner, PieceValueView::Bool(b), settings)->0,
            settings,
        ) == Some(PieceValueView::<String>::Bool(b)),
        (PropagationValueMatcher::BoolEmpty { input: reference }).spec_apply(realm_owner, PieceValueView::Bool(b), settings).is_some()
            == (b == reference),
        (PropagationValueMatcher::BoolToNum { input: reference, output }).spec_apply(realm_owner, PieceValueView::Bool(b), settings)
            == (if b == reference {
            Some(PieceValueView::<String>::Num(output))
        } else {
            None
        }),
        PropagationValueMatcher::Unchanged.spec_apply(realm_owner, PieceValueView::Bool(b), settings) == Some(
            PieceValueView::<String>::Bool(b),
        ),
        PropagationValueMatcher::AnyToEmpty.spec_apply(realm_owner, PieceValueView::Bool(b), settings) == Some(
            PieceValueView::<String>::Empty,
        ),
{
}

/// For a marked player, `Marked` and `NotMarked` with the same list
/// disagree, as do `HasBit` and `HasNotBit` with the same bit below 8;
/// `HasBit` reads that bit of the mark, and `Marked` holds exactly when the
/// mark is in the list. Unmarked players get the matcher's fallback.
pub proof fn lemma_mark_matchers(marks: Vec<u8>, bit: u8, mark: u8, fallback: bool)
    ensures
        PlayerMarkMatcher::Marked(marks, fallback).spec_matches(Some(mark)) == (exists|i: int|
            0 <= i < marks@.len() && marks@[i] == mark),
        PlayerMarkMatcher::NotMarked(marks, fallback).spec_matches(Some(mark)) == !PlayerMarkMatcher::Marked(
            marks,
            fallback,
        ).spec_matches(Some(mark)),
        bit < 8 ==> PlayerMarkMatcher::HasBit(bit, fallback).spec_matches(Some(mark)) == ((mark >> bit) % 2 == 1),
        bit < 8 ==> PlayerMarkMatcher::HasNotBit(bit, fallback).spec_matches(Some(mark)) == !PlayerMarkMatcher::HasBit(
            bit,
            fallback,
        ).spec_matches(Some(mark)),
        PlayerMarkMatcher::Marked(marks, fallback).spec_matches(None) == fallback,
        PlayerMarkMatcher::HasBit(bit, fallback).spec_matches(None) == fallback,
        PlayerMarkMatcher::Unmarked.spec_matches(None) && !PlayerMarkMatcher::Unmarked.spec_matches(Some(mark)),
{
    if bit < 8 {
        assert(((1u8 << bit) & mark != 0) == ((mark >> bit) % 2 == 1)) by (bit_vector)
            requires
                bit < 8,
        ;
    }
}

} // verus!
