use spadina::asset::rules::{Comparator, LinkOut, PieceValue, PropagationValueMatcher};
use spadina::realm::{RealmSetting, RealmSettings, RealmTarget};

fn no_settings() -> RealmSettings<String> {
    RealmSettings { entries: vec![] }
}

fn owner() -> String {
    "owner".to_string()
}

#[test]
fn unchanged_passes_the_value_on() {
    let input = PieceValue::RealmList(vec![LinkOut::Spawn("a".to_string()), LinkOut::TrainNext]);
    assert_eq!(PropagationValueMatcher::Unchanged.apply(&owner(), &input, &no_settings()), Some(input.clone()));
}

#[test]
fn empty_inputs_become_values() {
    let empty: PieceValue<String> = PieceValue::Empty;
    assert_eq!(PropagationValueMatcher::<String>::EmptyToBool { output: true }.apply(&owner(), &empty, &no_settings()), Some(PieceValue::Bool(true)));
    assert_eq!(PropagationValueMatcher::<String>::EmptyToNum { output: 7 }.apply(&owner(), &empty, &no_settings()), Some(PieceValue::Num(7)));
    assert_eq!(
        PropagationValueMatcher::<String>::EmptyToNumList { output: vec![1, 2] }.apply(&owner(), &empty, &no_settings()),
        Some(PieceValue::NumList(vec![1, 2]))
    );
    assert_eq!(
        PropagationValueMatcher::<String>::EmptyToBoolList { output: vec![true] }.apply(&owner(), &empty, &no_settings()),
        Some(PieceValue::BoolList(vec![true]))
    );
    assert_eq!(
        PropagationValueMatcher::<String>::EmptyToHome.apply(&owner(), &empty, &no_settings()),
        Some(PieceValue::Realm(LinkOut::Realm(RealmTarget::Home)))
    );
    assert_eq!(
        PropagationValueMatcher::<String>::EmptyToTrainNext.apply(&owner(), &empty, &no_settings()),
        Some(PieceValue::Realm(LinkOut::TrainNext))
    );
    assert_eq!(
        PropagationValueMatcher::EmptyToSpawnPoint { name: "door".to_string() }.apply(&owner(), &empty, &no_settings()),
        Some(PieceValue::Realm(LinkOut::Spawn("door".to_string())))
    );
}

#[test]
fn empty_rules_reject_other_inputs() {
    assert_eq!(PropagationValueMatcher::<String>::EmptyToBool { output: true }.apply(&owner(), &PieceValue::Num(1), &no_settings()), None);
    assert_eq!(PropagationValueMatcher::<String>::EmptyToHome.apply(&owner(), &PieceValue::Bool(false), &no_settings()), None);
}

#[test]
fn realm_links_name_their_realms() {
    let empty: PieceValue<String> = PieceValue::Empty;
    assert_eq!(
        PropagationValueMatcher::EmptyToGlobalRealm { asset: "a".to_string(), owner: "o".to_string(), server: "s".to_string() }
            .apply(&owner(), &empty, &no_settings()),
        Some(PieceValue::Realm(LinkOut::Realm(RealmTarget::RemoteRealm {
            asset: "a".to_string(),
            owner: "o".to_string(),
            server: "s".to_string()
        })))
    );
    assert_eq!(
        PropagationValueMatcher::EmptyToOwnerRealm { asset: "a".to_string() }.apply(&owner(), &empty, &no_settings()),
        Some(PieceValue::Realm(LinkOut::Realm(RealmTarget::LocalRealm { asset: "a".to_string(), owner: "owner".to_string() })))
    );
}

#[test]
fn setting_realms_come_from_the_settings() {
    let settings = RealmSettings {
        entries: vec![
            ("flag".to_string(), RealmSetting::Bool(true)),
            ("exit".to_string(), RealmSetting::Realm(RealmTarget::LocalRealm { asset: "x".to_string(), owner: "y".to_string() })),
        ],
    };
    let empty: PieceValue<String> = PieceValue::Empty;
    assert_eq!(
        PropagationValueMatcher::EmptyToSettingRealm { setting: "exit".to_string() }.apply(&owner(), &empty, &settings),
        Some(PieceValue::Realm(LinkOut::Realm(RealmTarget::LocalRealm { asset: "x".to_string(), owner: "y".to_string() })))
    );
    assert_eq!(PropagationValueMatcher::EmptyToSettingRealm { setting: "flag".to_string() }.apply(&owner(), &empty, &settings), None);
    assert_eq!(PropagationValueMatcher::EmptyToSettingRealm { setting: "none".to_string() }.apply(&owner(), &empty, &settings), None);
}

#[test]
fn boolean_rules() {
    assert_eq!(PropagationValueMatcher::<String>::BoolInvert.apply(&owner(), &PieceValue::Bool(true), &no_settings()), Some(PieceValue::Bool(false)));
    assert_eq!(PropagationValueMatcher::<String>::BoolEmpty { input: true }.apply(&owner(), &PieceValue::Bool(true), &no_settings()), Some(PieceValue::Empty));
    assert_eq!(PropagationValueMatcher::<String>::BoolEmpty { input: true }.apply(&owner(), &PieceValue::Bool(false), &no_settings()), None);
    assert_eq!(
        PropagationValueMatcher::<String>::BoolToNum { input: false, output: 9 }.apply(&owner(), &PieceValue::Bool(false), &no_settings()),
        Some(PieceValue::Num(9))
    );
    assert_eq!(
        PropagationValueMatcher::<String>::BoolToNumList { input: true, output: vec![3] }.apply(&owner(), &PieceValue::Bool(true), &no_settings()),
        Some(PieceValue::NumList(vec![3]))
    );
    assert_eq!(
        PropagationValueMatcher::<String>::BoolToBoolList { input: true, output: vec![false] }.apply(&owner(), &PieceValue::Bool(false), &no_settings()),
        None
    );
}

#[test]
fn inverting_twice_gives_the_value_back() {
    for b in [false, true] {
        let once = PropagationValueMatcher::<String>::BoolInvert.apply(&owner(), &PieceValue::Bool(b), &no_settings()).unwrap();
        let twice = PropagationValueMatcher::<String>::BoolInvert.apply(&owner(), &once, &no_settings()).unwrap();
        assert_eq!(twice, PieceValue::Bool(b));
    }
}

#[test]
fn number_rules_compare() {
    assert_eq!(
        PropagationValueMatcher::<String>::NumToEmpty { input: 3, comparison: Comparator::LessThan }.apply(&owner(), &PieceValue::Num(2), &no_settings()),
        Some(PieceValue::Empty)
    );
    assert_eq!(
        PropagationValueMatcher::<String>::NumToEmpty { input: 3, comparison: Comparator::LessThan }.apply(&owner(), &PieceValue::Num(4), &no_settings()),
        None
    );
    assert_eq!(
        PropagationValueMatcher::<String>::NumToBool { input: 4, comparison: Comparator::Congruent(3) }.apply(&owner(), &PieceValue::Num(7), &no_settings()),
        Some(PieceValue::Bool(true))
    );
}

#[test]
fn bool_lists_only_report_the_lowest_bit() {
    assert_eq!(
        PropagationValueMatcher::<String>::NumToBoolList { bits: 3, low_to_high: true }.apply(&owner(), &PieceValue::Num(7), &no_settings()),
        Some(PieceValue::BoolList(vec![true, false, false]))
    );
    assert_eq!(
        PropagationValueMatcher::<String>::NumToBoolList { bits: 3, low_to_high: false }.apply(&owner(), &PieceValue::Num(7), &no_settings()),
        Some(PieceValue::BoolList(vec![false, false, true]))
    );
    assert_eq!(
        PropagationValueMatcher::<String>::NumToBoolList { bits: 4, low_to_high: true }.apply(&owner(), &PieceValue::Num(6), &no_settings()),
        Some(PieceValue::BoolList(vec![false, false, false, false]))
    );
    assert_eq!(
        PropagationValueMatcher::<String>::NumToBoolList { bits: 0, low_to_high: true }.apply(&owner(), &PieceValue::Num(1), &no_settings()),
        Some(PieceValue::BoolList(vec![]))
    );
}

#[test]
fn any_value_can_be_emptied() {
    assert_eq!(PropagationValueMatcher::<String>::AnyToEmpty.apply(&owner(), &PieceValue::Num(1), &no_settings()), Some(PieceValue::Empty));
    assert_eq!(PropagationValueMatcher::<String>::AnyToEmpty.apply(&owner(), &PieceValue::Empty, &no_settings()), Some(PieceValue::Empty));
}

#[test]
fn converting_strings_keeps_the_rule() {
    let rule: PropagationValueMatcher<&str> = PropagationValueMatcher::EmptyToGlobalRealm { asset: "a", owner: "b", server: "c" };
    let converted: PropagationValueMatcher<String> = rule.convert_str();
    match converted {
        PropagationValueMatcher::EmptyToGlobalRealm { asset, owner, server } => {
            assert_eq!(asset, "a");
            assert_eq!(owner, "b");
            assert_eq!(server, "c");
        }
        _ => panic!("the rule changed kind"),
    }
    let rule: PropagationValueMatcher<&str> = PropagationValueMatcher::NumToBoolList { bits: 5, low_to_high: false };
    assert!(matches!(rule.convert_str::<String>(), PropagationValueMatcher::NumToBoolList { bits: 5, low_to_high: false }));
}
