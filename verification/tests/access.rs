use spadina::access::{
    has_domain_suffix, AccessControl, AccessSetting, AccountLockState, BannedPeer, LocalAccessSetting, OnlineAccess, Privilege, SimpleAccess,
};
use spadina::player::PlayerIdentifier;
use spadina::time::Timestamp;
use spadina::reference_converter::{AsReference, IntoOwned};

#[test]
fn inverting_access_twice_gives_it_back() {
    assert_eq!(SimpleAccess::Allow.invert(), SimpleAccess::Deny);
    assert_eq!(SimpleAccess::Deny.invert(), SimpleAccess::Allow);
    assert_eq!(SimpleAccess::Allow.invert().invert(), SimpleAccess::Allow);
}

#[test]
fn only_deny_refuses_access() {
    assert!(Privilege::Access.can_access());
    assert!(Privilege::Admin.can_access());
    assert!(!Privilege::Deny.can_access());
}

#[test]
fn defaults_are_closed() {
    assert_eq!(SimpleAccess::default(), SimpleAccess::Deny);
    assert_eq!(Privilege::default(), Privilege::Deny);
    assert_eq!(OnlineAccess::default(), OnlineAccess::Deny);
    assert_eq!(AccountLockState::default(), AccountLockState::Unknown);
}

#[test]
fn local_access_starts_open() {
    let setting = LocalAccessSetting::<String>::default();
    assert_eq!(setting.check("anyone"), SimpleAccess::Allow);
}

#[test]
fn deny_then_check_refuses_and_allow_restores() {
    let mut setting = LocalAccessSetting::<String>::new();
    assert!(setting.deny("mallory".to_string()));
    assert_eq!(setting.check("mallory"), SimpleAccess::Deny);
    assert_eq!(setting.check("alice"), SimpleAccess::Allow);
    assert!(!setting.deny("mallory".to_string()));
    assert!(setting.allow("mallory".to_string()));
    assert_eq!(setting.check("mallory"), SimpleAccess::Allow);
    assert!(!setting.allow("mallory".to_string()));
}

#[test]
fn reset_drops_exceptions_only_when_the_default_changes() {
    let mut setting = LocalAccessSetting::<String>::new();
    setting.deny("mallory".to_string());
    assert!(!setting.reset(SimpleAccess::Allow));
    assert_eq!(setting.check("mallory"), SimpleAccess::Deny);
    assert!(setting.reset(SimpleAccess::Deny));
    assert_eq!(setting.check("mallory"), SimpleAccess::Deny);
    assert_eq!(setting.check("alice"), SimpleAccess::Deny);
    assert!(setting.allow("alice".to_string()));
    assert_eq!(setting.check("alice"), SimpleAccess::Allow);
    assert!(setting.reset(SimpleAccess::Allow));
    assert_eq!(setting.check("alice"), SimpleAccess::Allow);
    assert_eq!(setting.check("mallory"), SimpleAccess::Allow);
}

#[test]
fn referencing_a_setting_keeps_its_decisions() {
    let mut setting = LocalAccessSetting::<String>::new();
    setting.deny("mallory".to_string());
    let borrowed = setting.reference(AsReference);
    let text = format!("{:?}", borrowed);
    assert!(text.contains("mallory"));
    assert!(text.contains("Allow"));
}

#[test]
fn banned_peers_convert_and_borrow() {
    let peer: BannedPeer<&str> = BannedPeer::Peer("example.com");
    assert_eq!(peer.convert(IntoOwned), BannedPeer::Peer("example.com".to_string()));
    let domain = BannedPeer::Domain("example.org".to_string());
    assert_eq!(domain.reference(AsReference), BannedPeer::Domain("example.org"));
}

fn instant(seconds: i64) -> Timestamp {
    Timestamp { seconds, nanos: 0 }
}

fn local(name: &str) -> PlayerIdentifier {
    PlayerIdentifier::Local(name.to_string())
}

fn remote(server: &str, name: &str) -> PlayerIdentifier {
    PlayerIdentifier::Remote { server: server.to_string(), player: name.to_string() }
}

#[test]
fn access_rules_apply_in_order_until_they_expire() {
    let setting = AccessSetting {
        default: SimpleAccess::Deny,
        rules: vec![
            AccessControl::Player(remote("here.example", "ann"), Some(instant(100)), SimpleAccess::Allow),
            AccessControl::Domain("example".to_string(), None, SimpleAccess::Deny),
            AccessControl::Server("other.net".to_string(), None, SimpleAccess::Allow),
            AccessControl::Local(None, SimpleAccess::Allow),
        ],
    };
    // A local player matches a rule naming them on this server, while it lasts.
    assert_eq!(setting.check(&local("ann"), "here.example", instant(50)), SimpleAccess::Allow);
    assert_eq!(setting.check(&local("ann"), "here.example", instant(100)), SimpleAccess::Deny);
    assert_eq!(setting.check(&remote("other.net", "bob"), "here.example", instant(50)), SimpleAccess::Allow);
    assert_eq!(setting.check(&remote("far.away", "bob"), "here.example", instant(50)), SimpleAccess::Deny);
    let local_first = AccessSetting { default: SimpleAccess::Deny, rules: vec![AccessControl::Local(None, SimpleAccess::Allow)] };
    assert_eq!(local_first.check(&local("cy"), "here.example", instant(0)), SimpleAccess::Allow);
    assert_eq!(local_first.check(&remote("else.where", "cy"), "here.example", instant(0)), SimpleAccess::Deny);
}

#[test]
fn domain_suffixes() {
    assert!(has_domain_suffix("example", "example"));
    assert!(has_domain_suffix("example", "a.example"));
    assert!(!has_domain_suffix("example", "anexample"));
    assert!(!has_domain_suffix("a.example", "example"));
}

#[test]
fn rules_kept_locally() {
    let rule = AccessControl::Server("here.example".to_string(), Some(instant(10)), Privilege::Admin);
    assert!(matches!(rule.clone().into_local("here.example", instant(5)), Some(AccessControl::Local(Some(_), Privilege::Admin))));
    assert!(rule.clone().into_local("here.example", instant(10)).is_none());
    assert!(matches!(rule.into_local("there.example", instant(5)), Some(AccessControl::Server(_, _, Privilege::Admin))));
    let forever = AccessControl::Domain("example".to_string(), None, OnlineAccess::Location);
    assert!(forever.into_local("here.example", instant(i64::MAX)).is_some());
}
