use spadina::client::altitude_mixer::{AltitudeMix, AltitudeMixer};
use spadina::client::configuration::{Configuration, ConfigurationFile, ServerConfiguration};
use spadina::client::peer::Peer;
use spadina::client::realm_selector::RealmSelector;
use spadina::controller::editor::Editor;
use std::path::PathBuf;
use spadina::client::direct_message::{DirectMessages, MessageFailure, TimeRange};
use spadina::client::jitter::{instant_from_millis, sample_of, slot_after, Jitter};
use spadina::communication::DirectMessage;
use spadina::time::Timestamp;

#[test]
fn altitude_mixers_blend_between_their_limits() {
    let mut mixer = AltitudeMixer::new(10, "low".to_string(), 20, "high".to_string());
    assert_eq!(mixer.register(25), AltitudeMix::Top("high".to_string()));
    assert_eq!(mixer.register(20), AltitudeMix::Top("high".to_string()));
    assert_eq!(
        mixer.register(15),
        AltitudeMix::Blend { top_weight: 5, total: 10, top: "high".to_string(), bottom: "low".to_string() }
    );
    assert_eq!(
        mixer.register(18),
        AltitudeMix::Blend { top_weight: 2, total: 10, top: "high".to_string(), bottom: "low".to_string() }
    );
    assert_eq!(mixer.register(10), AltitudeMix::Bottom("low".to_string()));
    assert_eq!(mixer.register(5), AltitudeMix::Bottom("low".to_string()));
    let mut inverted = AltitudeMixer::new(30, 1u32, 20, 2u32);
    assert_eq!(inverted.register(25), AltitudeMix::Top(2));
    assert_eq!(inverted.register(15), AltitudeMix::Bottom(1));
}

fn configuration() -> Configuration {
    Configuration::new(
        ConfigurationFile { accounts: vec![], client: "client".to_string(), private_key: String::new(), public_key: String::new() },
        PathBuf::from("/tmp/client.json"),
    )
}

#[test]
fn accounts_are_added_once() {
    let mut config = configuration();
    assert!(config.add_account(ServerConfiguration::Socket("/run/spadina.socket".to_string())));
    assert!(config.add_account(ServerConfiguration::Remote { player: "alice".to_string(), server: "example.com".to_string() }));
    assert!(!config.add_account(ServerConfiguration::Remote { player: "alice".to_string(), server: "example.com".to_string() }));
    let connections = config.connections();
    assert_eq!(connections.len(), 2);
    assert_eq!(connections[0], (0, &ServerConfiguration::Socket("/run/spadina.socket".to_string())));
    assert_eq!(connections[1].0, 1);
}

#[test]
fn removing_an_account_moves_the_last_into_its_place() {
    let mut config = configuration();
    config.add_account(ServerConfiguration::Socket("a".to_string()));
    config.add_account(ServerConfiguration::Socket("b".to_string()));
    config.add_account(ServerConfiguration::Socket("c".to_string()));
    config.remove(0);
    assert_eq!(config.data().accounts, vec![ServerConfiguration::Socket("c".to_string()), ServerConfiguration::Socket("b".to_string())]);
    config.remove(5);
    assert_eq!(config.data().accounts.len(), 2);
    assert_eq!(config.path(), &PathBuf::from("/tmp/client.json"));
}

#[test]
fn realm_selections_round_trip_through_the_menu() {
    assert!(matches!(RealmSelector::default(), RealmSelector::Player));
    for index in 0..5 {
        assert_eq!(RealmSelector::select(index).id(), index);
    }
    assert!(matches!(RealmSelector::select(3), RealmSelector::Remote(s) if s.is_empty()));
    assert_eq!(RealmSelector::Url("x".to_string()).id(), 4);
}

#[test]
fn peers_are_named() {
    let peer = Peer::from("example.com".to_string());
    assert_eq!(peer.as_str(), "example.com");
}

#[test]
fn editors_start_blank() {
    let _controller = Editor.blank();
    assert_eq!(Editor.name("anyone"), "New Editor");
}

#[test]
fn a_jitter_ring_read_alone_yields_nothing() {
    let jitter: Jitter<4> = Jitter::default();
    assert!(jitter.iter().next().is_none());
    let remote = Timestamp { seconds: 1_700_000_000, nanos: 0 };
    for k in 0..6 {
        jitter.record(Timestamp { seconds: 1_700_000_000 + k, nanos: 250_000_000 }, remote);
    }
    jitter.update(remote);
    let mut iter = jitter.iter();
    assert!(iter.next().is_none());
    assert!(iter.next().is_none());
    let single: Jitter<1> = Jitter::default();
    single.record(remote, remote);
    assert!(single.iter().next().is_none());
}

#[test]
fn a_jitter_ring_yields_samples_written_while_read() {
    let jitter: Jitter<4> = Jitter::default();
    let remote = Timestamp { seconds: 1_700_000_000, nanos: 0 };
    let mut iter = jitter.iter();
    jitter.record(Timestamp { seconds: 1_700_000_002, nanos: 250_000_000 }, remote);
    assert!(iter.next().is_none());
    jitter.record(Timestamp { seconds: 1_700_000_003, nanos: 0 }, remote);
    // The stamp holds whole seconds and is read back as milliseconds.
    assert_eq!(iter.next(), Some((Timestamp { seconds: 1_700_000, nanos: 2_000_000 }, 2_250)));
    assert_eq!(iter.next(), Some((Timestamp { seconds: 1_700_000, nanos: 3_000_000 }, 3_000)));
    // The third slot has not been written yet and holds zeros.
    assert_eq!(iter.next(), Some((Timestamp { seconds: 0, nanos: 0 }, 0)));
    assert!(iter.next().is_none());
}

#[test]
fn jitter_arithmetic() {
    assert_eq!(sample_of(Timestamp { seconds: 10, nanos: 0 }, Timestamp { seconds: 11, nanos: 500_000_000 }), (10, -1_500));
    assert_eq!(slot_after(3, 4), 0);
    assert_eq!(slot_after(1, 4), 2);
    assert_eq!(instant_from_millis(-1), Timestamp { seconds: -1, nanos: 999_000_000 });
    assert_eq!(instant_from_millis(-1000), Timestamp { seconds: -1, nanos: 0 });
    assert_eq!(instant_from_millis(2_500), Timestamp { seconds: 2, nanos: 500_000_000 });
}

fn at(seconds: i64) -> Timestamp {
    Timestamp { seconds, nanos: 0 }
}

fn message(seconds: i64, text: &str) -> DirectMessage<String> {
    DirectMessage { inbound: true, body: text.to_string(), timestamp: at(seconds) }
}

fn bodies(messages: Option<&[DirectMessage<String>]>) -> Option<Vec<String>> {
    messages.map(|m| m.iter().map(|m| m.body.clone()).collect())
}

#[test]
fn direct_messages_ask_only_for_what_is_missing() {
    let mut messages: DirectMessages<String> = DirectMessages::new();
    let (requests, held) = messages.get(at(10), at(20));
    assert_eq!(requests, vec![TimeRange { start: at(10), end: at(20) }]);
    assert!(held.is_none());

    messages.add_range(at(10), at(20), vec![message(15, "b"), message(12, "a"), message(15, "c")]);
    // A span wholly held is scanned past from both ends, leaving a reversed span to ask for.
    let (requests, held) = messages.get(at(10), at(20));
    assert_eq!(requests, vec![TimeRange { start: at(20), end: at(10) }]);
    assert!(held.is_none());
    // A single instant outside every span asks for nothing and reads from the first later message.
    let (requests, held) = messages.get(at(5), at(5));
    assert!(requests.is_empty());
    assert_eq!(bodies(held), Some(vec!["a".to_string()]));
    let (requests, held) = messages.get(at(30), at(30));
    assert!(requests.is_empty());
    assert!(held.is_none());
    // A wanted span around a held one asks for the parts on either side.
    let (requests, _) = messages.get(at(0), at(40));
    assert_eq!(requests, vec![TimeRange { start: at(0), end: at(10) }, TimeRange { start: at(20), end: at(40) }]);

    // Each added message moves the end of the last span to its own time.
    messages.add(message(25, "d"));
    messages.add(message(13, "e"));
    let (requests, held) = messages.get(at(12), at(12));
    assert_eq!(requests, vec![TimeRange { start: at(13), end: at(10) }]);
    assert!(held.is_none());
    let (_, held) = messages.get(at(26), at(26));
    assert!(held.is_none());
    let (_, held) = messages.get(at(1), at(1));
    assert_eq!(bodies(held), Some(vec!["a".to_string()]));
    let (requests, _) = messages.get(at(0), at(40));
    assert_eq!(requests, vec![TimeRange { start: at(0), end: at(10) }, TimeRange { start: at(13), end: at(40) }]);
    let (requests, held) = messages.get(at(14), at(14));
    assert!(requests.is_empty());
    assert_eq!(bodies(held), Some(vec!["b".to_string()]));
}

#[test]
fn message_failures_compare() {
    assert_eq!(MessageFailure::Forbidden, MessageFailure::Forbidden);
    assert_ne!(MessageFailure::UnknownRecipient, MessageFailure::InternalError);
}
