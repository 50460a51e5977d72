use spadina::client::direct_message::MessageFailure;
use spadina::client::server::{
    process_client_response, Caches, ClientResponse, Handled, Notice, Pending, PlayerIdentifier, UpdateResult,
};
use spadina::client::paths::{platform_paths, Point};
use spadina::communication::{DirectMessage, DirectMessageStatus};
use spadina::time::Timestamp;

fn at(seconds: i64) -> Timestamp {
    Timestamp { seconds, nanos: 0 }
}

fn alice() -> PlayerIdentifier {
    PlayerIdentifier::Local("alice".to_string())
}

fn is_direct_message(r: &Option<Handled<u32, &'static str, &'static str>>, name: &str) -> bool {
    match r {
        Some(Handled::Notify(Notice::DirectMessage(PlayerIdentifier::Local(n)))) => n == name,
        _ => false,
    }
}

#[test]
fn refused_avatar_change_drops_cached_avatar() {
    let mut caches: Caches<&str, &str> = Caches::new();
    let mut pending: Pending<u32, &str> = Pending::new();
    let r = process_client_response(&mut caches, &mut pending, ClientResponse::AvatarCurrent { avatar: "hat" }, at(10));
    assert!(matches!(r, Some(Handled::Notify(Notice::AvatarUpdated))));
    assert_eq!(caches.avatar.current(), Some(&(at(10), "hat")));
    let id = pending.avatar_updates.add(41);
    let r = process_client_response(
        &mut caches,
        &mut pending,
        ClientResponse::AvatarUpdate { id, result: UpdateResult::NotAllowed },
        at(11),
    );
    assert!(matches!(r, Some(Handled::Notify(Notice::AvatarUpdate(41, UpdateResult::NotAllowed)))));
    assert_eq!(caches.avatar.current(), None);
    assert!(pending.avatar_updates.get(id).is_none());
}

#[test]
fn successful_change_keeps_cache() {
    let mut caches: Caches<&str, &str> = Caches::new();
    let mut pending: Pending<u32, &str> = Pending::new();
    process_client_response(&mut caches, &mut pending, ClientResponse::PublicKeys { keys: "k" }, at(1));
    let id = pending.public_key_updates.add(5);
    let r = process_client_response(&mut caches, &mut pending, ClientResponse::PublicKeyUpdate { id, result: UpdateResult::Success }, at(2));
    assert!(matches!(r, Some(Handled::Notify(Notice::PublicKeysChanged(5, UpdateResult::Success)))));
    assert_eq!(caches.public_keys.current(), Some(&(at(1), "k")));
}

#[test]
fn refused_access_change_drops_all_access_settings() {
    let mut caches: Caches<&str, &str> = Caches::new();
    let mut pending: Pending<u32, &str> = Pending::new();
    process_client_response(&mut caches, &mut pending, ClientResponse::CurrentAccessDefault { setting: "d" }, at(1));
    process_client_response(&mut caches, &mut pending, ClientResponse::CurrentAccessOnline { setting: "o" }, at(1));
    process_client_response(&mut caches, &mut pending, ClientResponse::CurrentAccessDirectMessage { setting: "m" }, at(1));
    assert_eq!(caches.access_online.current(), Some(&(at(1), "o")));
    let id = pending.access_updates.add(9);
    let r = process_client_response(
        &mut caches,
        &mut pending,
        ClientResponse::AccessChange { id, result: UpdateResult::InternalError },
        at(2),
    );
    assert!(matches!(r, Some(Handled::Notify(Notice::AccessChange(9, UpdateResult::InternalError)))));
    assert_eq!(caches.access_default.current(), None);
    assert_eq!(caches.access_online.current(), None);
    assert_eq!(caches.access_message.current(), None);
}

#[test]
fn failed_bookmark_change_drops_avatar() {
    let mut caches: Caches<&str, &str> = Caches::new();
    let mut pending: Pending<u32, &str> = Pending::new();
    process_client_response(&mut caches, &mut pending, ClientResponse::AvatarCurrent { avatar: "hat" }, at(1));
    process_client_response(&mut caches, &mut pending, ClientResponse::Bookmarks { bookmarks: "b" }, at(1));
    let id = pending.bookmark_updates.add(3);
    let r = process_client_response(&mut caches, &mut pending, ClientResponse::BookmarkUpdate { id, success: false }, at(2));
    assert!(matches!(r, Some(Handled::Notify(Notice::BookmarkUpdate(3, false)))));
    assert_eq!(caches.avatar.current(), None);
    assert_eq!(caches.bookmarks.current(), Some(&(at(1), "b")));
}

#[test]
fn answer_to_unknown_request_changes_nothing() {
    let mut caches: Caches<&str, &str> = Caches::new();
    let mut pending: Pending<u32, &str> = Pending::new();
    process_client_response(&mut caches, &mut pending, ClientResponse::AvatarCurrent { avatar: "hat" }, at(1));
    let id = pending.avatar_updates.add(1);
    let r = process_client_response(
        &mut caches,
        &mut pending,
        ClientResponse::AvatarUpdate { id: id + 1, result: UpdateResult::NotAllowed },
        at(2),
    );
    assert!(r.is_none());
    assert_eq!(caches.avatar.current(), Some(&(at(1), "hat")));
    assert_eq!(pending.avatar_updates.get(id), Some(&1));
    assert!(process_client_response(&mut caches, &mut pending, ClientResponse::NoOperation, at(3)).is_none());
}

#[test]
fn asset_download_is_stored_then_unavailable_is_told() {
    let mut caches: Caches<&str, &str> = Caches::new();
    let mut pending: Pending<u32, &str> = Pending::new();
    let first = pending.asset_download.add(1);
    let second = pending.asset_download.add(2);
    assert_eq!((first, second), (0, 1));
    let r = process_client_response(&mut caches, &mut pending, ClientResponse::Asset { id: second, asset: "data" }, at(1));
    assert!(matches!(r, Some(Handled::StoreAsset { callback: 2, asset: "data" })));
    let r = process_client_response(&mut caches, &mut pending, ClientResponse::AssetUnavailable { id: first }, at(1));
    assert!(matches!(r, Some(Handled::Notify(Notice::AssetUnavailable(1)))));
    let r = process_client_response(&mut caches, &mut pending, ClientResponse::AssetUnavailable { id: first }, at(1));
    assert!(r.is_none());
}

#[test]
fn asset_upload_results() {
    let mut caches: Caches<&str, &str> = Caches::new();
    let mut pending: Pending<u32, &str> = Pending::new();
    let a = pending.asset_upload.add(10);
    let b = pending.asset_upload.add(20);
    let r = process_client_response(&mut caches, &mut pending, ClientResponse::AssetCreationSucceeded { id: a }, at(1));
    assert!(matches!(r, Some(Handled::Notify(Notice::AssetUploaded(10, Ok(()))))));
    let r = process_client_response(&mut caches, &mut pending, ClientResponse::AssetCreationFailed { id: b, error: "too big" }, at(1));
    assert!(matches!(r, Some(Handled::Notify(Notice::AssetUploaded(20, Err("too big"))))));
}

#[test]
fn location_search_stays_waited_on() {
    let mut caches: Caches<&str, &str> = Caches::new();
    let mut pending: Pending<u32, &str> = Pending::new();
    let id = pending.location_searches.add(77);
    let r = process_client_response(&mut caches, &mut pending, ClientResponse::LocationsAvailable { id, locations: "l" }, at(1));
    assert!(matches!(r, Some(Handled::Notify(Notice::LocationSearch(77, Ok("l"))))));
    let r = process_client_response(
        &mut caches,
        &mut pending,
        ClientResponse::LocationsUnavailable { id, server: Some("elsewhere".to_string()) },
        at(2),
    );
    match r {
        Some(Handled::Notify(Notice::LocationSearch(77, Err(Some(server))))) => assert_eq!(server, "elsewhere"),
        _ => panic!("expected a failed location search"),
    }
    assert_eq!(pending.location_searches.get(id), Some(&77));
}

#[test]
fn delivered_receipt_joins_conversation() {
    let mut caches: Caches<&str, &str> = Caches::new();
    let mut pending: Pending<u32, &str> = Pending::new();
    let id = pending.direct_messages_outstanding.send(alice(), "hello");
    let r = process_client_response(
        &mut caches,
        &mut pending,
        ClientResponse::DirectMessageReceipt { id, status: DirectMessageStatus::Queued },
        at(1),
    );
    assert!(is_direct_message(&r, "alice"));
    assert!(pending.direct_messages_outstanding.get(id).is_some());
    let r = process_client_response(
        &mut caches,
        &mut pending,
        ClientResponse::DirectMessageReceipt { id, status: DirectMessageStatus::Delivered(at(5)) },
        at(6),
    );
    assert!(is_direct_message(&r, "alice"));
    assert!(pending.direct_messages_outstanding.get(id).is_none());
    let conversation = caches.direct_messages.get(&alice()).expect("conversation");
    let (missing, held) = conversation.get(at(5), at(5));
    assert!(missing.is_empty());
    let held = held.expect("messages");
    assert_eq!(held.len(), 1);
    assert_eq!(held[0].body, "hello");
    assert!(!held[0].inbound);
}

#[test]
fn refused_receipt_hands_message_back() {
    let mut caches: Caches<&str, &str> = Caches::new();
    let mut pending: Pending<u32, &str> = Pending::new();
    let id = pending.direct_messages_outstanding.send(PlayerIdentifier::Remote { server: "s".to_string(), player: "bob".to_string() }, "hi");
    let r = process_client_response(
        &mut caches,
        &mut pending,
        ClientResponse::DirectMessageReceipt { id, status: DirectMessageStatus::Forbidden },
        at(1),
    );
    match r {
        Some(Handled::Notify(Notice::DirectMessageFailed(PlayerIdentifier::Remote { server, player }, MessageFailure::Forbidden, body))) => {
            assert_eq!((server.as_str(), player.as_str(), body), ("s", "bob", "hi"));
        }
        _ => panic!("expected a refused message"),
    }
    assert!(caches.direct_messages.get(&PlayerIdentifier::Remote { server: "s".to_string(), player: "bob".to_string() }).is_none());
}

#[test]
fn received_message_and_ranges() {
    let mut caches: Caches<&str, &str> = Caches::new();
    let mut pending: Pending<u32, &str> = Pending::new();
    let r = process_client_response(
        &mut caches,
        &mut pending,
        ClientResponse::DirectMessage { player: alice(), message: DirectMessage { inbound: true, body: "b", timestamp: at(20) } },
        at(21),
    );
    assert!(is_direct_message(&r, "alice"));
    let r = process_client_response(
        &mut caches,
        &mut pending,
        ClientResponse::DirectMessages {
            from: at(0),
            to: at(10),
            player: alice(),
            messages: vec![DirectMessage { inbound: true, body: "a", timestamp: at(5) }],
        },
        at(22),
    );
    assert!(is_direct_message(&r, "alice"));
    let (missing, held) = caches.direct_messages.get(&alice()).expect("conversation").get(at(20), at(20));
    assert!(missing.is_empty());
    let held = held.expect("messages");
    assert_eq!(held.len(), 1);
    assert_eq!(held[0].body, "b");
    assert!(caches.direct_messages.get(&PlayerIdentifier::Local("bob".to_string())).is_none());
}

#[test]
fn online_state_recorded_for_player_asked_about() {
    let mut caches: Caches<&str, &str> = Caches::new();
    let mut pending: Pending<u32, &str> = Pending::new();
    let id = pending.player_location_updates.add(alice());
    let r = process_client_response(&mut caches, &mut pending, ClientResponse::PlayerOnlineState { id, state: "online" }, at(3));
    assert!(matches!(r, Some(Handled::Notify(Notice::PlayerOnlineStateUpdated))));
    assert_eq!(caches.player_location.get(&alice()), Some(&(at(3), "online")));
    let id = pending.player_location_updates.add(alice());
    process_client_response(&mut caches, &mut pending, ClientResponse::PlayerOnlineState { id, state: "away" }, at(4));
    assert_eq!(caches.player_location.get(&alice()), Some(&(at(4), "away")));
}

#[test]
fn stats_calendar_and_disconnect() {
    let mut caches: Caches<&str, &str> = Caches::new();
    let mut pending: Pending<u32, &str> = Pending::new();
    let r = process_client_response(&mut caches, &mut pending, ClientResponse::DirectMessageStats { stats: "s", last_login: at(7) }, at(8));
    assert!(matches!(r, Some(Handled::Notify(Notice::DirectMessageStatsUpdated))));
    assert_eq!(caches.last_login, Some(at(7)));
    assert_eq!(caches.direct_message_stats.current(), Some(&(at(8), "s")));
    let r = process_client_response(&mut caches, &mut pending, ClientResponse::Calendar { id: vec![1, 2] }, at(9));
    assert!(matches!(r, Some(Handled::Notify(Notice::CalendarUpdated))));
    assert_eq!(caches.calendar_id.current(), Some(&(at(9), vec![1u8, 2])));
    let r = process_client_response(&mut caches, &mut pending, ClientResponse::Disconnect, at(10));
    assert!(matches!(r, Some(Handled::Disconnected)));
    let r = process_client_response(&mut caches, &mut pending, ClientResponse::ToHost { event: "e" }, at(10));
    assert!(matches!(r, Some(Handled::Notify(Notice::Hosting("e")))));
}

#[test]
fn cache_staleness() {
    let mut caches: Caches<&str, &str> = Caches::new();
    assert!(caches.peers.needs_refresh(at(0), 60));
    caches.peers.set("p", Timestamp { seconds: 100, nanos: 500 });
    assert!(!caches.peers.needs_refresh(Timestamp { seconds: 160, nanos: 500 }, 60));
    assert!(caches.peers.needs_refresh(Timestamp { seconds: 160, nanos: 501 }, 60));
    assert!(!caches.peers.needs_refresh(at(50), 60));
}

fn p(x: u32, y: u32) -> Point {
    Point { platform: 3, x, y }
}

#[test]
fn paths_on_open_strip() {
    assert_eq!(platform_paths(3, 1, 0, &vec![]), vec![(p(0, 0), p(1, 0))]);
    assert_eq!(platform_paths(3, 0, 0, &vec![]), vec![]);
}

#[test]
fn paths_avoid_solid_cells() {
    assert_eq!(
        platform_paths(3, 1, 1, &vec![(1, 1)]),
        vec![(p(0, 0), p(0, 1)), (p(0, 1), p(1, 0)), (p(0, 0), p(1, 0)), (p(0, 1), p(1, 0))]
    );
    assert_eq!(platform_paths(3, 1, 0, &vec![(0, 0)]), vec![]);
}
