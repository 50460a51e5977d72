use spadina::access::{AccessTarget, AccountLockState};
use spadina::client::server::UpdateResult;
use spadina::client::state::{
    connection_step, settle_direct_message, ConnectionEffect, ConnectionEvent, ConnectionResponse, ConnectionScreen, FailureReason,
    InflightOperation, LocationResponse, LostReason, MessageStatus, Operations, ThreadMessage,
};
use spadina::player::PlayerIdentifier;
use spadina::time::Timestamp;

type Ops = Operations<(), (), &'static str>;

fn at(seconds: i64) -> Timestamp {
    Timestamp { seconds, nanos: 0 }
}

fn server(response: ConnectionResponse<&'static str>) -> ConnectionEvent<&'static str> {
    ConnectionEvent::Server(response)
}

#[test]
fn refused_access_change_is_recorded_as_failed() {
    let mut ops: Ops = Operations::new();
    let id = ops.add_operation(InflightOperation::AccessChange(AccessTarget::DirectMessages), at(1));
    let (screen, effect) = connection_step(&mut ops, server(ConnectionResponse::AccessChange { id, response: UpdateResult::NotAllowed }), at(5));
    assert!(screen.is_none() && effect.is_none());
    assert_eq!(ops.failed().len(), 1);
    let failure = &ops.failed()[0];
    assert_eq!((failure.created, failure.failed), (at(1), at(5)));
    assert!(matches!(failure.reason, FailureReason::PermissionDenied));
    assert!(matches!(failure.operation, InflightOperation::AccessChange(AccessTarget::DirectMessages)));
    // The operation is no longer waited on: a second answer changes nothing.
    connection_step(&mut ops, server(ConnectionResponse::AccessChange { id, response: UpdateResult::InternalError }), at(6));
    assert_eq!(ops.failed().len(), 1);
}

#[test]
fn successful_answers_record_nothing() {
    let mut ops: Ops = Operations::new();
    let a = ops.add_operation(InflightOperation::Avatar, at(1));
    let b = ops.add_operation(InflightOperation::PublicKey, at(1));
    assert_eq!((a, b), (0, 1));
    connection_step(&mut ops, server(ConnectionResponse::AvatarUpdate { id: a, success: true }), at(2));
    connection_step(&mut ops, server(ConnectionResponse::PublicKeyUpdate { id: b, result: UpdateResult::Success }), at(2));
    assert!(ops.failed().is_empty());
    connection_step(&mut ops, server(ConnectionResponse::BookmarkUpdate { id: a, success: false }), at(3));
    assert!(ops.failed().is_empty());
}

#[test]
fn calendar_failures_are_recorded_as_realm_calendar_changes() {
    let mut ops: Ops = Operations::new();
    let reset = ops.add_operation(InflightOperation::CalendarReset, at(1));
    let other = ops.add_operation(InflightOperation::Calendar, at(1));
    connection_step(&mut ops, server(ConnectionResponse::CalendarUpdate { id: other, result: UpdateResult::InternalError }), at(2));
    assert!(ops.failed().is_empty());
    connection_step(&mut ops, server(ConnectionResponse::CalendarUpdate { id: reset, result: UpdateResult::NotAllowed }), at(3));
    assert_eq!(ops.failed().len(), 1);
    assert!(matches!(ops.failed()[0].reason, FailureReason::Update(UpdateResult::NotAllowed)));
    assert!(matches!(ops.failed()[0].operation, InflightOperation::RealmCalendarChange));
}

#[test]
fn account_lock_failures_reset_the_lock_state() {
    let mut ops: Ops = Operations::new();
    let id = ops.add_operation(InflightOperation::AccountLock("eve".to_string()), at(1));
    let (_, effect) = connection_step(
        &mut ops,
        server(ConnectionResponse::AccountLockChange { id, name: "eve".to_string(), result: UpdateResult::InternalError }),
        at(2),
    );
    assert!(matches!(effect, Some(ConnectionEffect::SetAccountLock(ref n, AccountLockState::Unknown)) if n == "eve"));
    let (_, effect) = connection_step(
        &mut ops,
        server(ConnectionResponse::AccountLockChange { id, name: "eve".to_string(), result: UpdateResult::InternalError }),
        at(3),
    );
    assert!(effect.is_none());
    let id = ops.add_operation(InflightOperation::Announcements, at(4));
    connection_step(&mut ops, server(ConnectionResponse::TrainAdd { id, failure: Some("full") }), at(5));
    assert!(matches!(ops.failed()[1].reason, FailureReason::TrainAdd("full")));
}

#[test]
fn screens_follow_the_connection() {
    let mut ops: Ops = Operations::new();
    assert!(matches!(connection_step(&mut ops, ConnectionEvent::ServerQuit, at(0)).0, Some(ConnectionScreen::Quit)));
    assert!(matches!(connection_step(&mut ops, ConnectionEvent::LoginAttempt(Ok(true)), at(0)).0, Some(ConnectionScreen::LoginPassword)));
    assert!(matches!(connection_step(&mut ops, ConnectionEvent::LoginAttempt(Ok(false)), at(0)).0, Some(ConnectionScreen::InTransit)));
    assert!(matches!(connection_step(&mut ops, ConnectionEvent::UserInterfaceClosed, at(0)), (None, Some(ConnectionEffect::Stop))));
    assert!(matches!(
        connection_step(&mut ops, server(ConnectionResponse::Disconnect), at(0)),
        (Some(ConnectionScreen::Quit), Some(ConnectionEffect::Disconnect))
    ));
    match connection_step(
        &mut ops,
        server(ConnectionResponse::LocationChange {
            location: LocationResponse::Realm { name: "Garden".to_string(), asset: "abc".to_string(), details: "d" },
        }),
        at(0),
    ) {
        (Some(ConnectionScreen::Loading(name)), Some(ConnectionEffect::Travel(LocationResponse::Realm { asset, .. }))) => {
            assert_eq!((name.as_str(), asset.as_str()), ("Garden", "abc"))
        }
        _ => panic!("expected loading"),
    }
    match connection_step(
        &mut ops,
        server(ConnectionResponse::LocationChange { location: LocationResponse::MissingCapabilities { capabilities: vec!["x".to_string()] } }),
        at(0),
    ) {
        (Some(ConnectionScreen::Lost(Some(LostReason::MissingCapabilities(c)))), _) => assert_eq!(c, vec!["x".to_string()]),
        _ => panic!("expected lost"),
    }
    assert!(matches!(
        connection_step(&mut ops, server(ConnectionResponse::LocationChange { location: LocationResponse::NoWhere }), at(0)).0,
        Some(ConnectionScreen::Lost(None))
    ));
    assert!(matches!(connection_step(&mut ops, server(ConnectionResponse::Other("x")), at(0)), (None, Some(ConnectionEffect::Forward("x")))));
}

#[test]
fn direct_message_receipts_settle_the_waiting_message() {
    let mut ops: Ops = Operations::new();
    let bob = PlayerIdentifier::Local("bob".to_string());
    let id = ops.add_operation(InflightOperation::DirectMessageSend(bob.clone()), at(1));
    let mut thread: Vec<ThreadMessage<&str>> = vec![ThreadMessage::Incoming("hi", at(0)), ThreadMessage::Pending(id, "hello")];
    let (screen, effect) = connection_step(&mut ops, server(ConnectionResponse::DirectMessageReceipt { id, status: MessageStatus::Forbidden }), at(2));
    assert!(screen.is_none());
    let (player, status, created) = match effect {
        Some(ConnectionEffect::SettleMessage { player, id: settled, status, created }) => {
            assert_eq!(settled, id);
            (player, status, created)
        }
        _ => panic!("expected a message to settle"),
    };
    assert_eq!((player.name(), created), ("bob", at(1)));
    let failure: Option<FailureReason<&str>> = settle_direct_message(&mut thread, id, status);
    assert!(matches!(failure, Some(FailureReason::ContactForbidden)));
    assert!(matches!(thread.as_slice(), [ThreadMessage::Incoming("hi", _)]));
    ops.record_failure(created, at(2), failure.unwrap(), InflightOperation::DirectMessageSend(player));
    assert_eq!(ops.failed().len(), 1);

    let mut thread: Vec<ThreadMessage<&str>> = vec![ThreadMessage::Pending(4, "a"), ThreadMessage::Pending(5, "b")];
    let failure: Option<FailureReason<&str>> = settle_direct_message(&mut thread, 5, MessageStatus::Delivered(at(9)));
    assert!(failure.is_none());
    assert!(matches!(thread.as_slice(), [ThreadMessage::Pending(4, "a"), ThreadMessage::Outgoing("b", t)] if *t == at(9)));
    let failure: Option<FailureReason<&str>> = settle_direct_message(&mut thread, 7, MessageStatus::InternalError);
    assert!(failure.is_none());
    assert_eq!(thread.len(), 2);
}
