use spadina::asset_store::LoadError;
use spadina::auth::AuthScheme;
use spadina::client::realm_selector::RealmSelector;
use spadina::client::session::{
    expire_statuses, process_response, realm_asset_opened, realm_unusable, realm_asset_reread, AccessChangeResponse, AssetError, BookmarkType, BusyReason,
    ClientAction, ClientRequest, ClientResponse, InflightOperation, InflightRequests, LostReason, RealmChange,
    RealmCreationStatus, RealmState, ReceiptStatus, ScreenState, ServerRequest, ServerResponse, StatusInfo, StatusMessage,
};
use spadina::realm::RealmSettings;
use spadina::time::Timestamp;

const NOW: Timestamp = Timestamp { seconds: 1_700_000_000, nanos: 0 };

type Screen = ScreenState<()>;

fn later(seconds: i64) -> Timestamp {
    Timestamp { seconds: NOW.seconds + seconds, nanos: 0 }
}

fn describe(screen: &Option<Screen>) -> String {
    format!("{:?}", screen)
}

fn active(asset: &str) -> RealmState {
    RealmState::Active {
        asset: asset.to_string(),
        name: "Garden".to_string(),
        realm: "r1".to_string(),
        seed: 4,
        server: "example.com".to_string(),
        settings: RealmSettings { entries: vec![] },
    }
}

#[test]
fn login_methods_choose_the_screen() {
    let mut inflight = InflightRequests::new();
    let screen: Screen = ScreenState::Waiting;
    let (next, realm, requests, status, actions) = process_response(
        &screen,
        &RealmState::Inactive,
        &mut inflight,
        ServerResponse::AuthMethod {
            insecure: true,
            server: "s".to_string(),
            player: "p".to_string(),
            scheme: AuthScheme::Password,
        },
        NOW,
    );
    assert_eq!(
        describe(&next),
        describe(&Some(ScreenState::PasswordLogin {
            error_message: None,
            insecure: true,
            password: String::new(),
            player: "p".to_string(),
            server: "s".to_string(),
        }))
    );
    assert!(realm.is_none() && requests.is_empty() && status.is_empty() && actions.is_empty());
    let (next, _, requests, _, _) = process_response(
        &screen,
        &RealmState::Inactive,
        &mut inflight,
        ServerResponse::AuthMethod { insecure: false, server: "s".to_string(), player: "p".to_string(), scheme: AuthScheme::Kerberos },
        NOW,
    );
    assert_eq!(describe(&next), describe(&Some(ScreenState::Busy(BusyReason::Kerberos))));
    assert_eq!(requests, vec![ServerRequest::KerberosLogin { insecure: false, player: "p".to_string(), server: "s".to_string() }]);
    let (_, _, requests, _, _) = process_response(&screen, &RealmState::Inactive, &mut inflight, ServerResponse::Connected, NOW);
    assert_eq!(requests.len(), 8);
    assert_eq!(requests[0], ServerRequest::Deliver(ClientRequest::Capabilities));
    assert_eq!(requests[7], ServerRequest::Deliver(ClientRequest::BookmarksGet(BookmarkType::Server)));
    let (next, _, _, _, _) = process_response(&screen, &RealmState::Inactive, &mut inflight, ServerResponse::Disconnected, NOW);
    assert_eq!(
        describe(&next),
        describe(&Some(ScreenState::ServerSelection {
            error_message: None,
            insecure: false,
            player: String::new(),
            server: String::new()
        }))
    );
}

#[test]
fn answers_finish_the_request_before_them() {
    let mut inflight = InflightRequests::new();
    assert_eq!(inflight.push(InflightOperation::AccessChange("realm".to_string()), NOW), 0);
    assert_eq!(inflight.push(InflightOperation::RealmDeletion("old".to_string()), NOW), 1);
    let screen: Screen = ScreenState::Waiting;
    // The lookup takes the first request whose number differs from the answer's.
    let (_, _, _, status, _) = process_response(
        &screen,
        &RealmState::Inactive,
        &mut inflight,
        ServerResponse::Deliver(ClientResponse::AccessChange { id: 1, response: AccessChangeResponse::Changed }),
        NOW,
    );
    assert_eq!(status, vec![StatusInfo::TimeoutSuccess(StatusMessage::AccessChanged("realm".to_string()), later(10))]);
    let (_, _, _, status, _) = process_response(
        &screen,
        &RealmState::Inactive,
        &mut inflight,
        ServerResponse::Deliver(ClientResponse::RealmDeletion { id: 5, ok: false }),
        NOW,
    );
    assert_eq!(status, vec![StatusInfo::AcknowledgeFailure(StatusMessage::RealmNotDeleted("old".to_string()))]);
    let (_, _, _, status, _) = process_response(
        &screen,
        &RealmState::Inactive,
        &mut inflight,
        ServerResponse::Deliver(ClientResponse::RealmDeletion { id: 5, ok: true }),
        NOW,
    );
    assert!(status.is_empty());
    inflight.push(InflightOperation::DirectMessage("bob".to_string()), NOW);
    let (_, _, _, status, _) = process_response(
        &screen,
        &RealmState::Inactive,
        &mut inflight,
        ServerResponse::Deliver(ClientResponse::RealmCreation { id: 9, status: RealmCreationStatus::Duplicate }),
        NOW,
    );
    assert!(status.is_empty());
    inflight.push(InflightOperation::AssetCreation("tree".to_string()), NOW);
    let (_, _, _, status, _) = process_response(
        &screen,
        &RealmState::Inactive,
        &mut inflight,
        ServerResponse::Deliver(ClientResponse::AssetCreationFailed { id: 0, error: AssetError::Missing(vec!["leaf".to_string()]) }),
        NOW,
    );
    assert_eq!(
        status,
        vec![StatusInfo::AcknowledgeFailure(StatusMessage::AssetMissing { asset: "tree".to_string(), missing: vec!["leaf".to_string()] })]
    );
    inflight.push(InflightOperation::DirectMessage("bob".to_string()), NOW);
    let (_, _, _, status, _) = process_response(
        &screen,
        &RealmState::Inactive,
        &mut inflight,
        ServerResponse::Deliver(ClientResponse::DirectMessageReceipt { id: 0, status: ReceiptStatus::Queued }),
        NOW,
    );
    assert_eq!(status, vec![StatusInfo::TimeoutSuccess(StatusMessage::MessageQueued("bob".to_string()), later(5))]);
}

#[test]
fn travelling_to_a_realm_loads_its_assets() {
    let mut inflight = InflightRequests::new();
    let screen: Screen = ScreenState::Waiting;
    let change = RealmChange::Success {
        capabilities: vec![],
        name: "Garden".to_string(),
        asset: "a1".to_string(),
        seed: 4,
        settings: RealmSettings { entries: vec![] },
        realm: "r1".to_string(),
        server: "example.com".to_string(),
    };
    let (next, realm, _, _, actions) = process_response(
        &screen,
        &RealmState::Inactive,
        &mut inflight,
        ServerResponse::Deliver(ClientResponse::RealmChanged(change)),
        NOW,
    );
    assert_eq!(describe(&next), describe(&Some(ScreenState::Loading { assets: vec![] })));
    assert_eq!(format!("{:?}", realm), format!("{:?}", Some(active("a1"))));
    assert_eq!(actions, vec![ClientAction::OpenRealmAsset { asset: "a1".to_string(), realm: "r1".to_string() }]);

    let needing = RealmChange::Success {
        capabilities: vec!["flight".to_string(), "swim".to_string()],
        name: "Sea".to_string(),
        asset: "a2".to_string(),
        seed: 1,
        settings: RealmSettings { entries: vec![] },
        realm: "r2".to_string(),
        server: "example.com".to_string(),
    };
    let (next, realm, _, _, _) = process_response(
        &screen,
        &RealmState::Inactive,
        &mut inflight,
        ServerResponse::Deliver(ClientResponse::RealmChanged(needing)),
        NOW,
    );
    assert_eq!(
        describe(&next),
        describe(&Some(ScreenState::Lost(
            RealmSelector::Player,
            Some(LostReason::UnsupportedCapabilities(vec!["flight".to_string(), "swim".to_string()]))
        )))
    );
    assert!(realm.is_none());

    let (next, requests, actions) = realm_asset_opened::<()>(
        "a1".to_string(),
        "r1".to_string(),
        Ok(vec![("b".to_string(), false), ("c".to_string(), true), ("b".to_string(), false), ("d".to_string(), false)]),
    );
    assert_eq!(describe(&next), describe(&Some(ScreenState::Loading { assets: vec!["b".to_string(), "d".to_string()] })));
    assert_eq!(
        requests,
        vec![
            ServerRequest::Deliver(ClientRequest::AssetPull { id: "b".to_string() }),
            ServerRequest::Deliver(ClientRequest::AssetPull { id: "d".to_string() })
        ]
    );
    assert!(actions.is_empty());
    let (next, _, actions) = realm_asset_opened::<()>("a1".to_string(), "r1".to_string(), Ok(vec![("c".to_string(), true)]));
    assert_eq!(describe(&next), describe(&Some(ScreenState::Waiting)));
    assert_eq!(actions, vec![ClientAction::LoadRealm("a1".to_string())]);
    let (next, requests, _) = realm_asset_opened::<()>("a1".to_string(), "r1".to_string(), Err(LoadError::Unknown));
    assert!(next.is_none());
    assert_eq!(requests, vec![ServerRequest::Deliver(ClientRequest::AssetPull { id: "a1".to_string() })]);
    let (next, _, _) = realm_asset_opened::<()>("a1".to_string(), "r1".to_string(), Err(LoadError::InternalError));
    assert_eq!(
        describe(&next),
        describe(&Some(ScreenState::Lost(
            RealmSelector::Player,
            Some(LostReason::RealmAssetFailed { asset: "a1".to_string(), realm: "r1".to_string() })
        )))
    );

    // Assets arriving while loading are crossed off; the last one rereads the realm asset.
    let loading: Screen = ScreenState::Loading { assets: vec!["b".to_string(), "d".to_string()] };
    let (next, _, _, _, actions) = process_response(
        &loading,
        &active("a1"),
        &mut inflight,
        ServerResponse::Deliver(ClientResponse::Asset("b".to_string())),
        NOW,
    );
    assert_eq!(describe(&next), describe(&Some(ScreenState::Loading { assets: vec!["d".to_string()] })));
    assert_eq!(actions, vec![ClientAction::StoreAsset("b".to_string())]);
    let last: Screen = ScreenState::Loading { assets: vec!["d".to_string()] };
    let (next, _, _, _, actions) = process_response(
        &last,
        &active("a1"),
        &mut inflight,
        ServerResponse::Deliver(ClientResponse::Asset("d".to_string())),
        NOW,
    );
    assert_eq!(describe(&next), describe(&Some(ScreenState::Loading { assets: vec![] })));
    assert_eq!(actions, vec![ClientAction::StoreAsset("d".to_string()), ClientAction::RereadRealmAsset("a1".to_string())]);
    let (_, _, _, _, actions) = process_response(
        &last,
        &active("a1"),
        &mut inflight,
        ServerResponse::Deliver(ClientResponse::Asset("bad/name".to_string())),
        NOW,
    );
    assert!(actions.is_empty());
    let (next, _, _, _, _) = process_response(
        &last,
        &active("a1"),
        &mut inflight,
        ServerResponse::Deliver(ClientResponse::AssetUnavailable("zz".to_string())),
        NOW,
    );
    assert_eq!(
        describe(&next),
        describe(&Some(ScreenState::Lost(RealmSelector::Player, Some(LostReason::AssetUnavailable("zz".to_string())))))
    );
    let (screen, actions) = realm_asset_reread::<()>("a1".to_string(), Ok(()));
    assert_eq!(format!("{:?}", screen), format!("{:?}", Screen::Waiting));
    assert_eq!(actions, vec![ClientAction::LoadRealm("a1".to_string())]);
    let (screen, actions) = realm_asset_reread::<()>("a1".to_string(), Err(LoadError::Corrupt));
    assert_eq!(
        format!("{:?}", screen),
        format!("{:?}", Screen::Lost(RealmSelector::Player, Some(LostReason::RealmAssetBroken(LoadError::Corrupt))))
    );
    assert!(actions.is_empty());
    let (_, _, _, _, actions) = process_response(
        &last,
        &active("a1"),
        &mut inflight,
        ServerResponse::Deliver(ClientResponse::Disconnect),
        NOW,
    );
    assert_eq!(actions, vec![ClientAction::Exit]);
}

#[test]
fn status_lines_kept_as_the_client_checks_them() {
    let mut lines = vec![
        StatusInfo::AcknowledgeFailure(StatusMessage::RealmCreated),
        StatusInfo::TimeoutSuccess(StatusMessage::RealmDeleted("a".to_string()), Timestamp { seconds: 10, nanos: 0 }),
        StatusInfo::TimeoutFailure(StatusMessage::RealmNotDeleted("b".to_string()), Timestamp { seconds: 30, nanos: 0 }),
    ];
    expire_statuses(&mut lines, Timestamp { seconds: 20, nanos: 0 });
    assert_eq!(
        lines,
        vec![
            StatusInfo::AcknowledgeFailure(StatusMessage::RealmCreated),
            StatusInfo::TimeoutSuccess(StatusMessage::RealmDeleted("a".to_string()), Timestamp { seconds: 10, nanos: 0 }),
        ]
    );
}

#[test]
fn unusable_realm_asset_leaves_the_player_lost() {
    match realm_unusable::<()>(AssetError::Missing(vec!["x".to_string()])) {
        ScreenState::Lost(RealmSelector::Player, Some(LostReason::RealmUnusable(AssetError::Missing(m)))) => assert_eq!(m, vec!["x".to_string()]),
        _ => panic!("expected the lost screen"),
    }
}
