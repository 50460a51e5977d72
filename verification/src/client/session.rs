//! What the game client does with a response from its server connection:
//! the screen it shows next, the requests it sends, the status lines it
//! adds and the requests it stops waiting for.

use vstd::prelude::*;
use crate::auth::AuthScheme;
use crate::client::realm_selector::RealmSelector;
use crate::asset_store::LoadError;
use crate::capabilities::{find_supported, supported};
use crate::realm::RealmSettings;
use crate::time::{MAX_SECONDS, Timestamp};
use vstd::string::StrSliceExecFns;

verus! {

/// A request to the server the client is waiting on, by what it was for.
#[derive(Clone, Debug, PartialEq, Eq)]
pub enum InflightOperation {
    AccessChange(String),
    AssetCreation(String),
    DirectMessage(String),
    RealmCreation(String),
    RealmDeletion(String),
}

/// A request the client is waiting on: its number, when it was made and
/// what it was for.
#[derive(Clone, Debug)]
pub struct InflightRequest {
    pub id: i32,
    pub created: Timestamp,
    pub operation: InflightOperation,
}

/// The requests the client is waiting on, in the order they were made, and
/// the number the next one gets.
pub struct InflightRequests {
    next_id: i32,
    outstanding: Vec<InflightRequest>,
}

/// The first place at or after `i` whose request has a number other than `id`.
pub open spec fn first_other(requests: Seq<InflightRequest>, id: i32, i: int) -> int
    decreases requests.len() - i,
{
    if i >= requests.len() {
        requests.len() as int
    } else if requests[i].id != id {
        i
    } else {
        first_other(requests, id, i + 1)
    }
}

/// What finishing request `id` takes out of `requests`: the first request
/// whose number is not `id`, as the client's lookup is written, and the
/// requests left.
pub open spec fn spec_finish(requests: Seq<InflightRequest>, id: i32) -> (Option<InflightOperation>, Seq<InflightRequest>) {
    let k = first_other(requests, id, 0);
    if k < requests.len() {
        (Some(requests[k].operation), requests.remove(k))
    } else {
        (None, requests)
    }
}

impl View for InflightRequests {
    type V = Seq<InflightRequest>;

    closed spec fn view(&self) -> Seq<InflightRequest> {
        self.outstanding@
    }
}

impl InflightRequests {
    /// The number the next request gets.
    pub closed spec fn next_number(&self) -> i32 {
        self.next_id
    }

    /// No requests waited on; numbering starts at zero.
    pub fn new() -> (r: Self)
        ensures
            r@ == Seq::<InflightRequest>::empty(),
            r.next_number() == 0,
    {
        InflightRequests { next_id: 0, outstanding: Vec::new() }
    }

    /// Waits on a new request made at `now` for `operation`, returning its
    /// number; numbers wrap around after the largest.
    pub fn push(&mut self, operation: InflightOperation, now: Timestamp) -> (r: i32)
        ensures
            r == old(self).next_number(),
            final(self).next_number() == old(self).next_number().wrapping_add(1),
            final(self)@ == old(self)@.push(InflightRequest { id: r, created: now, operation }),
    {
        let id = self.next_id;
        self.next_id = id.wrapping_add(1);
        self.outstanding.push(InflightRequest { id, created: now, operation });
        id
    }

    /// Stops waiting on the request the response numbered `id` answers. As
    /// the client's lookup is written, that is the first request whose number
    /// is not `id`.
    pub fn finish(&mut self, id: i32) -> (r: Option<InflightOperation>)
        ensures
            (r, final(self)@) == spec_finish(old(self)@, id),
            final(self).next_number() == old(self).next_number(),
    {
        let mut i: usize = 0;
        while i < self.outstanding.len()
            invariant
                i <= self.outstanding@.len(),
                self.outstanding@ == old(self).outstanding@,
                self.next_id == old(self).next_id,
                first_other(self.outstanding@, id, 0) == first_other(self.outstanding@, id, i as int),
            decreases self.outstanding@.len() - i,
        {
            if self.outstanding[i].id != id {
                let removed = self.outstanding.remove(i);
                return Some(removed.operation);
            }
            i = i + 1;
        }
        None
    }
}

/// The kinds of bookmark the client keeps.
#[derive(Copy, Clone, Debug, PartialEq, Eq)]
pub enum BookmarkType {
    ConsensualEmote,
    DirectedEmote,
    Emote,
    Player,
    Realm,
    RealmAsset,
    Server,
}

/// The requests the client makes of the server that these decisions send.
#[derive(Clone, Debug, PartialEq, Eq)]
pub enum ClientRequest {
    AssetPull { id: String },
    BookmarksGet(BookmarkType),
    Capabilities,
    DirectMessageStats,
}

/// What the client asks of its server connection.
#[derive(Clone, Debug, PartialEq, Eq)]
pub enum ServerRequest {
    Deliver(ClientRequest),
    KerberosLogin { insecure: bool, player: String, server: String },
    OpenIdConnectLogin { insecure: bool, player: String, server: String },
}

/// The server's answer to a change of an access list.
#[derive(Copy, Clone, Debug, PartialEq, Eq)]
pub enum AccessChangeResponse {
    Changed,
    Denied,
    InternalError,
}

/// Why the server refused an uploaded asset.
#[derive(Clone, Debug, PartialEq, Eq)]
pub enum AssetError {
    DecodeFailure,
    Invalid,
    Missing(Vec<String>),
    PermissionError,
    UnknownKind,
}

/// What happened to a direct message that was sent.
#[derive(Copy, Clone, Debug, PartialEq, Eq)]
pub enum ReceiptStatus {
    Delivered,
    Forbidden,
    InternalError,
    Queued,
    UnknownRecipient,
}

/// What happened to a request to create a realm.
#[derive(Clone, Debug, PartialEq, Eq)]
pub enum RealmCreationStatus {
    Created(String),
    Duplicate,
    InternalError,
    TooManyRealms,
}

/// The server's messages that decide what the client shows and waits on.
#[derive(Clone, Debug)]
pub enum ClientResponse {
    AccessChange { id: i32, response: AccessChangeResponse },
    /// An asset the server sent, by name; the client stores its data.
    Asset(String),
    AssetCreationFailed { id: i32, error: AssetError },
    AssetCreationSucceeded { id: i32, hash: String },
    AssetUnavailable(String),
    DirectMessageReceipt { id: i32, status: ReceiptStatus },
    Disconnect,
    InTransit,
    RealmChanged(RealmChange),
    RealmCreation { id: i32, status: RealmCreationStatus },
    RealmDeletion { id: i32, ok: bool },
}

/// The server's answer to a request to travel to a realm.
#[derive(Clone, Debug)]
pub enum RealmChange {
    Denied,
    Success {
        capabilities: Vec<String>,
        name: String,
        asset: String,
        seed: i32,
        settings: RealmSettings<String>,
        realm: String,
        server: String,
    },
}

/// The realm the client is in, if any.
#[derive(Clone, Debug)]
pub enum RealmState {
    Active { asset: String, name: String, realm: String, seed: i32, server: String, settings: RealmSettings<String> },
    Inactive,
}

/// What the server connection reports.
#[derive(Clone, Debug)]
pub enum ServerResponse {
    AuthMethod { insecure: bool, server: String, player: String, scheme: AuthScheme },
    AuthMethodFailed { insecure: bool, server: String, player: String, error_message: String },
    AuthPasswordFailed { insecure: bool, server: String, player: String, password: String, error_message: String },
    Connected,
    Deliver(ClientResponse),
    Disconnected,
}

/// What the client is busy waiting for.
#[derive(Copy, Clone, Debug, PartialEq, Eq)]
pub enum BusyReason {
    OpenIdConnect,
    Kerberos,
}

/// Why the client lost its way to a realm.
#[derive(Clone, Debug, PartialEq, Eq)]
pub enum LostReason {
    AssetUnavailable(String),
    CannotTravel,
    /// The realm asset could not be read again after its parts arrived.
    RealmAssetBroken(LoadError),
    /// The realm asset could not be read for an internal reason.
    RealmAssetFailed { asset: String, realm: String },
    /// The realm needs capabilities the client does not support.
    UnsupportedCapabilities(Vec<String>),
    /// The realm asset could not be turned into a realm.
    RealmUnusable(AssetError),
}

/// The screen the client shows; a realm being played holds `R`.
#[derive(Clone, Debug)]
pub enum ScreenState<R> {
    Error(String),
    Busy(BusyReason),
    InTransit,
    Loading { assets: Vec<String> },
    Lost(RealmSelector, Option<LostReason>),
    PasswordLogin { error_message: Option<String>, insecure: bool, password: String, player: String, server: String },
    Realm(R),
    ServerSelection { error_message: Option<String>, insecure: bool, player: String, server: String },
    Waiting,
}

/// What a status line says.
#[derive(Clone, Debug, PartialEq, Eq)]
pub enum StatusMessage {
    AccessChanged(String),
    AccessDenied(String),
    AccessServerError(String),
    AssetCorrupt(String),
    AssetInvalid(String),
    AssetMissing { asset: String, missing: Vec<String> },
    AssetNotAllowed(String),
    AssetUnsupported(String),
    AssetUploaded { asset: String, hash: String },
    MessageForbidden(String),
    MessageQueued(String),
    MessageServerError(String),
    RealmCreated,
    RealmCreationError(String),
    RealmDeleted(String),
    RealmDuplicate(String),
    RealmNotDeleted(String),
    RecipientUnknown(String),
    TooManyRealms(String),
}

/// A status line: one to acknowledge, one linking to a new local realm, or
/// one that goes away at an instant.
#[derive(Clone, Debug, PartialEq, Eq)]
pub enum StatusInfo {
    AcknowledgeFailure(StatusMessage),
    RealmLink(String, StatusMessage),
    TimeoutFailure(StatusMessage, Timestamp),
    TimeoutSuccess(StatusMessage, Timestamp),
}

/// What the client does outside its screen.
#[derive(Clone, Debug, PartialEq, Eq)]
pub enum ClientAction {
    /// Quit the client.
    Exit,
    /// Keep the data of the asset just received under its name.
    StoreAsset(String),
    /// Read the realm asset just travelled to from the client's asset store
    /// and report it to `realm_asset_opened`.
    OpenRealmAsset { asset: String, realm: String },
    /// Read the realm asset, whose parts have all arrived, from the asset
    /// store and report it to `realm_asset_reread`.
    RereadRealmAsset(String),
    /// Build the realm from its asset in the background.
    LoadRealm(String),
}

/// The requests sent once connected: capabilities, message statistics and
/// every kind of bookmark but players.
pub open spec fn connected_requests() -> Seq<ServerRequest> {
    seq![
        ServerRequest::Deliver(ClientRequest::Capabilities),
        ServerRequest::Deliver(ClientRequest::DirectMessageStats),
        ServerRequest::Deliver(ClientRequest::BookmarksGet(BookmarkType::ConsensualEmote)),
        ServerRequest::Deliver(ClientRequest::BookmarksGet(BookmarkType::DirectedEmote)),
        ServerRequest::Deliver(ClientRequest::BookmarksGet(BookmarkType::Emote)),
        ServerRequest::Deliver(ClientRequest::BookmarksGet(BookmarkType::Realm)),
        ServerRequest::Deliver(ClientRequest::BookmarksGet(BookmarkType::RealmAsset)),
        ServerRequest::Deliver(ClientRequest::BookmarksGet(BookmarkType::Server)),
    ]
}

/// The status line for a finished request, given what it was for; none when
/// the finished request was for something else.
pub open spec fn spec_status(operation: Option<InflightOperation>, response: ClientResponse, now: Timestamp) -> Seq<StatusInfo> {
    match (operation, response) {
        (Some(InflightOperation::AccessChange(kind)), ClientResponse::AccessChange { response, .. }) => seq![
            match response {
                AccessChangeResponse::Denied => StatusInfo::AcknowledgeFailure(StatusMessage::AccessDenied(kind)),
                AccessChangeResponse::Changed => StatusInfo::TimeoutSuccess(StatusMessage::AccessChanged(kind), now.spec_plus_seconds(10)),
                AccessChangeResponse::InternalError => StatusInfo::TimeoutSuccess(
                    StatusMessage::AccessServerError(kind),
                    now.spec_plus_seconds(10),
                ),
            },
        ],
        (Some(InflightOperation::AssetCreation(asset)), ClientResponse::AssetCreationFailed { error, .. }) => seq![
            StatusInfo::AcknowledgeFailure(
                match error {
                    AssetError::PermissionError => StatusMessage::AssetNotAllowed(asset),
                    AssetError::Invalid => StatusMessage::AssetInvalid(asset),
                    AssetError::Missing(missing) => StatusMessage::AssetMissing { asset, missing },
                    AssetError::UnknownKind => StatusMessage::AssetUnsupported(asset),
                    AssetError::DecodeFailure => StatusMessage::AssetCorrupt(asset),
                },
            ),
        ],
        (Some(InflightOperation::AssetCreation(asset)), ClientResponse::AssetCreationSucceeded { hash, .. }) => seq![
            StatusInfo::TimeoutSuccess(StatusMessage::AssetUploaded { asset, hash }, now.spec_plus_seconds(3)),
        ],
        (Some(InflightOperation::DirectMessage(recipient)), ClientResponse::DirectMessageReceipt { status, .. }) => match status {
            ReceiptStatus::Delivered => Seq::empty(),
            ReceiptStatus::Forbidden => seq![StatusInfo::AcknowledgeFailure(StatusMessage::MessageForbidden(recipient))],
            ReceiptStatus::Queued => seq![
                StatusInfo::TimeoutSuccess(StatusMessage::MessageQueued(recipient), now.spec_plus_seconds(5)),
            ],
            ReceiptStatus::InternalError => seq![StatusInfo::AcknowledgeFailure(StatusMessage::MessageServerError(recipient))],
            ReceiptStatus::UnknownRecipient => seq![StatusInfo::AcknowledgeFailure(StatusMessage::RecipientUnknown(recipient))],
        },
        (Some(InflightOperation::RealmCreation(realm)), ClientResponse::RealmCreation { status, .. }) => seq![
            match status {
                RealmCreationStatus::Created(principal) => StatusInfo::RealmLink(principal, StatusMessage::RealmCreated),
                RealmCreationStatus::InternalError => StatusInfo::AcknowledgeFailure(StatusMessage::RealmCreationError(realm)),
                RealmCreationStatus::TooManyRealms => StatusInfo::AcknowledgeFailure(StatusMessage::TooManyRealms(realm)),
                RealmCreationStatus::Duplicate => StatusInfo::AcknowledgeFailure(StatusMessage::RealmDuplicate(realm)),
            },
        ],
        (Some(InflightOperation::RealmDeletion(realm)), ClientResponse::RealmDeletion { ok, .. }) => seq![
            if ok {
                StatusInfo::TimeoutSuccess(StatusMessage::RealmDeleted(realm), now.spec_plus_seconds(10))
            } else {
                StatusInfo::AcknowledgeFailure(StatusMessage::RealmNotDeleted(realm))
            },
        ],
        _ => Seq::empty(),
    }
}

/// The number of the request a server message answers, if it answers one.
pub open spec fn answered(response: ClientResponse) -> Option<i32> {
    match response {
        ClientResponse::AccessChange { id, .. } => Some(id),
        ClientResponse::AssetCreationFailed { id, .. } => Some(id),
        ClientResponse::AssetCreationSucceeded { id, .. } => Some(id),
        ClientResponse::DirectMessageReceipt { id, .. } => Some(id),
        ClientResponse::RealmCreation { id, .. } => Some(id),
        ClientResponse::RealmDeletion { id, .. } => Some(id),
        _ => None,
    }
}

/// The requests still waited on after `response`.
pub open spec fn spec_inflight_after(inflight: Seq<InflightRequest>, response: ServerResponse) -> Seq<InflightRequest> {
    match response {
        ServerResponse::Deliver(message) => match answered(message) {
            Some(id) => spec_finish(inflight, id).1,
            None => inflight,
        },
        _ => inflight,
    }
}

/// Whether a character is alphabetic or numeric (`char::is_alphanumeric`).
pub uninterp spec fn char_alphanumeric(c: char) -> bool;

/// `char::is_alphanumeric`.
#[verifier::external_body]
fn is_alphanumeric(c: char) -> (r: bool)
    ensures
        r == char_alphanumeric(c),
{
    c.is_alphanumeric()
}

/// Every character of a name is alphabetic or numeric.
pub open spec fn all_alphanumeric(name: Seq<char>) -> bool {
    forall|i: int| 0 <= i < name.len() ==> char_alphanumeric(#[trigger] name[i])
}

/// The names of `assets` without the first one reading like `name`.
pub open spec fn without_name(assets: Seq<String>, name: String) -> Seq<String> {
    let k = choose|k: int| 0 <= k < assets.len() && assets[k]@ == name@ && forall|j: int| 0 <= j < k ==> assets[j]@ != name@;
    assets.remove(k)
}

/// The capabilities the client does not support, in order.
pub open spec fn unsupported(capabilities: Seq<String>) -> Seq<String> {
    capabilities.filter(lacking())
}

/// Whether the client lacks a capability.
pub open spec fn lacking() -> spec_fn(String) -> bool {
    |c: String| !supported(c@)
}

/// Whether `asset` is one of `assets`.
pub open spec fn holds_name(assets: Seq<String>, asset: String) -> bool {
    exists|i: int| 0 <= i < assets.len() && assets[i]@ == asset@
}

/// The names a loading screen is left waiting for after `response`: the
/// ones it waited for but the asset just received, or none when travelling
/// to a new realm begins.
pub open spec fn loading_names<R>(screen: ScreenState<R>, realm_state: RealmState, response: ServerResponse) -> Seq<String> {
    match (screen, realm_state, response) {
        (
            ScreenState::Loading { assets },
            RealmState::Active { .. },
            ServerResponse::Deliver(ClientResponse::Asset(name)),
        ) => if all_alphanumeric(name@) && holds_name(assets@, name) {
            without_name(assets@, name)
        } else {
            Seq::empty()
        },
        _ => Seq::empty(),
    }
}

/// What the client does with `response`: the screen it shows next (`None`
/// to keep the current one), the realm it is in next (`None` to stay), the
/// requests it sends, the status lines it adds and what it does outside its
/// screen. Fields the client starts out blank hold `empty`, a loading
/// screen's names are `loading`, and the capabilities a realm needs that the
/// client lacks are `missing`.
pub open spec fn spec_process_response<R>(
    screen: ScreenState<R>,
    realm_state: RealmState,
    inflight: Seq<InflightRequest>,
    response: ServerResponse,
    now: Timestamp,
    empty: String,
    loading: Vec<String>,
    missing: Vec<String>,
) -> (Option<ScreenState<R>>, Option<RealmState>, Seq<ServerRequest>, Seq<StatusInfo>, Seq<ClientAction>) {
    match response {
        ServerResponse::AuthMethod { insecure, server, player, scheme } => match scheme {
            AuthScheme::Password => (
                Some(ScreenState::PasswordLogin { insecure, server, player, password: empty, error_message: None }),
                None,
                Seq::empty(),
                Seq::empty(),
                Seq::empty(),
            ),
            AuthScheme::OpenIdConnect => (
                Some(ScreenState::Busy(BusyReason::OpenIdConnect)),
                None,
                seq![ServerRequest::OpenIdConnectLogin { insecure, server, player }],
                Seq::empty(),
                Seq::empty(),
            ),
            AuthScheme::Kerberos => (
                Some(ScreenState::Busy(BusyReason::Kerberos)),
                None,
                seq![ServerRequest::KerberosLogin { insecure, server, player }],
                Seq::empty(),
                Seq::empty(),
            ),
        },
        ServerResponse::AuthMethodFailed { insecure, server, player, error_message } => (
            Some(ScreenState::ServerSelection { insecure, server, player, error_message: Some(error_message) }),
            None,
            Seq::empty(),
            Seq::empty(),
            Seq::empty(),
        ),
        ServerResponse::AuthPasswordFailed { insecure, server, player, password, error_message } => (
            Some(ScreenState::PasswordLogin { insecure, server, player, password, error_message: Some(error_message) }),
            None,
            Seq::empty(),
            Seq::empty(),
            Seq::empty(),
        ),
        ServerResponse::Connected => (Some(ScreenState::Waiting), None, connected_requests(), Seq::empty(), Seq::empty()),
        ServerResponse::Disconnected => (
            Some(ScreenState::ServerSelection { insecure: false, server: empty, player: empty, error_message: None }),
            None,
            Seq::empty(),
            Seq::empty(),
            Seq::empty(),
        ),
        ServerResponse::Deliver(message) => match message {
            ClientResponse::Asset(name) => if !all_alphanumeric(name@) {
                (None, None, Seq::empty(), Seq::empty(), Seq::empty())
            } else {
                match (screen, realm_state) {
                    (ScreenState::Loading { assets }, RealmState::Active { asset, .. }) => if holds_name(assets@, name) {
                        (
                            Some(ScreenState::Loading { assets: loading }),
                            None,
                            Seq::empty(),
                            Seq::empty(),
                            if loading@.len() == 0 {
                                seq![ClientAction::StoreAsset(name), ClientAction::RereadRealmAsset(asset)]
                            } else {
                                seq![ClientAction::StoreAsset(name)]
                            },
                        )
                    } else {
                        (None, None, Seq::empty(), Seq::empty(), seq![ClientAction::StoreAsset(name)])
                    },
                    _ => (None, None, Seq::empty(), Seq::empty(), seq![ClientAction::StoreAsset(name)]),
                }
            },
            ClientResponse::AssetUnavailable(asset) => (
                match screen {
                    ScreenState::Loading { assets } => if !holds_name(assets@, asset) {
                        Some(ScreenState::Lost(RealmSelector::Player, Some(LostReason::AssetUnavailable(asset))))
                    } else {
                        None
                    },
                    _ => None,
                },
                None,
                Seq::empty(),
                Seq::empty(),
                Seq::empty(),
            ),
            ClientResponse::Disconnect => (None, None, Seq::empty(), Seq::empty(), seq![ClientAction::Exit]),
            ClientResponse::InTransit => (Some(ScreenState::InTransit), None, Seq::empty(), Seq::empty(), Seq::empty()),
            ClientResponse::RealmChanged(change) => match change {
                RealmChange::Denied => (
                    Some(ScreenState::Lost(RealmSelector::Local, Some(LostReason::CannotTravel))),
                    None,
                    Seq::empty(),
                    Seq::empty(),
                    Seq::empty(),
                ),
                RealmChange::Success { capabilities, name, asset, seed, settings, realm, server } => if missing@.len() == 0 {
                    (
                        Some(ScreenState::Loading { assets: loading }),
                        Some(RealmState::Active { name, asset, seed, settings, realm, server }),
                        Seq::empty(),
                        Seq::empty(),
                        seq![ClientAction::OpenRealmAsset { asset, realm }],
                    )
                } else {
                    (
                        Some(ScreenState::Lost(RealmSelector::Player, Some(LostReason::UnsupportedCapabilities(missing)))),
                        None,
                        Seq::empty(),
                        Seq::empty(),
                        Seq::empty(),
                    )
                },
            },
            _ => match answered(message) {
                Some(id) => (None, None, Seq::empty(), spec_status(spec_finish(inflight, id).0, message, now), Seq::empty()),
                None => (None, None, Seq::empty(), Seq::empty(), Seq::empty()),
            },
        },
    }
}

/// The capabilities of a realm the client must have and lacks, as
/// `process_response` compares them.
pub open spec fn realm_needs(response: ServerResponse) -> Seq<String> {
    match response {
        ServerResponse::Deliver(ClientResponse::RealmChanged(RealmChange::Success { capabilities, .. })) => unsupported(capabilities@),
        _ => Seq::empty(),
    }
}

/// Whether `asset` is one of `assets`.
fn holds(assets: &Vec<String>, asset: &String) -> (r: bool)
    ensures
        r == holds_name(assets@, *asset),
{
    let mut i: usize = 0;
    while i < assets.len()
        invariant
            i <= assets@.len(),
            forall|k: int| 0 <= k < i ==> assets@[k]@ != asset@,
        decreases assets@.len() - i,
    {
        if assets[i] == *asset {
            return true;
        }
        i = i + 1;
    }
    false
}

/// The status line for a finished request, given what it was for.
fn status_of(operation: Option<InflightOperation>, response: ClientResponse, now: Timestamp) -> (r: Vec<StatusInfo>)
    requires
        now.valid(),
        now.seconds + 10 <= MAX_SECONDS,
    ensures
        r@ == spec_status(operation, response, now),
{
    let line = match (operation, response) {
        (Some(InflightOperation::AccessChange(kind)), ClientResponse::AccessChange { response, .. }) => match response {
            AccessChangeResponse::Denied => StatusInfo::AcknowledgeFailure(StatusMessage::AccessDenied(kind)),
            AccessChangeResponse::Changed => StatusInfo::TimeoutSuccess(StatusMessage::AccessChanged(kind), now.plus_seconds(10)),
            AccessChangeResponse::InternalError => StatusInfo::TimeoutSuccess(
                StatusMessage::AccessServerError(kind),
                now.plus_seconds(10),
            ),
        },
        (Some(InflightOperation::AssetCreation(asset)), ClientResponse::AssetCreationFailed { error, .. }) => {
            StatusInfo::AcknowledgeFailure(
                match error {
                    AssetError::PermissionError => StatusMessage::AssetNotAllowed(asset),
                    AssetError::Invalid => StatusMessage::AssetInvalid(asset),
                    AssetError::Missing(missing) => StatusMessage::AssetMissing { asset, missing },
                    AssetError::UnknownKind => StatusMessage::AssetUnsupported(asset),
                    AssetError::DecodeFailure => StatusMessage::AssetCorrupt(asset),
                },
            )
        },
        (Some(InflightOperation::AssetCreation(asset)), ClientResponse::AssetCreationSucceeded { hash, .. }) => {
            StatusInfo::TimeoutSuccess(StatusMessage::AssetUploaded { asset, hash }, now.plus_seconds(3))
        },
        (Some(InflightOperation::DirectMessage(recipient)), ClientResponse::DirectMessageReceipt { status, .. }) => match status {
            ReceiptStatus::Delivered => {
                return Vec::new();
            },
            ReceiptStatus::Forbidden => StatusInfo::AcknowledgeFailure(StatusMessage::MessageForbidden(recipient)),
            ReceiptStatus::Queued => StatusInfo::TimeoutSuccess(StatusMessage::MessageQueued(recipient), now.plus_seconds(5)),
            ReceiptStatus::InternalError => StatusInfo::AcknowledgeFailure(StatusMessage::MessageServerError(recipient)),
            ReceiptStatus::UnknownRecipient => StatusInfo::AcknowledgeFailure(StatusMessage::RecipientUnknown(recipient)),
        },
        (Some(InflightOperation::RealmCreation(realm)), ClientResponse::RealmCreation { status, .. }) => match status {
            RealmCreationStatus::Created(principal) => StatusInfo::RealmLink(principal, StatusMessage::RealmCreated),
            RealmCreationStatus::InternalError => StatusInfo::AcknowledgeFailure(StatusMessage::RealmCreationError(realm)),
            RealmCreationStatus::TooManyRealms => StatusInfo::AcknowledgeFailure(StatusMessage::TooManyRealms(realm)),
            RealmCreationStatus::Duplicate => StatusInfo::AcknowledgeFailure(StatusMessage::RealmDuplicate(realm)),
        },
        (Some(InflightOperation::RealmDeletion(realm)), ClientResponse::RealmDeletion { ok, .. }) => {
            if ok {
                StatusInfo::TimeoutSuccess(StatusMessage::RealmDeleted(realm), now.plus_seconds(10))
            } else {
                StatusInfo::AcknowledgeFailure(StatusMessage::RealmNotDeleted(realm))
            }
        },
        _ => {
            return Vec::new();
        },
    };
    let mut lines: Vec<StatusInfo> = Vec::new();
    lines.push(line);
    proof {
        assert(lines@ =~= spec_status(operation, response, now));
    }
    lines
}

/// Whether every character of `name` is alphabetic or numeric.
fn is_alphanumeric_name(name: &String) -> (r: bool)
    ensures
        r == all_alphanumeric(name@),
{
    let n = name.as_str().unicode_len();
    let mut i: usize = 0;
    while i < n
        invariant
            n == name@.len(),
            i <= n,
            forall|k: int| 0 <= k < i ==> char_alphanumeric(#[trigger] name@[k]),
        decreases n - i,
    {
        let c = name.as_str().get_char(i);
        if !is_alphanumeric(c) {
            return false;
        }
        i = i + 1;
    }
    true
}

/// The names of `assets` without the first one reading like `name`, when
/// one does.
fn without(assets: &Vec<String>, name: &String) -> (r: Option<Vec<String>>)
    ensures
        r is Some <==> holds_name(assets@, *name),
        r matches Some(rest) ==> rest@ == without_name(assets@, *name),
{
    let mut i: usize = 0;
    while i < assets.len()
        invariant
            i <= assets@.len(),
            forall|k: int| 0 <= k < i ==> assets@[k]@ != name@,
        decreases assets@.len() - i,
    {
        if assets[i] == *name {
            let mut rest = assets.clone();
            proof {
                assert(rest@ =~= assets@) by {
                    assert forall|k: int| 0 <= k < assets@.len() implies rest@[k] == assets@[k] by {
                        assert(cloned::<String>(assets@[k], rest@[k]));
                    }
                }
                let k = choose|k: int|
                    0 <= k < assets@.len() && assets@[k]@ == name@ && forall|j: int| 0 <= j < k ==> assets@[j]@ != name@;
                assert(0 <= i < assets@.len() && assets@[i as int]@ == name@ && forall|j: int| 0 <= j < i ==> assets@[j]@ != name@);
                if k < i {
                    assert(assets@[k]@ != name@);
                }
                if k > i {
                    assert(assets@[i as int]@ != name@);
                }
            }
            rest.remove(i);
            return Some(rest);
        }
        i = i + 1;
    }
    None
}

/// The capabilities of `capabilities` the client does not support, in order.
fn unsupported_of(capabilities: &Vec<String>) -> (r: Vec<String>)
    ensures
        r@ == unsupported(capabilities@),
{
    let mut result: Vec<String> = Vec::new();
    let mut i: usize = 0;
    proof {
        assert(capabilities@.take(0) =~= Seq::<String>::empty());
    }
    while i < capabilities.len()
        invariant
            i <= capabilities@.len(),
            result@ == unsupported(capabilities@.take(i as int)),
        decreases capabilities@.len() - i,
    {
        proof {
            let next = capabilities@.take(i as int + 1);
            assert(next.drop_last() =~= capabilities@.take(i as int));
            assert(next.last() == capabilities@[i as int]);
            reveal(Seq::filter);
            assert(unsupported(next) == if lacking()(next.last()) {
                unsupported(next.drop_last()).push(next.last())
            } else {
                unsupported(next.drop_last())
            });
        }
        if find_supported(&capabilities[i]).is_none() {
            result.push(capabilities[i].clone());
        }
        i = i + 1;
    }
    proof {
        assert(capabilities@.take(i as int) =~= capabilities@);
    }
    result
}

/// Decides what the client does with `response` from its server
/// connection at `now`, showing `screen` in realm state `realm_state`: the
/// screen it shows next (`None` keeps the current one), the realm state it
/// moves to (`None` stays), the requests it sends, the status lines it adds
/// and what it does outside its screen; a response that answers a request
/// stops the wait for it.
pub fn process_response<R>(
    screen: &ScreenState<R>,
    realm_state: &RealmState,
    inflight: &mut InflightRequests,
    response: ServerResponse,
    now: Timestamp,
) -> (r: (Option<ScreenState<R>>, Option<RealmState>, Vec<ServerRequest>, Vec<StatusInfo>, Vec<ClientAction>))
    requires
        now.valid(),
        now.seconds + 10 <= MAX_SECONDS,
    ensures
        exists|empty: String, loading: Vec<String>, missing: Vec<String>|
            {
                &&& empty@ == Seq::<char>::empty()
                &&& loading@ == loading_names(*screen, *realm_state, response)
                &&& missing@ == realm_needs(response)
                &&& (r.0, r.1, r.2@, r.3@, r.4@) == spec_process_response(
                    *screen,
                    *realm_state,
                    old(inflight)@,
                    response,
                    now,
                    empty,
                    loading,
                    missing,
                )
            },
        final(inflight)@ == spec_inflight_after(old(inflight)@, response),
        final(inflight).next_number() == old(inflight).next_number(),
{
    let ghost original_response = response;
    let empty = String::new();
    let ghost blank = empty;
    let no_names: Vec<String> = Vec::new();
    let ghost mut loading_witness: Vec<String> = no_names;
    let ghost mut missing_witness: Vec<String> = no_names;
    let r = match response {
        ServerResponse::AuthMethod { insecure, server, player, scheme } => match scheme {
            AuthScheme::Password => (
                Some(ScreenState::PasswordLogin { insecure, server, player, password: empty, error_message: None }),
                None,
                Vec::new(),
                Vec::new(),
                Vec::new(),
            ),
            AuthScheme::OpenIdConnect => {
                let mut requests: Vec<ServerRequest> = Vec::new();
                requests.push(ServerRequest::OpenIdConnectLogin { insecure, server, player });
                (Some(ScreenState::Busy(BusyReason::OpenIdConnect)), None, requests, Vec::new(), Vec::new())
            },
            AuthScheme::Kerberos => {
                let mut requests: Vec<ServerRequest> = Vec::new();
                requests.push(ServerRequest::KerberosLogin { insecure, server, player });
                (Some(ScreenState::Busy(BusyReason::Kerberos)), None, requests, Vec::new(), Vec::new())
            },
        },
        ServerResponse::AuthMethodFailed { insecure, server, player, error_message } => (
            Some(ScreenState::ServerSelection { insecure, server, player, error_message: Some(error_message) }),
            None,
            Vec::new(),
            Vec::new(),
            Vec::new(),
        ),
        ServerResponse::AuthPasswordFailed { insecure, server, player, password, error_message } => (
            Some(ScreenState::PasswordLogin { insecure, server, player, password, error_message: Some(error_message) }),
            None,
            Vec::new(),
            Vec::new(),
            Vec::new(),
        ),
        ServerResponse::Connected => {
            let requests: Vec<ServerRequest> = vec![
                ServerRequest::Deliver(ClientRequest::Capabilities),
                ServerRequest::Deliver(ClientRequest::DirectMessageStats),
                ServerRequest::Deliver(ClientRequest::BookmarksGet(BookmarkType::ConsensualEmote)),
                ServerRequest::Deliver(ClientRequest::BookmarksGet(BookmarkType::DirectedEmote)),
                ServerRequest::Deliver(ClientRequest::BookmarksGet(BookmarkType::Emote)),
                ServerRequest::Deliver(ClientRequest::BookmarksGet(BookmarkType::Realm)),
                ServerRequest::Deliver(ClientRequest::BookmarksGet(BookmarkType::RealmAsset)),
                ServerRequest::Deliver(ClientRequest::BookmarksGet(BookmarkType::Server)),
            ];
            proof {
                assert(requests@ =~= connected_requests());
            }
            (Some(ScreenState::Waiting), None, requests, Vec::new(), Vec::new())
        },
        ServerResponse::Disconnected => (
            Some(ScreenState::ServerSelection { insecure: false, server: empty.clone(), player: empty, error_message: None }),
            None,
            Vec::new(),
            Vec::new(),
            Vec::new(),
        ),
        ServerResponse::Deliver(message) => match message {
            ClientResponse::Asset(name) => {
                if !is_alphanumeric_name(&name) {
                    (None, None, Vec::new(), Vec::new(), Vec::new())
                } else {
                    let mut actions: Vec<ClientAction> = Vec::new();
                    let next = match (screen, realm_state) {
                        (ScreenState::Loading { assets }, RealmState::Active { asset, .. }) => match without(assets, &name) {
                            Some(rest) => {
                                proof {
                                    loading_witness = rest;
                                }
                                let finished = rest.len() == 0;
                                actions.push(ClientAction::StoreAsset(name));
                                if finished {
                                    actions.push(ClientAction::RereadRealmAsset(asset.clone()));
                                }
                                Some(ScreenState::Loading { assets: rest })
                            },
                            None => {
                                actions.push(ClientAction::StoreAsset(name));
                                None
                            },
                        },
                        _ => {
                            actions.push(ClientAction::StoreAsset(name));
                            None
                        },
                    };
                    (next, None, Vec::new(), Vec::new(), actions)
                }
            },
            ClientResponse::AssetUnavailable(asset) => {
                let next = match screen {
                    ScreenState::Loading { assets } => {
                        if !holds(assets, &asset) {
                            Some(ScreenState::Lost(RealmSelector::Player, Some(LostReason::AssetUnavailable(asset))))
                        } else {
                            None
                        }
                    },
                    _ => None,
                };
                (next, None, Vec::new(), Vec::new(), Vec::new())
            },
            ClientResponse::Disconnect => {
                let mut actions: Vec<ClientAction> = Vec::new();
                actions.push(ClientAction::Exit);
                (None, None, Vec::new(), Vec::new(), actions)
            },
            ClientResponse::InTransit => (Some(ScreenState::InTransit), None, Vec::new(), Vec::new(), Vec::new()),
            ClientResponse::RealmChanged(change) => match change {
                RealmChange::Denied => (
                    Some(ScreenState::Lost(RealmSelector::Local, Some(LostReason::CannotTravel))),
                    None,
                    Vec::new(),
                    Vec::new(),
                    Vec::new(),
                ),
                RealmChange::Success { capabilities, name, asset, seed, settings, realm, server } => {
                    let missing = unsupported_of(&capabilities);
                    if missing.len() == 0 {
                        let loading: Vec<String> = Vec::new();
                        proof {
                            loading_witness = loading;
                            missing_witness = missing;
                        }
                        let mut actions: Vec<ClientAction> = Vec::new();
                        actions.push(ClientAction::OpenRealmAsset { asset: asset.clone(), realm: realm.clone() });
                        (
                            Some(ScreenState::Loading { assets: loading }),
                            Some(RealmState::Active { name, asset, seed, settings, realm, server }),
                            Vec::new(),
                            Vec::new(),
                            actions,
                        )
                    } else {
                        proof {
                            missing_witness = missing;
                        }
                        (
                            Some(ScreenState::Lost(RealmSelector::Player, Some(LostReason::UnsupportedCapabilities(missing)))),
                            None,
                            Vec::new(),
                            Vec::new(),
                            Vec::new(),
                        )
                    }
                },
            },
            ClientResponse::AccessChange { id, .. } | ClientResponse::AssetCreationFailed { id, .. }
            | ClientResponse::AssetCreationSucceeded { id, .. } | ClientResponse::DirectMessageReceipt { id, .. }
            | ClientResponse::RealmCreation { id, .. } | ClientResponse::RealmDeletion { id, .. } => {
                let operation = inflight.finish(id);
                (None, None, Vec::new(), status_of(operation, message, now), Vec::new())
            },
        },
    };
    proof {
        assert(loading_witness@ == loading_names(*screen, *realm_state, original_response));
        assert(missing_witness@ == realm_needs(original_response));
        assert((r.0, r.1, r.2@, r.3@, r.4@) == spec_process_response(
            *screen,
            *realm_state,
            old(inflight)@,
            original_response,
            now,
            blank,
            loading_witness,
            missing_witness,
        ));
    }
    r
}

/// The children of a realm asset the client does not hold, each once, in
/// the order they are listed; each child comes with whether it is held.
pub open spec fn missing_children(children: Seq<(String, bool)>) -> Seq<String>
    decreases children.len(),
{
    if children.len() == 0 {
        Seq::empty()
    } else {
        let before = missing_children(children.drop_last());
        let (name, held) = children.last();
        if !held && !holds_name(before, name) {
            before.push(name)
        } else {
            before
        }
    }
}

/// What the client does once it has read the realm asset `asset` of realm
/// `realm` it travelled to: `pulled` is the asset's children, each with
/// whether the client holds it, or why the asset could not be read. The
/// screen it shows next (`None` keeps the current one), the requests it
/// sends and what it does outside its screen; `missing` are the children it
/// lacks.
pub open spec fn spec_realm_asset_opened<R>(
    asset: String,
    realm: String,
    pulled: Result<Vec<(String, bool)>, LoadError>,
    missing: Vec<String>,
) -> (Option<ScreenState<R>>, Seq<ServerRequest>, Seq<ClientAction>) {
    match pulled {
        Err(LoadError::InternalError) => (
            Some(ScreenState::Lost(RealmSelector::Player, Some(LostReason::RealmAssetFailed { asset, realm }))),
            Seq::empty(),
            Seq::empty(),
        ),
        Err(_) => (None, seq![ServerRequest::Deliver(ClientRequest::AssetPull { id: asset })], Seq::empty()),
        Ok(children) => if missing@.len() == 0 {
            (Some(ScreenState::Waiting), Seq::empty(), seq![ClientAction::LoadRealm(asset)])
        } else {
            (
                Some(ScreenState::Loading { assets: missing }),
                missing@.map_values(|id: String| ServerRequest::Deliver(ClientRequest::AssetPull { id })),
                Seq::empty(),
            )
        },
    }
}

/// The children the client lacks, each once, in the order listed.
fn lacking_children(children: &Vec<(String, bool)>) -> (r: Vec<String>)
    ensures
        r@ == missing_children(children@),
{
    let mut result: Vec<String> = Vec::new();
    let mut i: usize = 0;
    proof {
        assert(children@.take(0) =~= Seq::<(String, bool)>::empty());
    }
    while i < children.len()
        invariant
            i <= children@.len(),
            result@ == missing_children(children@.take(i as int)),
        decreases children@.len() - i,
    {
        proof {
            assert(children@.take(i as int + 1).drop_last() =~= children@.take(i as int));
        }
        if !children[i].1 && !holds(&result, &children[i].0) {
            result.push(children[i].0.clone());
        }
        i = i + 1;
    }
    proof {
        assert(children@.take(i as int) =~= children@);
    }
    result
}

/// Decides what the client does once it has read the realm asset `asset`
/// of realm `realm` it travelled to (`ClientAction::OpenRealmAsset`):
/// `pulled` lists the asset's children, each with whether the client holds
/// it, or says why the asset could not be read. A missing or corrupt asset
/// is asked of the server, an internal error loses the way; otherwise the
/// missing children are asked for and waited on, or, with none missing, the
/// realm is built.
pub fn realm_asset_opened<R>(asset: String, realm: String, pulled: Result<Vec<(String, bool)>, LoadError>) -> (r: (
    Option<ScreenState<R>>,
    Vec<ServerRequest>,
    Vec<ClientAction>,
))
    ensures
        exists|missing: Vec<String>|
            {
                &&& (pulled matches Ok(children) ==> missing@ == missing_children(children@))
                &&& (r.0, r.1@, r.2@) == spec_realm_asset_opened::<R>(asset, realm, pulled, missing)
            },
{
    let ghost original = pulled;
    match pulled {
        Err(LoadError::InternalError) => {
            let r = (
                Some(ScreenState::Lost(RealmSelector::Player, Some(LostReason::RealmAssetFailed { asset, realm }))),
                Vec::new(),
                Vec::new(),
            );
            let none: Vec<String> = Vec::new();
            proof {
                assert((r.0, r.1@, r.2@) == spec_realm_asset_opened::<R>(asset, realm, original, none));
            }
            r
        },
        Err(_) => {
            let mut requests: Vec<ServerRequest> = Vec::new();
            requests.push(ServerRequest::Deliver(ClientRequest::AssetPull { id: asset }));
            let none: Vec<String> = Vec::new();
            proof {
                assert(requests@ =~= spec_realm_asset_opened::<R>(asset, realm, original, none).1);
            }
            (None, requests, Vec::new())
        },
        Ok(children) => {
            let missing = lacking_children(&children);
            let ghost kept = missing;
            if missing.len() == 0 {
                let mut actions: Vec<ClientAction> = Vec::new();
                actions.push(ClientAction::LoadRealm(asset));
                proof {
                    assert(actions@ =~= spec_realm_asset_opened::<R>(asset, realm, original, kept).2);
                }
                (Some(ScreenState::Waiting), Vec::new(), actions)
            } else {
                let mut requests: Vec<ServerRequest> = Vec::new();
                let mut i: usize = 0;
                while i < missing.len()
                    invariant
                        i <= missing@.len(),
                        requests@ == missing@.take(i as int).map_values(
                            |id: String| ServerRequest::Deliver(ClientRequest::AssetPull { id }),
                        ),
                    decreases missing@.len() - i,
                {
                    requests.push(ServerRequest::Deliver(ClientRequest::AssetPull { id: missing[i].clone() }));
                    proof {
                        assert(missing@.take(i as int + 1).map_values(
                            |id: String| ServerRequest::Deliver(ClientRequest::AssetPull { id }),
                        ) =~= requests@);
                    }
                    i = i + 1;
                }
                proof {
                    assert(missing@.take(i as int) =~= missing@);
                    assert((Some(ScreenState::<R>::Loading { assets: missing }), requests@, Seq::<ClientAction>::empty())
                        == spec_realm_asset_opened::<R>(asset, realm, original, kept));
                }
                (Some(ScreenState::Loading { assets: missing }), requests, Vec::new())
            }
        },
    }
}

/// Decides what the client does once it has read again the realm asset
/// `asset` whose parts have all arrived (`ClientAction::RereadRealmAsset`):
/// it builds the realm, or, when the asset cannot be read, loses the way.
pub fn realm_asset_reread<R>(asset: String, pulled: Result<(), LoadError>) -> (r: (ScreenState<R>, Vec<ClientAction>))
    ensures
        pulled matches Err(e) ==> r.0 == ScreenState::<R>::Lost(RealmSelector::Player, Some(LostReason::RealmAssetBroken(e)))
            && r.1@ == Seq::<ClientAction>::empty(),
        pulled is Ok ==> r.0 == ScreenState::<R>::Waiting && r.1@ == seq![ClientAction::LoadRealm(asset)],
{
    match pulled {
        Err(e) => (ScreenState::Lost(RealmSelector::Player, Some(LostReason::RealmAssetBroken(e))), Vec::new()),
        Ok(()) => {
            let mut actions: Vec<ClientAction> = Vec::new();
            actions.push(ClientAction::LoadRealm(asset));
            proof {
                assert(actions@ =~= seq![ClientAction::LoadRealm(asset)]);
            }
            (ScreenState::Waiting, actions)
        },
    }
}

/// Whether the status line stays at `now`. As the client's check is
/// written, a line with an instant stays while that instant lies before
/// `now`; the others always stay.
pub open spec fn status_stays(line: StatusInfo, now: Timestamp) -> bool {
    match line {
        StatusInfo::TimeoutFailure(_, t) => t.spec_before(now),
        StatusInfo::TimeoutSuccess(_, t) => t.spec_before(now),
        _ => true,
    }
}

/// The status lines of `lines` that stay at `now`, in order.
pub open spec fn staying(lines: Seq<StatusInfo>, now: Timestamp) -> Seq<StatusInfo>
    decreases lines.len(),
{
    if lines.len() == 0 {
        Seq::empty()
    } else if status_stays(lines.last(), now) {
        staying(lines.drop_last(), now).push(lines.last())
    } else {
        staying(lines.drop_last(), now)
    }
}

/// Drops the status lines that do not stay at `now`.
pub fn expire_statuses(lines: &mut Vec<StatusInfo>, now: Timestamp)
    ensures
        final(lines)@ == staying(old(lines)@, now),
{
    let ghost all = lines@;
    let mut rest: Vec<StatusInfo> = Vec::new();
    std::mem::swap(lines, &mut rest);
    let total: usize = rest.len();
    let mut k: usize = 0;
    proof {
        assert(all.take(0) =~= Seq::<StatusInfo>::empty());
    }
    while rest.len() > 0
        invariant
            k <= all.len(),
            all.len() == total,
            k + rest@.len() == all.len(),
            rest@ == all.skip(k as int),
            lines@ == staying(all.take(k as int), now),
        decreases rest@.len(),
    {
        let line = rest.remove(0);
        proof {
            assert(line == all[k as int]);
            assert(all.take(k as int + 1).drop_last() =~= all.take(k as int));
            assert(all.take(k as int + 1).last() == all[k as int]);
        }
        let stays = match &line {
            StatusInfo::TimeoutFailure(_, t) => t.before(&now),
            StatusInfo::TimeoutSuccess(_, t) => t.before(&now),
            _ => true,
        };
        if stays {
            lines.push(line);
        }
        k = k + 1;
        proof {
            assert(rest@ =~= all.skip(k as int));
        }
    }
    proof {
        assert(all.take(k as int) =~= all);
    }
}

/// The screen shown when the realm asset travelled to cannot be turned into
/// a realm: lost, back at the player's own realms, saying why.
pub fn realm_unusable<R>(error: AssetError) -> (r: ScreenState<R>)
    ensures
        r == ScreenState::<R>::Lost(RealmSelector::Player, Some(LostReason::RealmUnusable(error))),
{
    ScreenState::Lost(RealmSelector::Player, Some(LostReason::RealmUnusable(error)))
}

} // verus!
