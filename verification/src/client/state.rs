//! What the client's connection decides on each event from its server or
//! its user interface: the screen it shows next, the operations it stops
//! waiting for, the operations it records as failed, and what is left for
//! the rest of the client to do.

use vstd::prelude::*;
use crate::access::{AccessTarget, AccountLockState};
use crate::client::server::UpdateResult;
use crate::player::PlayerIdentifier;
use crate::time::Timestamp;

verus! {

/// An operation the client asked its server for. Operations on realms
/// carry the realm's access target (`R`) or the source of a realm list
/// (`L`).
#[derive(Clone, Debug)]
pub enum InflightOperation<R, L> {
    AccessChange(AccessTarget),
    AccessChangeLocation,
    AccountLock(String),
    Announcements,
    AssetCreation,
    Avatar,
    BookmarkChange,
    BookmarkList,
    Calendar,
    CalendarReset,
    DirectMessageSend(PlayerIdentifier),
    DirectMessageStats,
    InvitationCreation,
    PlayerLocation(PlayerIdentifier),
    PublicKey,
    RealmAccessChange(R),
    RealmAnnouncements,
    RealmCalendarChange,
    RealmCalendarList,
    RealmCreation,
    RealmDeletion,
    RealmList(L),
    RemoteServer,
}

/// An operation waited on and when it was asked for.
pub struct InflightRequest<R, L> {
    pub created: Timestamp,
    pub operation: InflightOperation<R, L>,
}

/// Why an operation failed. A failed train addition carries the server's
/// reason (`D`).
pub enum FailureReason<D> {
    /// The server's answer to a change, described as the server gave it.
    Update(UpdateResult),
    PermissionDenied,
    UnknownInternalError,
    AvatarNotUpdated,
    BookmarkNotUpdated,
    CalendarSubscriptionNotChanged,
    TrainAdd(D),
    InvalidRecipient,
    ContactForbidden,
    InternalError,
}

/// An operation that failed: when it was asked for, when it failed, why,
/// and what it was.
pub struct FailedOperation<R, L, D> {
    pub created: Timestamp,
    pub failed: Timestamp,
    pub reason: FailureReason<D>,
    pub operation: InflightOperation<R, L>,
}

/// What the server says of a direct message sent.
#[derive(Copy, Clone, Debug, PartialEq, Eq)]
pub enum MessageStatus {
    Delivered(Timestamp),
    UnknownRecipient,
    Queued(Timestamp),
    Forbidden,
    InternalError,
}

/// A direct message as the client lists it: received, sent, on its way, or
/// waiting for the server's receipt under its operation number. Bodies are
/// of type `B`.
pub enum ThreadMessage<B> {
    Incoming(B, Timestamp),
    Outgoing(B, Timestamp),
    InTransit(B, Timestamp),
    Pending(i32, B),
}

/// Where the server says the player now is. A realm carries its name, its
/// asset and the rest of its description (`D`).
pub enum LocationResponse<D> {
    Resolving,
    Realm { name: String, asset: String, details: D },
    Hosting,
    Guest { host: D },
    NoWhere,
    InternalError,
    PermissionDenied,
    ResolutionFailed,
    MissingCapabilities { capabilities: Vec<String> },
}

/// A response from the server whose handling decides on operations or the
/// screen; `Other` holds the rest, which only fill caches or go to the
/// current location.
pub enum ConnectionResponse<D> {
    AccountLockChange { id: i32, name: String, result: UpdateResult },
    AccountLockStatus { name: String, status: AccountLockState },
    AccessChange { id: i32, response: UpdateResult },
    AnnouncementUpdate { id: i32, result: UpdateResult },
    AvatarUpdate { id: i32, success: bool },
    BookmarkUpdate { id: i32, success: bool },
    CalendarUpdate { id: i32, result: UpdateResult },
    CalendarRealmChange { id: i32, success: bool },
    DirectMessageReceipt { id: i32, status: MessageStatus },
    Disconnect,
    LocationChange { location: LocationResponse<D> },
    PeersBannedUpdate { id: i32, result: UpdateResult },
    PlayerReset { id: i32, result: UpdateResult },
    PublicKeyUpdate { id: i32, result: UpdateResult },
    TrainAdd { id: i32, failure: Option<D> },
    Other(D),
}

/// An event the connection reacts to.
pub enum ConnectionEvent<D> {
    /// The server sent a response.
    Server(ConnectionResponse<D>),
    /// The server sent something that could not be read.
    ServerError(String),
    /// The server closed the connection.
    ServerQuit,
    /// The user interface asked for a login and the connection tried it:
    /// whether a password is wanted, or why it failed.
    LoginAttempt(Result<bool, String>),
    /// The user interface went away.
    UserInterfaceClosed,
}

/// Why the player is nowhere.
pub enum LostReason {
    InternalError,
    PermissionDenied,
    ResolutionFailed,
    MissingCapabilities(Vec<String>),
}

/// The screen the connection shows.
pub enum ConnectionScreen {
    Quit,
    Error(String),
    InTransit,
    /// Loading the realm with this name.
    Loading(String),
    Lost(Option<LostReason>),
    LoginPassword,
    /// In a world that the current location holds.
    InWorld,
}

/// What is left for the rest of the client to do.
pub enum ConnectionEffect<D> {
    /// Record the lock state of the account `name`.
    SetAccountLock(String, AccountLockState),
    /// Drop the connection to the server.
    Disconnect,
    /// Forget which assets were awaited for what, and go to the location
    /// (pulling the realm's asset when it is one).
    Travel(LocationResponse<D>),
    /// Settle the message to `player` waiting under operation `id` with
    /// `settle_direct_message`; a failure it reports is recorded with
    /// `record_failure`, for the operation asked for at `created`.
    SettleMessage { player: PlayerIdentifier, id: i32, status: MessageStatus, created: Timestamp },
    /// Hand the response to the caches or the current location.
    Forward(D),
    /// Stop running the connection.
    Stop,
}

/// The operations waited on, by number, the operations that failed, in the
/// order they failed, and the number the next operation gets.
pub struct Operations<R, L, D> {
    next_id: i32,
    outstanding: Vec<(i32, InflightRequest<R, L>)>,
    failed: Vec<FailedOperation<R, L, D>>,
}

/// The operations, as plain values.
pub struct OperationsModel<R, L, D> {
    pub next_id: i32,
    pub outstanding: Seq<(i32, InflightRequest<R, L>)>,
    pub failed: Seq<FailedOperation<R, L, D>>,
}

/// The first place at or after `i` of the operation numbered `id`.
pub open spec fn first_numbered<T>(entries: Seq<(i32, T)>, id: i32, i: int) -> int
    decreases entries.len() - i,
{
    if i < 0 || i >= entries.len() {
        entries.len() as int
    } else if entries[i].0 == id {
        i
    } else {
        first_numbered(entries, id, i + 1)
    }
}

proof fn lemma_first_numbered<T>(entries: Seq<(i32, T)>, id: i32, i: int)
    requires
        0 <= i,
    ensures
        first_numbered(entries, id, i) <= entries.len(),
        i <= entries.len() ==> i <= first_numbered(entries, id, i),
        first_numbered(entries, id, i) < entries.len() ==> entries[first_numbered(entries, id, i)].0 == id,
    decreases entries.len() - i,
{
    if i < entries.len() && entries[i].0 != id {
        lemma_first_numbered(entries, id, i + 1);
    }
}

/// Stops waiting on operation `id`: the operation, if it was waited on, and
/// what is left.
pub open spec fn spec_take<R, L>(
    outstanding: Seq<(i32, InflightRequest<R, L>)>,
    id: i32,
) -> (Option<InflightRequest<R, L>>, Seq<(i32, InflightRequest<R, L>)>) {
    let k = first_numbered(outstanding, id, 0);
    if k < outstanding.len() {
        (Some(outstanding[k].1), outstanding.remove(k))
    } else {
        (None, outstanding)
    }
}

/// The answer to operation `id`: when it was waited on, it no longer is, and
/// where `reason` gives a reason for it, it joins the failed operations,
/// failed at `now`.
pub open spec fn spec_settle<R, L, D>(
    m: OperationsModel<R, L, D>,
    id: i32,
    now: Timestamp,
    reason: spec_fn(InflightOperation<R, L>) -> Option<(FailureReason<D>, InflightOperation<R, L>)>,
) -> OperationsModel<R, L, D> {
    let (found, rest) = spec_take(m.outstanding, id);
    match found {
        None => m,
        Some(request) => match reason(request.operation) {
            None => OperationsModel { outstanding: rest, ..m },
            Some((why, operation)) => OperationsModel {
                outstanding: rest,
                failed: m.failed.push(FailedOperation { created: request.created, failed: now, reason: why, operation }),
                ..m
            },
        },
    }
}

/// The failure an unsuccessful update result records, with the operation.
pub open spec fn update_failure<R, L, D>(result: UpdateResult) -> spec_fn(InflightOperation<R, L>) -> Option<(FailureReason<D>, InflightOperation<R, L>)> {
    |op: InflightOperation<R, L>| if result is Success {
        None
    } else {
        Some((FailureReason::Update(result), op))
    }
}

/// The failure an unsuccessful change records, with the operation.
pub open spec fn success_failure<R, L, D>(success: bool, why: FailureReason<D>) -> spec_fn(InflightOperation<R, L>) -> Option<(FailureReason<D>, InflightOperation<R, L>)> {
    |op: InflightOperation<R, L>| if success {
        None
    } else {
        Some((why, op))
    }
}

/// The screen for a new location.
pub open spec fn location_screen<D>(location: LocationResponse<D>) -> ConnectionScreen {
    match location {
        LocationResponse::Resolving => ConnectionScreen::InTransit,
        LocationResponse::Realm { name, .. } => ConnectionScreen::Loading(name),
        LocationResponse::Hosting => ConnectionScreen::InWorld,
        LocationResponse::Guest { .. } => ConnectionScreen::InWorld,
        LocationResponse::NoWhere => ConnectionScreen::Lost(None),
        LocationResponse::InternalError => ConnectionScreen::Lost(Some(LostReason::InternalError)),
        LocationResponse::PermissionDenied => ConnectionScreen::Lost(Some(LostReason::PermissionDenied)),
        LocationResponse::ResolutionFailed => ConnectionScreen::Lost(Some(LostReason::ResolutionFailed)),
        LocationResponse::MissingCapabilities { capabilities } => ConnectionScreen::Lost(
            Some(LostReason::MissingCapabilities(capabilities)),
        ),
    }
}

/// Two screens are alike: the same, or lost for missing the same
/// capabilities.
pub open spec fn same_screen(a: Option<ConnectionScreen>, b: Option<ConnectionScreen>) -> bool {
    match (a, b) {
        (
            Some(ConnectionScreen::Lost(Some(LostReason::MissingCapabilities(x)))),
            Some(ConnectionScreen::Lost(Some(LostReason::MissingCapabilities(y)))),
        ) => x@ == y@,
        _ => a == b,
    }
}

/// What the connection does with `event` at `now`: the operations after it,
/// the screen to show (if it changes) and what is left to do.
pub open spec fn spec_connection_step<R, L, D>(m: OperationsModel<R, L, D>, event: ConnectionEvent<D>, now: Timestamp) -> (
    OperationsModel<R, L, D>,
    Option<ConnectionScreen>,
    Option<ConnectionEffect<D>>,
) {
    match event {
        ConnectionEvent::ServerError(e) => (m, Some(ConnectionScreen::Error(e)), None),
        ConnectionEvent::ServerQuit => (m, Some(ConnectionScreen::Quit), None),
        ConnectionEvent::LoginAttempt(Ok(true)) => (m, Some(ConnectionScreen::LoginPassword), None),
        ConnectionEvent::LoginAttempt(Ok(false)) => (m, Some(ConnectionScreen::InTransit), None),
        ConnectionEvent::LoginAttempt(Err(e)) => (m, Some(ConnectionScreen::Error(e)), None),
        ConnectionEvent::UserInterfaceClosed => (m, None, Some(ConnectionEffect::Stop)),
        ConnectionEvent::Server(response) => match response {
            ConnectionResponse::AccountLockChange { id, name, result } => {
                let (found, _) = spec_take(m.outstanding, id);
                (
                    spec_settle(m, id, now, update_failure(result)),
                    None,
                    if found is Some && !(result is Success) {
                        Some(ConnectionEffect::SetAccountLock(name, AccountLockState::Unknown))
                    } else {
                        None
                    },
                )
            },
            ConnectionResponse::AccountLockStatus { name, status } => (m, None, Some(ConnectionEffect::SetAccountLock(name, status))),
            ConnectionResponse::AccessChange { id, response } => (
                spec_settle(
                    m,
                    id,
                    now,
                    |op: InflightOperation<R, L>| match response {
                        UpdateResult::Success => None,
                        UpdateResult::NotAllowed => Some((FailureReason::PermissionDenied, op)),
                        UpdateResult::InternalError => Some((FailureReason::UnknownInternalError, op)),
                    },
                ),
                None,
                None,
            ),
            ConnectionResponse::AnnouncementUpdate { id, result } => (spec_settle(m, id, now, update_failure(result)), None, None),
            ConnectionResponse::AvatarUpdate { id, success } => (
                spec_settle(m, id, now, success_failure(success, FailureReason::AvatarNotUpdated)),
                None,
                None,
            ),
            ConnectionResponse::BookmarkUpdate { id, success } => (
                spec_settle(m, id, now, success_failure(success, FailureReason::BookmarkNotUpdated)),
                None,
                None,
            ),
            ConnectionResponse::CalendarUpdate { id, result } => (
                spec_settle(
                    m,
                    id,
                    now,
                    |op: InflightOperation<R, L>| if op is CalendarReset && !(result is Success) {
                        Some((FailureReason::Update(result), InflightOperation::RealmCalendarChange))
                    } else {
                        None
                    },
                ),
                None,
                None,
            ),
            ConnectionResponse::CalendarRealmChange { id, success } => (
                spec_settle(
                    m,
                    id,
                    now,
                    |op: InflightOperation<R, L>| if op is RealmCalendarChange && !success {
                        Some((FailureReason::CalendarSubscriptionNotChanged, InflightOperation::RealmCalendarChange))
                    } else {
                        None
                    },
                ),
                None,
                None,
            ),
            ConnectionResponse::DirectMessageReceipt { id, status } => {
                let (found, rest) = spec_take(m.outstanding, id);
                (
                    OperationsModel { outstanding: rest, ..m },
                    None,
                    match found {
                        Some(request) => match request.operation {
                            InflightOperation::DirectMessageSend(player) => Some(
                                ConnectionEffect::SettleMessage { player, id, status, created: request.created },
                            ),
                            _ => None,
                        },
                        None => None,
                    },
                )
            },
            ConnectionResponse::Disconnect => (m, Some(ConnectionScreen::Quit), Some(ConnectionEffect::Disconnect)),
            ConnectionResponse::LocationChange { location } => (
                m,
                Some(location_screen(location)),
                Some(ConnectionEffect::Travel(location)),
            ),
            ConnectionResponse::PeersBannedUpdate { id, result } => (spec_settle(m, id, now, update_failure(result)), None, None),
            ConnectionResponse::PlayerReset { id, result } => (spec_settle(m, id, now, update_failure(result)), None, None),
            ConnectionResponse::PublicKeyUpdate { id, result } => (spec_settle(m, id, now, update_failure(result)), None, None),
            ConnectionResponse::TrainAdd { id, failure } => (
                spec_settle(
                    m,
                    id,
                    now,
                    |op: InflightOperation<R, L>| match failure {
                        None => None,
                        Some(why) => Some((FailureReason::TrainAdd(why), op)),
                    },
                ),
                None,
                None,
            ),
            ConnectionResponse::Other(d) => (m, None, Some(ConnectionEffect::Forward(d))),
        },
    }
}

impl<R, L, D> Operations<R, L, D> {
    /// The operations as plain values.
    pub closed spec fn model(&self) -> OperationsModel<R, L, D> {
        OperationsModel { next_id: self.next_id, outstanding: self.outstanding@, failed: self.failed@ }
    }

    /// Nothing waited on and nothing failed; numbering starts at zero.
    pub fn new() -> (r: Self)
        ensures
            r.model() == (OperationsModel::<R, L, D> { next_id: 0, outstanding: Seq::empty(), failed: Seq::empty() }),
    {
        Operations { next_id: 0, outstanding: Vec::new(), failed: Vec::new() }
    }

    /// Waits on `operation`, asked for at `now`, returning its number;
    /// numbers wrap around after the largest.
    pub fn add_operation(&mut self, operation: InflightOperation<R, L>, now: Timestamp) -> (r: i32)
        ensures
            r == old(self).model().next_id,
            final(self).model() == (OperationsModel {
                next_id: old(self).model().next_id.wrapping_add(1),
                outstanding: old(self).model().outstanding.push((r, InflightRequest { created: now, operation })),
                failed: old(self).model().failed,
            }),
    {
        let id = self.next_id;
        self.next_id = id.wrapping_add(1);
        self.outstanding.push((id, InflightRequest { created: now, operation }));
        id
    }

    /// The operations that failed, in the order they failed.
    pub fn failed(&self) -> (r: &Vec<FailedOperation<R, L, D>>)
        ensures
            r@ == self.model().failed,
    {
        &self.failed
    }

    /// Stops waiting on operation `id`, handing it back.
    fn take(&mut self, id: i32) -> (r: Option<InflightRequest<R, L>>)
        ensures
            (r, final(self).model().outstanding) == spec_take(old(self).model().outstanding, id),
            final(self).model().failed == old(self).model().failed,
            final(self).model().next_id == old(self).model().next_id,
    {
        proof {
            lemma_first_numbered(self.outstanding@, id, 0);
        }
        let mut i: usize = 0;
        while i < self.outstanding.len()
            invariant
                i <= self.outstanding@.len(),
                self.outstanding@ == old(self).outstanding@,
                self.failed@ == old(self).failed@,
                self.next_id == old(self).next_id,
                first_numbered(self.outstanding@, id, 0) == first_numbered(self.outstanding@, id, i as int),
            decreases self.outstanding@.len() - i,
        {
            if self.outstanding[i].0 == id {
                let (_, request) = self.outstanding.remove(i);
                return Some(request);
            }
            i = i + 1;
        }
        None
    }

    /// Records `operation`, asked for at `created`, as failed at `now` for
    /// `reason`.
    pub fn record_failure(&mut self, created: Timestamp, now: Timestamp, reason: FailureReason<D>, operation: InflightOperation<R, L>)
        ensures
            final(self).model() == (OperationsModel {
                failed: old(self).model().failed.push(FailedOperation { created, failed: now, reason, operation }),
                ..old(self).model()
            }),
    {
        self.failed.push(FailedOperation { created, failed: now, reason, operation });
    }

    /// Settles operation `id` with an update result: recorded as failed
    /// unless it succeeded. Whether it was waited on.
    fn settle_update(&mut self, id: i32, result: UpdateResult, now: Timestamp) -> (r: bool)
        ensures
            final(self).model() == spec_settle(old(self).model(), id, now, update_failure::<R, L, D>(result)),
            r == spec_take(old(self).model().outstanding, id).0 is Some,
    {
        match self.take(id) {
            None => false,
            Some(request) => {
                match result {
                    UpdateResult::Success => {},
                    _ => self.record_failure(request.created, now, FailureReason::Update(result), request.operation),
                }
                true
            },
        }
    }

    /// Settles operation `id` with a yes or no: recorded as failed for `why`
    /// unless it succeeded.
    fn settle_success(&mut self, id: i32, success: bool, why: FailureReason<D>, now: Timestamp)
        ensures
            final(self).model() == spec_settle(old(self).model(), id, now, success_failure::<R, L, D>(success, why)),
    {
        match self.take(id) {
            None => {},
            Some(request) => {
                if !success {
                    self.record_failure(request.created, now, why, request.operation);
                }
            },
        }
    }
}

/// The screen for a new location.
fn screen_for<D>(location: &LocationResponse<D>) -> (r: ConnectionScreen)
    ensures
        same_screen(Some(r), Some(location_screen(*location))),
{
    match location {
        LocationResponse::Resolving => ConnectionScreen::InTransit,
        LocationResponse::Realm { name, .. } => ConnectionScreen::Loading(name.clone()),
        LocationResponse::Hosting => ConnectionScreen::InWorld,
        LocationResponse::Guest { .. } => ConnectionScreen::InWorld,
        LocationResponse::NoWhere => ConnectionScreen::Lost(None),
        LocationResponse::InternalError => ConnectionScreen::Lost(Some(LostReason::InternalError)),
        LocationResponse::PermissionDenied => ConnectionScreen::Lost(Some(LostReason::PermissionDenied)),
        LocationResponse::ResolutionFailed => ConnectionScreen::Lost(Some(LostReason::ResolutionFailed)),
        LocationResponse::MissingCapabilities { capabilities } => ConnectionScreen::Lost(
            Some(LostReason::MissingCapabilities(clone_names(capabilities))),
        ),
    }
}

/// A copy of a list of names.
fn clone_names(names: &Vec<String>) -> (r: Vec<String>)
    ensures
        r@ == names@,
{
    let mut r: Vec<String> = Vec::new();
    let mut i: usize = 0;
    while i < names.len()
        invariant
            i <= names@.len(),
            r@ == names@.take(i as int),
        decreases names@.len() - i,
    {
        r.push(names[i].clone());
        proof {
            assert(r@ =~= names@.take(i as int + 1));
        }
        i = i + 1;
    }
    proof {
        assert(r@ =~= names@);
    }
    r
}

/// Takes in `event` at `now`: settles the operation it answers, records a
/// failure where it reports one, and says which screen to show and what is
/// left to do.
pub fn connection_step<R, L, D>(ops: &mut Operations<R, L, D>, event: ConnectionEvent<D>, now: Timestamp) -> (r: (
    Option<ConnectionScreen>,
    Option<ConnectionEffect<D>>,
))
    ensures
        final(ops).model() == spec_connection_step(old(ops).model(), event, now).0,
        same_screen(r.0, spec_connection_step(old(ops).model(), event, now).1),
        r.1 == spec_connection_step(old(ops).model(), event, now).2,
{
    match event {
        ConnectionEvent::ServerError(e) => (Some(ConnectionScreen::Error(e)), None),
        ConnectionEvent::ServerQuit => (Some(ConnectionScreen::Quit), None),
        ConnectionEvent::LoginAttempt(Ok(true)) => (Some(ConnectionScreen::LoginPassword), None),
        ConnectionEvent::LoginAttempt(Ok(false)) => (Some(ConnectionScreen::InTransit), None),
        ConnectionEvent::LoginAttempt(Err(e)) => (Some(ConnectionScreen::Error(e)), None),
        ConnectionEvent::UserInterfaceClosed => (None, Some(ConnectionEffect::Stop)),
        ConnectionEvent::Server(response) => match response {
            ConnectionResponse::AccountLockChange { id, name, result } => {
                let found = ops.settle_update(id, result, now);
                let failed = match result {
                    UpdateResult::Success => false,
                    _ => true,
                };
                if found && failed {
                    (None, Some(ConnectionEffect::SetAccountLock(name, AccountLockState::Unknown)))
                } else {
                    (None, None)
                }
            },
            ConnectionResponse::AccountLockStatus { name, status } => (None, Some(ConnectionEffect::SetAccountLock(name, status))),
            ConnectionResponse::AccessChange { id, response } => {
                match ops.take(id) {
                    None => {},
                    Some(request) => match response {
                        UpdateResult::Success => {},
                        UpdateResult::NotAllowed => ops.record_failure(request.created, now, FailureReason::PermissionDenied, request.operation),
                        UpdateResult::InternalError => ops.record_failure(request.created, now, FailureReason::UnknownInternalError, request.operation),
                    },
                }
                (None, None)
            },
            ConnectionResponse::AnnouncementUpdate { id, result } => {
                ops.settle_update(id, result, now);
                (None, None)
            },
            ConnectionResponse::AvatarUpdate { id, success } => {
                ops.settle_success(id, success, FailureReason::AvatarNotUpdated, now);
                (None, None)
            },
            ConnectionResponse::BookmarkUpdate { id, success } => {
                ops.settle_success(id, success, FailureReason::BookmarkNotUpdated, now);
                (None, None)
            },
            ConnectionResponse::CalendarUpdate { id, result } => {
                match ops.take(id) {
                    None => {},
                    Some(request) => {
                        let failed = match result {
                            UpdateResult::Success => false,
                            _ => true,
                        };
                        match request.operation {
                            InflightOperation::CalendarReset => if failed {
                                ops.record_failure(request.created, now, FailureReason::Update(result), InflightOperation::RealmCalendarChange);
                            },
                            _ => {},
                        }
                    },
                }
                (None, None)
            },
            ConnectionResponse::CalendarRealmChange { id, success } => {
                match ops.take(id) {
                    None => {},
                    Some(request) => match request.operation {
                        InflightOperation::RealmCalendarChange => if !success {
                            ops.record_failure(
                                request.created,
                                now,
                                FailureReason::CalendarSubscriptionNotChanged,
                                InflightOperation::RealmCalendarChange,
                            );
                        },
                        _ => {},
                    },
                }
                (None, None)
            },
            ConnectionResponse::DirectMessageReceipt { id, status } => match ops.take(id) {
                Some(request) => match request.operation {
                    InflightOperation::DirectMessageSend(player) => (
                        None,
                        Some(ConnectionEffect::SettleMessage { player, id, status, created: request.created }),
                    ),
                    _ => (None, None),
                },
                None => (None, None),
            },
            ConnectionResponse::Disconnect => (Some(ConnectionScreen::Quit), Some(ConnectionEffect::Disconnect)),
            ConnectionResponse::LocationChange { location } => {
                let screen = screen_for(&location);
                (Some(screen), Some(ConnectionEffect::Travel(location)))
            },
            ConnectionResponse::PeersBannedUpdate { id, result } => {
                ops.settle_update(id, result, now);
                (None, None)
            },
            ConnectionResponse::PlayerReset { id, result } => {
                ops.settle_update(id, result, now);
                (None, None)
            },
            ConnectionResponse::PublicKeyUpdate { id, result } => {
                ops.settle_update(id, result, now);
                (None, None)
            },
            ConnectionResponse::TrainAdd { id, failure } => {
                match ops.take(id) {
                    None => {},
                    Some(request) => match failure {
                        None => {},
                        Some(why) => ops.record_failure(request.created, now, FailureReason::TrainAdd(why), request.operation),
                    },
                }
                (None, None)
            },
            ConnectionResponse::Other(d) => (None, Some(ConnectionEffect::Forward(d))),
        },
    }
}

/// An answer to an operation that is not waited on changes nothing.
pub proof fn lemma_unknown_answer_ignored<R, L, D>(
    m: OperationsModel<R, L, D>,
    id: i32,
    now: Timestamp,
    reason: spec_fn(InflightOperation<R, L>) -> Option<(FailureReason<D>, InflightOperation<R, L>)>,
)
    requires
        spec_take(m.outstanding, id).0 is None,
    ensures
        spec_settle(m, id, now, reason) == m,
{
}

/// An answered operation is no longer waited on, and at most one failure is
/// recorded for it.
pub proof fn lemma_answer_settles<R, L, D>(
    m: OperationsModel<R, L, D>,
    id: i32,
    now: Timestamp,
    reason: spec_fn(InflightOperation<R, L>) -> Option<(FailureReason<D>, InflightOperation<R, L>)>,
)
    requires
        spec_take(m.outstanding, id).0 is Some,
    ensures
        spec_settle(m, id, now, reason).outstanding.len() == m.outstanding.len() - 1,
        spec_settle(m, id, now, reason).failed.len() <= m.failed.len() + 1,
        spec_settle(m, id, now, reason).failed.take(m.failed.len() as int) == m.failed,
{
    lemma_first_numbered(m.outstanding, id, 0);
    let s = spec_settle(m, id, now, reason);
    assert(s.failed.take(m.failed.len() as int) =~= m.failed);
}

/// The first place at or after `i` of the message waiting under `id`.
pub open spec fn first_pending<B>(messages: Seq<ThreadMessage<B>>, id: i32, i: int) -> int
    decreases messages.len() - i,
{
    if i < 0 || i >= messages.len() {
        messages.len() as int
    } else if messages[i] matches ThreadMessage::Pending(n, _) && n == id {
        i
    } else {
        first_pending(messages, id, i + 1)
    }
}

proof fn lemma_first_pending<B>(messages: Seq<ThreadMessage<B>>, id: i32, i: int)
    requires
        0 <= i,
    ensures
        first_pending(messages, id, i) <= messages.len(),
        first_pending(messages, id, i) < messages.len() ==> (messages[first_pending(messages, id, i)] matches ThreadMessage::Pending(
            n,
            _,
        ) && n == id),
    decreases messages.len() - i,
{
    if i < messages.len() && !(messages[i] matches ThreadMessage::Pending(n, _) && n == id) {
        lemma_first_pending(messages, id, i + 1);
    }
}

/// What a receipt does to the messages listed for its recipient: the
/// message waiting under `id`, if any, leaves its place; a delivered one
/// comes back as sent at the delivery time and a queued one as on its way,
/// both at the end; any other receipt gives the reason the message failed.
pub open spec fn spec_settle_message<B, D>(messages: Seq<ThreadMessage<B>>, id: i32, status: MessageStatus) -> (
    Seq<ThreadMessage<B>>,
    Option<FailureReason<D>>,
) {
    let k = first_pending(messages, id, 0);
    if k < messages.len() {
        let body = match messages[k] {
            ThreadMessage::Pending(_, b) => b,
            ThreadMessage::Incoming(b, _) => b,
            ThreadMessage::Outgoing(b, _) => b,
            ThreadMessage::InTransit(b, _) => b,
        };
        let rest = messages.remove(k);
        match status {
            MessageStatus::Delivered(t) => (rest.push(ThreadMessage::Outgoing(body, t)), None),
            MessageStatus::Queued(t) => (rest.push(ThreadMessage::InTransit(body, t)), None),
            MessageStatus::UnknownRecipient => (rest, Some(FailureReason::InvalidRecipient)),
            MessageStatus::Forbidden => (rest, Some(FailureReason::ContactForbidden)),
            MessageStatus::InternalError => (rest, Some(FailureReason::InternalError)),
        }
    } else {
        (messages, None)
    }
}

/// Settles the message waiting under `id` in `messages`, the list for its
/// recipient, with the server's receipt; returns why it failed, if it did.
pub fn settle_direct_message<B, D>(messages: &mut Vec<ThreadMessage<B>>, id: i32, status: MessageStatus) -> (r: Option<
    FailureReason<D>,
>)
    ensures
        (final(messages)@, r) == spec_settle_message::<B, D>(old(messages)@, id, status),
{
    proof {
        lemma_first_pending(messages@, id, 0);
    }
    let mut i: usize = 0;
    while i < messages.len()
        invariant
            i <= messages@.len(),
            messages@ == old(messages)@,
            first_pending(messages@, id, 0) == first_pending(messages@, id, i as int),
        decreases messages@.len() - i,
    {
        let found = match &messages[i] {
            ThreadMessage::Pending(n, _) => *n == id,
            _ => false,
        };
        if found {
            let removed = messages.remove(i);
            let body = match removed {
                ThreadMessage::Pending(_, b) => b,
                ThreadMessage::Incoming(b, _) => b,
                ThreadMessage::Outgoing(b, _) => b,
                ThreadMessage::InTransit(b, _) => b,
            };
            return match status {
                MessageStatus::Delivered(t) => {
                    messages.push(ThreadMessage::Outgoing(body, t));
                    None
                },
                MessageStatus::Queued(t) => {
                    messages.push(ThreadMessage::InTransit(body, t));
                    None
                },
                MessageStatus::UnknownRecipient => Some(FailureReason::InvalidRecipient),
                MessageStatus::Forbidden => Some(FailureReason::ContactForbidden),
                MessageStatus::InternalError => Some(FailureReason::InternalError),
            };
        }
        i = i + 1;
    }
    None
}

} // verus!
