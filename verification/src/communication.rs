//! Direct messages, announcements and invitations exchanged between players.

use vstd::prelude::*;
use crate::time::{MAX_SECONDS, Timestamp};

verus! {

/// When an announced event happens.
#[derive(Copy, Clone, Debug, PartialEq, Eq)]
pub enum AnnouncementTime {
    /// The event has no start, but the announcement expires.
    Until(Timestamp),
    /// The event starts at a time and lasts a number of minutes.
    Starts(Timestamp, u32),
}

/// A direct message between this player and another, carrying a body of
/// type `B`.
#[derive(Clone, Debug)]
pub struct DirectMessage<B> {
    /// Whether the message came to the player rather than from them.
    pub inbound: bool,
    /// What the message says.
    pub body: B,
    /// When the message was sent.
    pub timestamp: Timestamp,
}

/// When the messages with another player were last received and read.
#[derive(Copy, Clone, Debug)]
pub struct DirectMessageInfo {
    pub last_received: Timestamp,
    pub last_read: Option<Timestamp>,
}

/// What happened to a direct message that was sent.
#[derive(Copy, Clone, Debug, PartialEq, Eq)]
pub enum DirectMessageStatus {
    Delivered(Timestamp),
    UnknownRecipient,
    Queued,
    Forbidden,
    InternalError,
}

/// Why an invitation could not be created.
#[derive(Copy, Clone, Debug, PartialEq, Eq)]
pub enum InvitationError {
    NotAllowed,
    Closed,
    InternalError,
}

impl AnnouncementTime {
    /// When the announcement expires: its end, or its start plus its length.
    pub open spec fn spec_expires(self) -> Timestamp {
        match self {
            AnnouncementTime::Until(t) => t,
            AnnouncementTime::Starts(t, m) => t.spec_plus_seconds(m * 60),
        }
    }

    /// When the announcement expires; the end must stay in `chrono`'s range.
    pub fn expires(&self) -> (r: Timestamp)
        requires
            self matches AnnouncementTime::Starts(t, m) ==> t.seconds + m * 60 <= MAX_SECONDS && t.valid(),
        ensures
            r == self.spec_expires(),
    {
        match self {
            AnnouncementTime::Until(t) => *t,
            AnnouncementTime::Starts(t, m) => Timestamp { seconds: t.seconds + (*m as i64) * 60, nanos: t.nanos },
        }
    }
}

} // verus!
