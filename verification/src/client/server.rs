//! What the client's connection to its server does with each response: the
//! cached values it replaces or drops, the requests it stops waiting for,
//! and what it tells the rest of the client.

use vstd::prelude::*;
use crate::client::direct_message::{DirectMessages, MessageFailure, TimeRange, extended, in_time_order, sorted_timed};
use crate::communication::{DirectMessage, DirectMessageStatus};
use crate::time::Timestamp;
pub use crate::player::{PlayerIdentifier, PlayerView};

verus! {

/// How the server answered a change the client asked for.
#[derive(Copy, Clone, Debug, PartialEq, Eq)]
pub enum UpdateResult {
    Success,
    NotAllowed,
    InternalError,
}

/// The first place at or after `i` that holds the number `id`.
pub open spec fn first_id<T>(entries: Seq<(u32, T)>, id: u32, i: int) -> int
    decreases entries.len() - i,
{
    if i >= entries.len() {
        entries.len() as int
    } else if entries[i].0 == id {
        i
    } else {
        first_id(entries, id, i + 1)
    }
}

/// The first place at or after `i` that holds the player `key`.
pub open spec fn first_player<V>(entries: Seq<(PlayerIdentifier, V)>, key: PlayerView, i: int) -> int
    decreases entries.len() - i,
{
    if i >= entries.len() {
        entries.len() as int
    } else if entries[i].0@ == key {
        i
    } else {
        first_player(entries, key, i + 1)
    }
}

/// The place found holds the number sought, and lies between `i` and the end.
proof fn lemma_first_id<T>(entries: Seq<(u32, T)>, id: u32, i: int)
    requires
        0 <= i,
    ensures
        i <= first_id(entries, id, i) <= entries.len() || (i > entries.len() && first_id(entries, id, i) == entries.len()),
        first_id(entries, id, i) < entries.len() ==> entries[first_id(entries, id, i)].0 == id,
    decreases entries.len() - i,
{
    if i < entries.len() && entries[i].0 != id {
        lemma_first_id(entries, id, i + 1);
    }
}

/// The place found holds the player sought, and lies between `i` and the end.
proof fn lemma_first_player<V>(entries: Seq<(PlayerIdentifier, V)>, key: PlayerView, i: int)
    requires
        0 <= i,
    ensures
        i <= first_player(entries, key, i) <= entries.len() || (i > entries.len() && first_player(entries, key, i) == entries.len()),
        first_player(entries, key, i) < entries.len() ==> entries[first_player(entries, key, i)].0@ == key,
    decreases entries.len() - i,
{
    if i < entries.len() && !(entries[i].0@ == key) {
        lemma_first_player(entries, key, i + 1);
    }
}

/// The requests waited on, each under the number it was sent with, and the
/// number the next one gets.
pub struct Tracking<T> {
    pub next: u32,
    pub entries: Seq<(u32, T)>,
}

/// What is held under number `id`: the first entry with that number.
pub open spec fn held_under<T>(t: Tracking<T>, id: u32) -> Option<T> {
    let k = first_id(t.entries, id, 0);
    if k < t.entries.len() {
        Some(t.entries[k].1)
    } else {
        None
    }
}

/// Stops waiting on number `id`: what was held under it, and what is left.
pub open spec fn spec_finish<T>(t: Tracking<T>, id: u32) -> (Option<T>, Tracking<T>) {
    let k = first_id(t.entries, id, 0);
    if k < t.entries.len() {
        (Some(t.entries[k].1), Tracking { next: t.next, entries: t.entries.remove(k) })
    } else {
        (None, t)
    }
}

/// Requests sent to the server and not yet answered, each kept with what
/// the client wants done with the answer.
pub struct TrackingMap<T> {
    next: u32,
    entries: Vec<(u32, T)>,
}

impl<T> View for TrackingMap<T> {
    type V = Tracking<T>;

    closed spec fn view(&self) -> Tracking<T> {
        Tracking { next: self.next, entries: self.entries@ }
    }
}

impl<T> TrackingMap<T> {
    /// Nothing waited on; numbering starts at zero.
    pub fn new() -> (r: Self)
        ensures
            r@ == (Tracking { next: 0, entries: Seq::<(u32, T)>::empty() }),
    {
        TrackingMap { next: 0, entries: Vec::new() }
    }

    /// Waits on a new request with `value`, returning the number to send it
    /// with; numbers wrap around after the largest.
    pub fn add(&mut self, value: T) -> (r: u32)
        ensures
            r == old(self)@.next,
            final(self)@ == (Tracking { next: old(self)@.next.wrapping_add(1), entries: old(self)@.entries.push((r, value)) }),
    {
        let id = self.next;
        self.next = id.wrapping_add(1);
        self.entries.push((id, value));
        id
    }

    /// The place of number `id`, or the length when it is not waited on.
    fn position(&self, id: u32) -> (r: usize)
        ensures
            r == first_id(self@.entries, id, 0),
            r < self@.entries.len() ==> self@.entries[r as int].0 == id,
    {
        proof {
            lemma_first_id(self.entries@, id, 0);
        }
        let mut i: usize = 0;
        while i < self.entries.len()
            invariant
                i <= self.entries@.len(),
                first_id(self.entries@, id, 0) == first_id(self.entries@, id, i as int),
            decreases self.entries@.len() - i,
        {
            if self.entries[i].0 == id {
                return i;
            }
            i = i + 1;
        }
        i
    }

    /// Stops waiting on number `id`, handing back what was kept with it.
    pub fn finish(&mut self, id: u32) -> (r: Option<T>)
        ensures
            (r, final(self)@) == spec_finish(old(self)@, id),
    {
        let k = self.position(id);
        if k < self.entries.len() {
            let (_, value) = self.entries.remove(k);
            Some(value)
        } else {
            None
        }
    }

    /// What is kept with number `id`, which stays waited on.
    pub fn get(&self, id: u32) -> (r: Option<&T>)
        ensures
            match r {
                Some(v) => held_under(self@, id) == Some(*v),
                None => held_under(self@, id) is None,
            },
    {
        let k = self.position(id);
        if k < self.entries.len() {
            Some(&self.entries[k].1)
        } else {
            None
        }
    }
}

/// A direct message sent and not yet settled: its body, what the server
/// last said of it, and its recipient.
pub struct OutstandingMessage<B> {
    pub body: B,
    pub status: DirectMessageStatus,
    pub player: PlayerIdentifier,
}

impl<B> TrackingMap<OutstandingMessage<B>> {
    /// Waits on a direct message with `body` sent to `player`, which starts
    /// out queued, returning the number to send it with.
    pub fn send(&mut self, player: PlayerIdentifier, body: B) -> (r: u32)
        ensures
            r == old(self)@.next,
            final(self)@ == (Tracking {
                next: old(self)@.next.wrapping_add(1),
                entries: old(self)@.entries.push((r, OutstandingMessage { body, status: DirectMessageStatus::Queued, player })),
            }),
    {
        self.add(OutstandingMessage { body, status: DirectMessageStatus::Queued, player })
    }
}

/// Marks the message sent under number `id` as `status`.
pub open spec fn spec_mark<B>(t: Tracking<OutstandingMessage<B>>, id: u32, status: DirectMessageStatus) -> Tracking<OutstandingMessage<B>> {
    let k = first_id(t.entries, id, 0);
    if k < t.entries.len() {
        let o = t.entries[k].1;
        Tracking {
            next: t.next,
            entries: t.entries.update(k, (id, OutstandingMessage { body: o.body, status, player: o.player })),
        }
    } else {
        t
    }
}

impl<B> TrackingMap<OutstandingMessage<B>> {
    /// Records `status` for the message sent under number `id`, which stays
    /// waited on, and hands back its recipient.
    pub fn mark(&mut self, id: u32, status: DirectMessageStatus) -> (r: Option<PlayerIdentifier>)
        ensures
            final(self)@ == spec_mark(old(self)@, id, status),
            r == (match held_under(old(self)@, id) {
                Some(o) => Some(o.player),
                None => None::<PlayerIdentifier>,
            }),
    {
        let k = self.position(id);
        if k < self.entries.len() {
            let (n, o) = self.entries.remove(k);
            let player = o.player.clone();
            self.entries.insert(k, (n, OutstandingMessage { body: o.body, status, player: o.player }));
            proof {
                assert(self.entries@ =~= old(self).entries@.update(
                    k as int,
                    (id, OutstandingMessage { body: o.body, status, player: o.player }),
                ));
            }
            Some(player)
        } else {
            None
        }
    }
}

/// A value the server sent and when it came, or nothing where none came or
/// the value was dropped.
pub struct Cache<C> {
    value: Option<(Timestamp, C)>,
}

impl<C> View for Cache<C> {
    type V = Option<(Timestamp, C)>;

    closed spec fn view(&self) -> Option<(Timestamp, C)> {
        self.value
    }
}

impl<C> Cache<C> {
    /// Nothing held.
    pub fn new() -> (r: Self)
        ensures
            r@ is None,
    {
        Cache { value: None }
    }

    /// Holds `value`, which came at `now`.
    pub fn set(&mut self, value: C, now: Timestamp)
        ensures
            final(self)@ == Some((now, value)),
    {
        self.value = Some((now, value));
    }

    /// Drops what is held, so that it is asked for again.
    pub fn invalidate(&mut self)
        ensures
            final(self)@ is None,
    {
        self.value = None;
    }

    /// Whether the value should be asked for again at `now`: nothing is
    /// held, or more than `stale_seconds` have passed since it came.
    pub fn needs_refresh(&self, now: Timestamp, stale_seconds: u32) -> (r: bool)
        ensures
            r == match self@ {
                None => true,
                Some((came, _)) => now.total_nanos() - came.total_nanos() > stale_seconds * 1_000_000_000,
            },
    {
        match &self.value {
            None => true,
            Some((came, _)) => {
                let seconds: i128 = now.seconds as i128 - came.seconds as i128;
                let nanos: i128 = now.nanos as i128 - came.nanos as i128;
                let limit: i128 = stale_seconds as i128 * 1_000_000_000;
                assert(-0x1_0000_0000_0000_0000 <= seconds <= 0x1_0000_0000_0000_0000);
                let elapsed: i128 = seconds * 1_000_000_000 + nanos;
                assert(elapsed == now.total_nanos() - came.total_nanos()) by (nonlinear_arith)
                    requires
                        seconds == now.seconds - came.seconds,
                        nanos == now.nanos - came.nanos,
                        elapsed == seconds * 1_000_000_000 + nanos,
                ;
                elapsed > limit
            },
        }
    }

    /// The value held and when it came.
    pub fn current(&self) -> (r: Option<&(Timestamp, C)>)
        ensures
            match r {
                Some(v) => self@ == Some(*v),
                None => self@ is None,
            },
    {
        self.value.as_ref()
    }
}

/// Sets the value held for `key`: the first entry for that player gets
/// `value`, or the player joins at the end.
pub open spec fn spec_table_insert<V>(entries: Seq<(PlayerIdentifier, V)>, key: PlayerIdentifier, value: V) -> Seq<(PlayerIdentifier, V)> {
    let k = first_player(entries, key@, 0);
    if k < entries.len() {
        entries.update(k, (entries[k].0, value))
    } else {
        entries.push((key, value))
    }
}

/// A value for each player, found by the player's names.
pub struct PlayerTable<V> {
    entries: Vec<(PlayerIdentifier, V)>,
}

impl<V> View for PlayerTable<V> {
    type V = Seq<(PlayerIdentifier, V)>;

    closed spec fn view(&self) -> Seq<(PlayerIdentifier, V)> {
        self.entries@
    }
}

impl<V> PlayerTable<V> {
    /// No players.
    pub fn new() -> (r: Self)
        ensures
            r@ == Seq::<(PlayerIdentifier, V)>::empty(),
    {
        PlayerTable { entries: Vec::new() }
    }

    /// The place of `key`, or the length when it has no entry.
    fn position(&self, key: &PlayerIdentifier) -> (r: usize)
        ensures
            r == first_player(self@, key@, 0),
            r <= self@.len(),
            r < self@.len() ==> self@[r as int].0@ == key@,
    {
        proof {
            lemma_first_player(self.entries@, key@, 0);
        }
        let mut i: usize = 0;
        while i < self.entries.len()
            invariant
                i <= self.entries@.len(),
                first_player(self.entries@, key@, 0) == first_player(self.entries@, key@, i as int),
            decreases self.entries@.len() - i,
        {
            if self.entries[i].0.same(key) {
                return i;
            }
            i = i + 1;
        }
        i
    }

    /// Sets the value held for `key`.
    pub fn insert(&mut self, key: PlayerIdentifier, value: V)
        ensures
            final(self)@ == spec_table_insert(old(self)@, key, value),
    {
        let k = self.position(&key);
        if k < self.entries.len() {
            let (held, _) = self.entries.remove(k);
            self.entries.insert(k, (held, value));
            proof {
                assert(self.entries@ =~= old(self).entries@.update(k as int, (old(self).entries@[k as int].0, value)));
            }
        } else {
            self.entries.push((key, value));
        }
    }

    /// The value held for `key`.
    pub fn get(&self, key: &PlayerIdentifier) -> (r: Option<&V>)
        ensures
            match r {
                Some(v) => first_player(self@, key@, 0) < self@.len() && *v == self@[first_player(self@, key@, 0)].1,
                None => first_player(self@, key@, 0) == self@.len(),
            },
    {
        let k = self.position(key);
        if k < self.entries.len() {
            Some(&self.entries[k].1)
        } else {
            None
        }
    }
}

/// The messages held for one player, in time order, and the spans of time
/// asked for.
pub type Conversation<B> = (Seq<DirectMessage<B>>, Seq<TimeRange>);

/// Both parts of every conversation are in time order.
pub open spec fn conversations_ordered<B>(entries: Seq<(PlayerIdentifier, Conversation<B>)>) -> bool {
    forall|i: int| 0 <= i < entries.len() ==> in_time_order(#[trigger] entries[i].1.0) && in_time_order(entries[i].1.1)
}

/// Takes in `message`, sent or received with `player`: the conversation with
/// that player, or a new one at the end, gets it as `DirectMessages::add`
/// does.
pub open spec fn spec_book_add<B>(
    entries: Seq<(PlayerIdentifier, Conversation<B>)>,
    player: PlayerIdentifier,
    message: DirectMessage<B>,
) -> Seq<(PlayerIdentifier, Conversation<B>)> {
    let k = first_player(entries, player@, 0);
    if k < entries.len() {
        let c = entries[k].1;
        entries.update(k, (entries[k].0, (sorted_timed(c.0.push(message)), extended(c.1, message.timestamp))))
    } else {
        entries.push((player, (sorted_timed(seq![message]), extended(Seq::empty(), message.timestamp))))
    }
}

/// Takes in the messages with `player` from `from` to `to`, as
/// `DirectMessages::add_range` does, starting a conversation at the end
/// where none was held.
pub open spec fn spec_book_add_range<B>(
    entries: Seq<(PlayerIdentifier, Conversation<B>)>,
    player: PlayerIdentifier,
    from: Timestamp,
    to: Timestamp,
    messages: Seq<DirectMessage<B>>,
) -> Seq<(PlayerIdentifier, Conversation<B>)> {
    let k = first_player(entries, player@, 0);
    let range = TimeRange { start: from, end: to };
    if k < entries.len() {
        let c = entries[k].1;
        entries.update(k, (entries[k].0, (sorted_timed(c.0 + messages), sorted_timed(c.1.push(range)))))
    } else {
        entries.push((player, (sorted_timed(messages), sorted_timed(seq![range]))))
    }
}

/// The direct messages held for each player the client has talked with.
pub struct MessageBook<B> {
    entries: Vec<(PlayerIdentifier, DirectMessages<B>)>,
}

impl<B> View for MessageBook<B> {
    type V = Seq<(PlayerIdentifier, Conversation<B>)>;

    closed spec fn view(&self) -> Seq<(PlayerIdentifier, Conversation<B>)> {
        self.entries@.map_values(|e: (PlayerIdentifier, DirectMessages<B>)| (e.0, (e.1.messages(), e.1.ranges())))
    }
}

impl<B> MessageBook<B> {
    /// Every conversation is in time order.
    pub open spec fn wf(&self) -> bool {
        conversations_ordered(self@)
    }

    /// No conversations.
    pub fn new() -> (r: Self)
        ensures
            r@ == Seq::<(PlayerIdentifier, Conversation<B>)>::empty(),
            r.wf(),
    {
        let r = MessageBook { entries: Vec::new() };
        assert(r@ =~= Seq::<(PlayerIdentifier, Conversation<B>)>::empty());
        r
    }

    /// The place of `key`, or the length when there is no conversation with it.
    fn position(&self, key: &PlayerIdentifier) -> (r: usize)
        ensures
            r == first_player(self@, key@, 0),
            r <= self@.len(),
            r < self@.len() ==> self@[r as int].0@ == key@,
            self@.len() == self.entries@.len(),
    {
        proof {
            lemma_first_player(self@, key@, 0);
        }
        let mut i: usize = 0;
        while i < self.entries.len()
            invariant
                i <= self.entries@.len(),
                self@.len() == self.entries@.len(),
                first_player(self@, key@, 0) == first_player(self@, key@, i as int),
            decreases self.entries@.len() - i,
        {
            assert(self@[i as int].0 == self.entries@[i as int].0);
            if self.entries[i].0.same(key) {
                return i;
            }
            i = i + 1;
        }
        i
    }

    /// The conversation with `player`.
    pub fn get(&self, player: &PlayerIdentifier) -> (r: Option<&DirectMessages<B>>)
        ensures
            match r {
                Some(dm) => first_player(self@, player@, 0) < self@.len()
                    && (dm.messages(), dm.ranges()) == self@[first_player(self@, player@, 0)].1,
                None => first_player(self@, player@, 0) == self@.len(),
            },
    {
        let k = self.position(player);
        if k < self.entries.len() {
            Some(&self.entries[k].1)
        } else {
            None
        }
    }

    /// Takes out the conversation with `player`, or a new one, leaving its
    /// place to be filled again.
    fn take(&mut self, player: PlayerIdentifier) -> (r: (usize, PlayerIdentifier, DirectMessages<B>))
        requires
            old(self).wf(),
        ensures
            r.0 == first_player(old(self)@, player@, 0),
            r.0 < old(self)@.len() ==> final(self)@ == old(self)@.remove(r.0 as int) && r.1 == old(self)@[r.0 as int].0
                && r.2.messages() == old(self)@[r.0 as int].1.0 && r.2.ranges() == old(self)@[r.0 as int].1.1,
            r.0 == old(self)@.len() ==> final(self)@ == old(self)@ && r.1 == player
                && r.2.messages() == Seq::<DirectMessage<B>>::empty() && r.2.ranges() == Seq::<TimeRange>::empty(),
            r.0 <= old(self)@.len(),
            r.2.wf(),
            final(self).wf(),
    {
        let k = self.position(&player);
        if k < self.entries.len() {
            let (p, dm) = self.entries.remove(k);
            proof {
                assert(self@ =~= old(self)@.remove(k as int));
                assert(old(self)@[k as int].1 == (dm.messages(), dm.ranges()));
                assert forall|i: int| 0 <= i < self@.len() implies in_time_order(#[trigger] self@[i].1.0) && in_time_order(self@[i].1.1) by {
                    if i < k {
                        assert(self@[i] == old(self)@[i]);
                    } else {
                        assert(self@[i] == old(self)@[i + 1]);
                    }
                }
            }
            (k, p, dm)
        } else {
            (k, player, DirectMessages::new())
        }
    }

    /// Puts back a conversation where `take` left its place.
    fn put(&mut self, k: usize, player: PlayerIdentifier, dm: DirectMessages<B>)
        requires
            old(self).wf(),
            dm.wf(),
            k <= old(self)@.len(),
        ensures
            final(self)@ == old(self)@.insert(k as int, (player, (dm.messages(), dm.ranges()))),
            final(self).wf(),
    {
        proof {
            assert(self@.len() == self.entries@.len());
        }
        self.entries.insert(k, (player, dm));
        proof {
            let x = (player, (dm.messages(), dm.ranges()));
            assert(self@ =~= old(self)@.insert(k as int, x));
            assert forall|i: int| 0 <= i < self@.len() implies in_time_order(#[trigger] self@[i].1.0) && in_time_order(self@[i].1.1) by {
                if i < k {
                    assert(self@[i] == old(self)@[i]);
                } else if i > k {
                    assert(self@[i] == old(self)@[i - 1]);
                }
            }
        }
    }

    /// Takes in `message`, sent or received with `player`.
    pub fn add(&mut self, player: PlayerIdentifier, message: DirectMessage<B>)
        requires
            old(self).wf(),
        ensures
            final(self).wf(),
            final(self)@ == spec_book_add(old(self)@, player, message),
    {
        let ghost timestamp = message.timestamp;
        let (k, p, mut dm) = self.take(player);
        dm.add(message);
        self.put(k, p, dm);
        proof {
            if k < old(self)@.len() {
                assert(self@ =~= spec_book_add(old(self)@, player, message));
            } else {
                assert(Seq::<DirectMessage<B>>::empty().push(message) =~= seq![message]);
                assert(self@ =~= spec_book_add(old(self)@, player, message));
            }
        }
    }

    /// Takes in the messages with `player` from `from` to `to`.
    pub fn add_range(&mut self, player: PlayerIdentifier, from: Timestamp, to: Timestamp, messages: Vec<DirectMessage<B>>)
        requires
            old(self).wf(),
        ensures
            final(self).wf(),
            final(self)@ == spec_book_add_range(old(self)@, player, from, to, messages@),
    {
        let ghost added = messages@;
        let (k, p, mut dm) = self.take(player);
        dm.add_range(from, to, messages);
        self.put(k, p, dm);
        proof {
            let range = TimeRange { start: from, end: to };
            if k < old(self)@.len() {
                assert(self@ =~= spec_book_add_range(old(self)@, player, from, to, added));
            } else {
                assert(Seq::<DirectMessage<B>>::empty() + added =~= added);
                assert(Seq::<TimeRange>::empty().push(range) =~= seq![range]);
                assert(self@ =~= spec_book_add_range(old(self)@, player, from, to, added));
            }
        }
    }
}

/// A response from the server, as the connection takes it in. Values the
/// connection only stores or passes on are of type `D`; message bodies are
/// of type `B`.
pub enum ClientResponse<D, B> {
    AccessChange { id: u32, result: UpdateResult },
    Activity { id: u32, activity: D },
    Announcements { announcements: D },
    AnnouncementUpdate { id: u32, result: UpdateResult },
    AssetCreationSucceeded { id: u32 },
    AssetCreationFailed { id: u32, error: D },
    Asset { id: u32, asset: D },
    AssetUnavailable { id: u32 },
    AvatarCurrent { avatar: D },
    AvatarUpdate { id: u32, result: UpdateResult },
    Bookmarks { bookmarks: D },
    BookmarkUpdate { id: u32, success: bool },
    Disconnect,
    Calendar { id: Vec<u8> },
    CalendarLocations { locations: D },
    CalendarLocationChange { id: u32, success: bool },
    CurrentAccessDirectMessage { setting: D },
    CurrentAccessDefault { setting: D },
    CurrentAccessOnline { setting: D },
    DirectMessage { player: PlayerIdentifier, message: DirectMessage<B> },
    DirectMessageReceipt { id: u32, status: DirectMessageStatus },
    DirectMessageStats { stats: D, last_login: Timestamp },
    DirectMessages { from: Timestamp, to: Timestamp, player: PlayerIdentifier, messages: Vec<DirectMessage<B>> },
    LocationChange { location: D },
    NoOperation,
    ToHost { event: D },
    Peers { peers: D },
    PeersBanned { bans: D },
    PeersBannedUpdate { id: u32, result: UpdateResult },
    PlayerReset { id: u32, result: UpdateResult },
    PublicKeys { keys: D },
    PublicKeyUpdate { id: u32, result: UpdateResult },
    LocationVisibility { id: u32, result: UpdateResult },
    LocationsAvailable { id: u32, locations: D },
    LocationsUnavailable { id: u32, server: Option<String> },
    PlayerOnlineState { id: u32, state: D },
    InLocation { response: D },
}

/// What the connection tells the rest of the client, with what was kept
/// for the request answered (of type `K`) where there was one.
pub enum Notice<K, D, B> {
    AccessChange(K, UpdateResult),
    AccessLocationDefaultUpdated,
    AccessMessageUpdated,
    AccessOnlineUpdated,
    Activity(K, D),
    AnnouncementChange(K, UpdateResult),
    AnnouncementsUpdated,
    AssetUnavailable(K),
    AssetUploaded(K, Result<(), D>),
    AvatarUpdate(K, UpdateResult),
    AvatarUpdated,
    BannedPeersChanged(K, UpdateResult),
    BannedPeersUpdated,
    BookmarkUpdate(K, bool),
    BookmarksUpdated,
    CalendarUpdated,
    CalendarLocationChanged(K, bool),
    CalendarLocationUpdated,
    DirectMessage(PlayerIdentifier),
    DirectMessageFailed(PlayerIdentifier, MessageFailure, B),
    DirectMessageStatsUpdated,
    Hosting(D),
    InLocation(D),
    LocationChange(D),
    LocationSearch(K, Result<D, Option<String>>),
    LocationVisibilityChanged(K, UpdateResult),
    PeersUpdated,
    PlayerOnlineStateUpdated,
    PlayerResetChanged(K, UpdateResult),
    PublicKeysChanged(K, UpdateResult),
    PublicKeysUpdated,
}

/// What is left to do once a response is taken in: tell the client, drop
/// the connection, or store a downloaded asset and then tell the client.
pub enum Handled<K, D, B> {
    Notify(Notice<K, D, B>),
    Disconnected,
    StoreAsset { callback: K, asset: D },
}

/// The values the connection keeps from the server.
pub struct Caches<D, B> {
    pub access_default: Cache<D>,
    pub access_message: Cache<D>,
    pub access_online: Cache<D>,
    pub announcements: Cache<D>,
    pub avatar: Cache<D>,
    pub banned_peers: Cache<D>,
    pub bookmarks: Cache<D>,
    pub calendar_id: Cache<Vec<u8>>,
    pub calendar_locations: Cache<D>,
    pub direct_message_stats: Cache<D>,
    pub direct_messages: MessageBook<B>,
    pub last_login: Option<Timestamp>,
    pub peers: Cache<D>,
    pub player_location: PlayerTable<(Timestamp, D)>,
    pub public_keys: Cache<D>,
}

/// The values the connection keeps, as plain values.
pub struct CachesModel<D, B> {
    pub access_default: Option<(Timestamp, D)>,
    pub access_message: Option<(Timestamp, D)>,
    pub access_online: Option<(Timestamp, D)>,
    pub announcements: Option<(Timestamp, D)>,
    pub avatar: Option<(Timestamp, D)>,
    pub banned_peers: Option<(Timestamp, D)>,
    pub bookmarks: Option<(Timestamp, D)>,
    pub calendar_id: Option<(Timestamp, Vec<u8>)>,
    pub calendar_locations: Option<(Timestamp, D)>,
    pub direct_message_stats: Option<(Timestamp, D)>,
    pub direct_messages: Seq<(PlayerIdentifier, Conversation<B>)>,
    pub last_login: Option<Timestamp>,
    pub peers: Option<(Timestamp, D)>,
    pub player_location: Seq<(PlayerIdentifier, (Timestamp, D))>,
    pub public_keys: Option<(Timestamp, D)>,
}

impl<D, B> Caches<D, B> {
    /// The kept values as plain values.
    pub open spec fn model(&self) -> CachesModel<D, B> {
        CachesModel {
            access_default: self.access_default@,
            access_message: self.access_message@,
            access_online: self.access_online@,
            announcements: self.announcements@,
            avatar: self.avatar@,
            banned_peers: self.banned_peers@,
            bookmarks: self.bookmarks@,
            calendar_id: self.calendar_id@,
            calendar_locations: self.calendar_locations@,
            direct_message_stats: self.direct_message_stats@,
            direct_messages: self.direct_messages@,
            last_login: self.last_login,
            peers: self.peers@,
            player_location: self.player_location@,
            public_keys: self.public_keys@,
        }
    }

    /// The direct messages are kept in time order.
    pub open spec fn wf(&self) -> bool {
        self.direct_messages.wf()
    }

    /// Nothing kept.
    pub fn new() -> (r: Self)
        ensures
            r.wf(),
            r.model() == (CachesModel::<D, B> {
                access_default: None,
                access_message: None,
                access_online: None,
                announcements: None,
                avatar: None,
                banned_peers: None,
                bookmarks: None,
                calendar_id: None,
                calendar_locations: None,
                direct_message_stats: None,
                direct_messages: Seq::empty(),
                last_login: None,
                peers: None,
                player_location: Seq::empty(),
                public_keys: None,
            }),
    {
        Caches {
            access_default: Cache::new(),
            access_message: Cache::new(),
            access_online: Cache::new(),
            announcements: Cache::new(),
            avatar: Cache::new(),
            banned_peers: Cache::new(),
            bookmarks: Cache::new(),
            calendar_id: Cache::new(),
            calendar_locations: Cache::new(),
            direct_message_stats: Cache::new(),
            direct_messages: MessageBook::new(),
            last_login: None,
            peers: Cache::new(),
            player_location: PlayerTable::new(),
            public_keys: Cache::new(),
        }
    }
}

/// The requests the connection waits on, by what they asked for.
pub struct Pending<K, B> {
    pub access_updates: TrackingMap<K>,
    pub activity_updates: TrackingMap<K>,
    pub announcement_updates: TrackingMap<K>,
    pub asset_download: TrackingMap<K>,
    pub asset_upload: TrackingMap<K>,
    pub avatar_updates: TrackingMap<K>,
    pub banned_peers_updates: TrackingMap<K>,
    pub bookmark_updates: TrackingMap<K>,
    pub calendar_location_updates: TrackingMap<K>,
    pub direct_messages_outstanding: TrackingMap<OutstandingMessage<B>>,
    pub location_searches: TrackingMap<K>,
    pub location_visibility_updates: TrackingMap<K>,
    pub player_location_updates: TrackingMap<PlayerIdentifier>,
    pub player_reset: TrackingMap<K>,
    pub public_key_updates: TrackingMap<K>,
}

/// The requests waited on, as plain values.
pub struct PendingModel<K, B> {
    pub access_updates: Tracking<K>,
    pub activity_updates: Tracking<K>,
    pub announcement_updates: Tracking<K>,
    pub asset_download: Tracking<K>,
    pub asset_upload: Tracking<K>,
    pub avatar_updates: Tracking<K>,
    pub banned_peers_updates: Tracking<K>,
    pub bookmark_updates: Tracking<K>,
    pub calendar_location_updates: Tracking<K>,
    pub direct_messages_outstanding: Tracking<OutstandingMessage<B>>,
    pub location_searches: Tracking<K>,
    pub location_visibility_updates: Tracking<K>,
    pub player_location_updates: Tracking<PlayerIdentifier>,
    pub player_reset: Tracking<K>,
    pub public_key_updates: Tracking<K>,
}

impl<K, B> Pending<K, B> {
    /// The requests waited on as plain values.
    pub open spec fn model(&self) -> PendingModel<K, B> {
        PendingModel {
            access_updates: self.access_updates@,
            activity_updates: self.activity_updates@,
            announcement_updates: self.announcement_updates@,
            asset_download: self.asset_download@,
            asset_upload: self.asset_upload@,
            avatar_updates: self.avatar_updates@,
            banned_peers_updates: self.banned_peers_updates@,
            bookmark_updates: self.bookmark_updates@,
            calendar_location_updates: self.calendar_location_updates@,
            direct_messages_outstanding: self.direct_messages_outstanding@,
            location_searches: self.location_searches@,
            location_visibility_updates: self.location_visibility_updates@,
            player_location_updates: self.player_location_updates@,
            player_reset: self.player_reset@,
            public_key_updates: self.public_key_updates@,
        }
    }

    /// Nothing waited on.
    pub fn new() -> (r: Self)
        ensures
            r.model() == (PendingModel::<K, B> {
                access_updates: Tracking { next: 0, entries: Seq::empty() },
                activity_updates: Tracking { next: 0, entries: Seq::empty() },
                announcement_updates: Tracking { next: 0, entries: Seq::empty() },
                asset_download: Tracking { next: 0, entries: Seq::empty() },
                asset_upload: Tracking { next: 0, entries: Seq::empty() },
                avatar_updates: Tracking { next: 0, entries: Seq::empty() },
                banned_peers_updates: Tracking { next: 0, entries: Seq::empty() },
                bookmark_updates: Tracking { next: 0, entries: Seq::empty() },
                calendar_location_updates: Tracking { next: 0, entries: Seq::empty() },
                direct_messages_outstanding: Tracking { next: 0, entries: Seq::empty() },
                location_searches: Tracking { next: 0, entries: Seq::empty() },
                location_visibility_updates: Tracking { next: 0, entries: Seq::empty() },
                player_location_updates: Tracking { next: 0, entries: Seq::empty() },
                player_reset: Tracking { next: 0, entries: Seq::empty() },
                public_key_updates: Tracking { next: 0, entries: Seq::empty() },
            }),
    {
        Pending {
            access_updates: TrackingMap::new(),
            activity_updates: TrackingMap::new(),
            announcement_updates: TrackingMap::new(),
            asset_download: TrackingMap::new(),
            asset_upload: TrackingMap::new(),
            avatar_updates: TrackingMap::new(),
            banned_peers_updates: TrackingMap::new(),
            bookmark_updates: TrackingMap::new(),
            calendar_location_updates: TrackingMap::new(),
            direct_messages_outstanding: TrackingMap::new(),
            location_searches: TrackingMap::new(),
            location_visibility_updates: TrackingMap::new(),
            player_location_updates: TrackingMap::new(),
            player_reset: TrackingMap::new(),
            public_key_updates: TrackingMap::new(),
        }
    }
}

/// Drops the three access settings held, as after a refused change.
pub open spec fn without_access<D, B>(c: CachesModel<D, B>) -> CachesModel<D, B> {
    CachesModel { access_default: None, access_message: None, access_online: None, ..c }
}

/// The answer to a request that changes a setting: when the request is
/// waited on, it no longer is, `drop` is applied to the values kept unless
/// the change succeeded, and the client is told with `notice`; otherwise
/// nothing changes and nothing is told.
pub open spec fn settle<K, D, B>(
    c: CachesModel<D, B>,
    p: PendingModel<K, B>,
    t: Tracking<K>,
    id: u32,
    keep: spec_fn(PendingModel<K, B>, Tracking<K>) -> PendingModel<K, B>,
    dropped: CachesModel<D, B>,
    succeeded: bool,
    notice: spec_fn(K) -> Notice<K, D, B>,
) -> (CachesModel<D, B>, PendingModel<K, B>, Option<Handled<K, D, B>>) {
    let (found, rest) = spec_finish(t, id);
    match found {
        Some(k) => (if succeeded { c } else { dropped }, keep(p, rest), Some(Handled::Notify(notice(k)))),
        None => (c, p, None),
    }
}

/// What taking in `response` at `now` does: the values kept, the requests
/// waited on, and what is left to do.
pub open spec fn spec_process_client_response<K, D, B>(
    c: CachesModel<D, B>,
    p: PendingModel<K, B>,
    response: ClientResponse<D, B>,
    now: Timestamp,
) -> (CachesModel<D, B>, PendingModel<K, B>, Option<Handled<K, D, B>>) {
    match response {
        ClientResponse::AccessChange { id, result } => settle(
            c, p, p.access_updates, id,
            |p: PendingModel<K, B>, t: Tracking<K>| PendingModel { access_updates: t, ..p },
            without_access(c), result is Success,
            |k: K| Notice::AccessChange(k, result),
        ),
        ClientResponse::Activity { id, activity } => settle(
            c, p, p.activity_updates, id,
            |p: PendingModel<K, B>, t: Tracking<K>| PendingModel { activity_updates: t, ..p },
            c, true,
            |k: K| Notice::Activity(k, activity),
        ),
        ClientResponse::Announcements { announcements } => (
            CachesModel { announcements: Some((now, announcements)), ..c },
            p,
            Some(Handled::Notify(Notice::AnnouncementsUpdated)),
        ),
        ClientResponse::AnnouncementUpdate { id, result } => settle(
            c, p, p.announcement_updates, id,
            |p: PendingModel<K, B>, t: Tracking<K>| PendingModel { announcement_updates: t, ..p },
            CachesModel { announcements: None, ..c }, result is Success,
            |k: K| Notice::AnnouncementChange(k, result),
        ),
        ClientResponse::AssetCreationSucceeded { id } => settle(
            c, p, p.asset_upload, id,
            |p: PendingModel<K, B>, t: Tracking<K>| PendingModel { asset_upload: t, ..p },
            c, true,
            |k: K| Notice::AssetUploaded(k, Ok(())),
        ),
        ClientResponse::AssetCreationFailed { id, error } => settle(
            c, p, p.asset_upload, id,
            |p: PendingModel<K, B>, t: Tracking<K>| PendingModel { asset_upload: t, ..p },
            c, true,
            |k: K| Notice::AssetUploaded(k, Err(error)),
        ),
        ClientResponse::Asset { id, asset } => {
            let (found, rest) = spec_finish(p.asset_download, id);
            match found {
                Some(k) => (c, PendingModel { asset_download: rest, ..p }, Some(Handled::StoreAsset { callback: k, asset })),
                None => (c, p, None),
            }
        },
        ClientResponse::AssetUnavailable { id } => settle(
            c, p, p.asset_download, id,
            |p: PendingModel<K, B>, t: Tracking<K>| PendingModel { asset_download: t, ..p },
            c, true,
            |k: K| Notice::AssetUnavailable(k),
        ),
        ClientResponse::AvatarCurrent { avatar } => (
            CachesModel { avatar: Some((now, avatar)), ..c },
            p,
            Some(Handled::Notify(Notice::AvatarUpdated)),
        ),
        ClientResponse::AvatarUpdate { id, result } => settle(
            c, p, p.avatar_updates, id,
            |p: PendingModel<K, B>, t: Tracking<K>| PendingModel { avatar_updates: t, ..p },
            CachesModel { avatar: None, ..c }, result is Success,
            |k: K| Notice::AvatarUpdate(k, result),
        ),
        ClientResponse::Bookmarks { bookmarks } => (
            CachesModel { bookmarks: Some((now, bookmarks)), ..c },
            p,
            Some(Handled::Notify(Notice::BookmarksUpdated)),
        ),
        ClientResponse::BookmarkUpdate { id, success } => settle(
            c, p, p.bookmark_updates, id,
            |p: PendingModel<K, B>, t: Tracking<K>| PendingModel { bookmark_updates: t, ..p },
            CachesModel { avatar: None, ..c }, success,
            |k: K| Notice::BookmarkUpdate(k, success),
        ),
        ClientResponse::Disconnect => (c, p, Some(Handled::Disconnected)),
        ClientResponse::Calendar { id } => (
            CachesModel { calendar_id: Some((now, id)), ..c },
            p,
            Some(Handled::Notify(Notice::CalendarUpdated)),
        ),
        ClientResponse::CalendarLocations { locations } => (
            CachesModel { calendar_locations: Some((now, locations)), ..c },
            p,
            Some(Handled::Notify(Notice::CalendarLocationUpdated)),
        ),
        ClientResponse::CalendarLocationChange { id, success } => settle(
            c, p, p.calendar_location_updates, id,
            |p: PendingModel<K, B>, t: Tracking<K>| PendingModel { calendar_location_updates: t, ..p },
            c, true,
            |k: K| Notice::CalendarLocationChanged(k, success),
        ),
        ClientResponse::CurrentAccessDirectMessage { setting } => (
            CachesModel { access_message: Some((now, setting)), ..c },
            p,
            Some(Handled::Notify(Notice::AccessMessageUpdated)),
        ),
        ClientResponse::CurrentAccessDefault { setting } => (
            CachesModel { access_default: Some((now, setting)), ..c },
            p,
            Some(Handled::Notify(Notice::AccessLocationDefaultUpdated)),
        ),
        ClientResponse::CurrentAccessOnline { setting } => (
            CachesModel { access_online: Some((now, setting)), ..c },
            p,
            Some(Handled::Notify(Notice::AccessOnlineUpdated)),
        ),
        ClientResponse::DirectMessage { player, message } => (
            CachesModel { direct_messages: spec_book_add(c.direct_messages, player, message), ..c },
            p,
            Some(Handled::Notify(Notice::DirectMessage(player))),
        ),
        ClientResponse::DirectMessageReceipt { id, status } => spec_receipt(c, p, id, status),
        ClientResponse::DirectMessageStats { stats, last_login } => (
            CachesModel { direct_message_stats: Some((now, stats)), last_login: Some(last_login), ..c },
            p,
            Some(Handled::Notify(Notice::DirectMessageStatsUpdated)),
        ),
        ClientResponse::DirectMessages { from, to, player, messages } => (
            CachesModel { direct_messages: spec_book_add_range(c.direct_messages, player, from, to, messages@), ..c },
            p,
            Some(Handled::Notify(Notice::DirectMessage(player))),
        ),
        ClientResponse::LocationChange { location } => (c, p, Some(Handled::Notify(Notice::LocationChange(location)))),
        ClientResponse::NoOperation => (c, p, None),
        ClientResponse::ToHost { event } => (c, p, Some(Handled::Notify(Notice::Hosting(event)))),
        ClientResponse::Peers { peers } => (
            CachesModel { peers: Some((now, peers)), ..c },
            p,
            Some(Handled::Notify(Notice::PeersUpdated)),
        ),
        ClientResponse::PeersBanned { bans } => (
            CachesModel { banned_peers: Some((now, bans)), ..c },
            p,
            Some(Handled::Notify(Notice::BannedPeersUpdated)),
        ),
        ClientResponse::PeersBannedUpdate { id, result } => settle(
            c, p, p.banned_peers_updates, id,
            |p: PendingModel<K, B>, t: Tracking<K>| PendingModel { banned_peers_updates: t, ..p },
            CachesModel { banned_peers: None, ..c }, result is Success,
            |k: K| Notice::BannedPeersChanged(k, result),
        ),
        ClientResponse::PlayerReset { id, result } => settle(
            c, p, p.player_reset, id,
            |p: PendingModel<K, B>, t: Tracking<K>| PendingModel { player_reset: t, ..p },
            c, true,
            |k: K| Notice::PlayerResetChanged(k, result),
        ),
        ClientResponse::PublicKeys { keys } => (
            CachesModel { public_keys: Some((now, keys)), ..c },
            p,
            Some(Handled::Notify(Notice::PublicKeysUpdated)),
        ),
        ClientResponse::PublicKeyUpdate { id, result } => settle(
            c, p, p.public_key_updates, id,
            |p: PendingModel<K, B>, t: Tracking<K>| PendingModel { public_key_updates: t, ..p },
            CachesModel { public_keys: None, ..c }, result is Success,
            |k: K| Notice::PublicKeysChanged(k, result),
        ),
        ClientResponse::LocationVisibility { id, result } => settle(
            c, p, p.location_visibility_updates, id,
            |p: PendingModel<K, B>, t: Tracking<K>| PendingModel { location_visibility_updates: t, ..p },
            c, true,
            |k: K| Notice::LocationVisibilityChanged(k, result),
        ),
        ClientResponse::LocationsAvailable { id, locations } => match held_under(p.location_searches, id) {
            Some(k) => (c, p, Some(Handled::Notify(Notice::LocationSearch(k, Ok(locations))))),
            None => (c, p, None),
        },
        ClientResponse::LocationsUnavailable { id, server } => match held_under(p.location_searches, id) {
            Some(k) => (c, p, Some(Handled::Notify(Notice::LocationSearch(k, Err(server))))),
            None => (c, p, None),
        },
        ClientResponse::PlayerOnlineState { id, state } => {
            let (found, rest) = spec_finish(p.player_location_updates, id);
            match found {
                Some(player) => (
                    CachesModel { player_location: spec_table_insert(c.player_location, player, (now, state)), ..c },
                    PendingModel { player_location_updates: rest, ..p },
                    Some(Handled::Notify(Notice::PlayerOnlineStateUpdated)),
                ),
                None => (c, p, None),
            }
        },
        ClientResponse::InLocation { response } => (c, p, Some(Handled::Notify(Notice::InLocation(response)))),
    }
}

/// What a receipt for the direct message sent under number `id` does. A
/// queued message stays waited on with its new status and the client hears
/// of its recipient; any other status settles it: a delivered message joins
/// the conversation with its recipient, and a refused one comes back to the
/// client with why.
pub open spec fn spec_receipt<K, D, B>(
    c: CachesModel<D, B>,
    p: PendingModel<K, B>,
    id: u32,
    status: DirectMessageStatus,
) -> (CachesModel<D, B>, PendingModel<K, B>, Option<Handled<K, D, B>>) {
    if status is Queued {
        match held_under(p.direct_messages_outstanding, id) {
            Some(o) => (
                c,
                PendingModel { direct_messages_outstanding: spec_mark(p.direct_messages_outstanding, id, status), ..p },
                Some(Handled::Notify(Notice::DirectMessage(o.player))),
            ),
            None => (c, p, None),
        }
    } else {
        let (found, rest) = spec_finish(p.direct_messages_outstanding, id);
        match found {
            Some(o) => {
                let left = PendingModel { direct_messages_outstanding: rest, ..p };
                match status {
                    DirectMessageStatus::Delivered(timestamp) => (
                        CachesModel {
                            direct_messages: spec_book_add(
                                c.direct_messages,
                                o.player,
                                DirectMessage { inbound: false, body: o.body, timestamp },
                            ),
                            ..c
                        },
                        left,
                        Some(Handled::Notify(Notice::DirectMessage(o.player))),
                    ),
                    DirectMessageStatus::UnknownRecipient => (
                        c,
                        left,
                        Some(Handled::Notify(Notice::DirectMessageFailed(o.player, MessageFailure::UnknownRecipient, o.body))),
                    ),
                    DirectMessageStatus::Forbidden => (
                        c,
                        left,
                        Some(Handled::Notify(Notice::DirectMessageFailed(o.player, MessageFailure::Forbidden, o.body))),
                    ),
                    DirectMessageStatus::InternalError => (
                        c,
                        left,
                        Some(Handled::Notify(Notice::DirectMessageFailed(o.player, MessageFailure::InternalError, o.body))),
                    ),
                    DirectMessageStatus::Queued => (c, left, None),
                }
            },
            None => (c, p, None),
        }
    }
}

/// `actual` is what `expected` says, but for the callback of a location
/// search, which is a clone of the one kept.
pub open spec fn answers_as<K: Clone, D, B>(actual: Option<Handled<K, D, B>>, expected: Option<Handled<K, D, B>>) -> bool {
    match (actual, expected) {
        (
            Some(Handled::Notify(Notice::LocationSearch(a, x))),
            Some(Handled::Notify(Notice::LocationSearch(e, y))),
        ) => cloned::<K>(e, a) && x == y,
        _ => actual == expected,
    }
}

/// Takes in `response`, which came at `now`: replaces or drops the values
/// kept, stops waiting on the request it answers, and says what is left to
/// do. A response to a request no longer waited on changes nothing and
/// leaves nothing to do.
pub fn process_client_response<K: Clone, D, B>(
    caches: &mut Caches<D, B>,
    pending: &mut Pending<K, B>,
    response: ClientResponse<D, B>,
    now: Timestamp,
) -> (r: Option<Handled<K, D, B>>)
    requires
        old(caches).wf(),
    ensures
        final(caches).wf(),
        final(caches).model() == spec_process_client_response(old(caches).model(), old(pending).model(), response, now).0,
        final(pending).model() == spec_process_client_response(old(caches).model(), old(pending).model(), response, now).1,
        answers_as(r, spec_process_client_response(old(caches).model(), old(pending).model(), response, now).2),
{
    match response {
        ClientResponse::AccessChange { id, result } => match pending.access_updates.finish(id) {
            Some(k) => {
                match result {
                    UpdateResult::Success => {},
                    _ => {
                        caches.access_default.invalidate();
                        caches.access_message.invalidate();
                        caches.access_online.invalidate();
                    },
                }
                Some(Handled::Notify(Notice::AccessChange(k, result)))
            },
            None => None,
        },
        ClientResponse::Activity { id, activity } => match pending.activity_updates.finish(id) {
            Some(k) => Some(Handled::Notify(Notice::Activity(k, activity))),
            None => None,
        },
        ClientResponse::Announcements { announcements } => {
            caches.announcements.set(announcements, now);
            Some(Handled::Notify(Notice::AnnouncementsUpdated))
        },
        ClientResponse::AnnouncementUpdate { id, result } => match pending.announcement_updates.finish(id) {
            Some(k) => {
                match result {
                    UpdateResult::Success => {},
                    _ => caches.announcements.invalidate(),
                }
                Some(Handled::Notify(Notice::AnnouncementChange(k, result)))
            },
            None => None,
        },
        ClientResponse::AssetCreationSucceeded { id } => match pending.asset_upload.finish(id) {
            Some(k) => Some(Handled::Notify(Notice::AssetUploaded(k, Ok(())))),
            None => None,
        },
        ClientResponse::AssetCreationFailed { id, error } => match pending.asset_upload.finish(id) {
            Some(k) => Some(Handled::Notify(Notice::AssetUploaded(k, Err(error)))),
            None => None,
        },
        ClientResponse::Asset { id, asset } => match pending.asset_download.finish(id) {
            Some(k) => Some(Handled::StoreAsset { callback: k, asset }),
            None => None,
        },
        ClientResponse::AssetUnavailable { id } => match pending.asset_download.finish(id) {
            Some(k) => Some(Handled::Notify(Notice::AssetUnavailable(k))),
            None => None,
        },
        ClientResponse::AvatarCurrent { avatar } => {
            caches.avatar.set(avatar, now);
            Some(Handled::Notify(Notice::AvatarUpdated))
        },
        ClientResponse::AvatarUpdate { id, result } => match pending.avatar_updates.finish(id) {
            Some(k) => {
                match result {
                    UpdateResult::Success => {},
                    _ => caches.avatar.invalidate(),
                }
                Some(Handled::Notify(Notice::AvatarUpdate(k, result)))
            },
            None => None,
        },
        ClientResponse::Bookmarks { bookmarks } => {
            caches.bookmarks.set(bookmarks, now);
            Some(Handled::Notify(Notice::BookmarksUpdated))
        },
        ClientResponse::BookmarkUpdate { id, success } => match pending.bookmark_updates.finish(id) {
            Some(k) => {
                if !success {
                    caches.avatar.invalidate();
                }
                Some(Handled::Notify(Notice::BookmarkUpdate(k, success)))
            },
            None => None,
        },
        ClientResponse::Disconnect => Some(Handled::Disconnected),
        ClientResponse::Calendar { id } => {
            caches.calendar_id.set(id, now);
            Some(Handled::Notify(Notice::CalendarUpdated))
        },
        ClientResponse::CalendarLocations { locations } => {
            caches.calendar_locations.set(locations, now);
            Some(Handled::Notify(Notice::CalendarLocationUpdated))
        },
        ClientResponse::CalendarLocationChange { id, success } => match pending.calendar_location_updates.finish(id) {
            Some(k) => Some(Handled::Notify(Notice::CalendarLocationChanged(k, success))),
            None => None,
        },
        ClientResponse::CurrentAccessDirectMessage { setting } => {
            caches.access_message.set(setting, now);
            Some(Handled::Notify(Notice::AccessMessageUpdated))
        },
        ClientResponse::CurrentAccessDefault { setting } => {
            caches.access_default.set(setting, now);
            Some(Handled::Notify(Notice::AccessLocationDefaultUpdated))
        },
        ClientResponse::CurrentAccessOnline { setting } => {
            caches.access_online.set(setting, now);
            Some(Handled::Notify(Notice::AccessOnlineUpdated))
        },
        ClientResponse::DirectMessage { player, message } => {
            caches.direct_messages.add(player.clone(), message);
            Some(Handled::Notify(Notice::DirectMessage(player)))
        },
        ClientResponse::DirectMessageReceipt { id, status } => receipt(caches, pending, id, status),
        ClientResponse::DirectMessageStats { stats, last_login } => {
            caches.direct_message_stats.set(stats, now);
            caches.last_login = Some(last_login);
            Some(Handled::Notify(Notice::DirectMessageStatsUpdated))
        },
        ClientResponse::DirectMessages { from, to, player, messages } => {
            caches.direct_messages.add_range(player.clone(), from, to, messages);
            Some(Handled::Notify(Notice::DirectMessage(player)))
        },
        ClientResponse::LocationChange { location } => Some(Handled::Notify(Notice::LocationChange(location))),
        ClientResponse::NoOperation => None,
        ClientResponse::ToHost { event } => Some(Handled::Notify(Notice::Hosting(event))),
        ClientResponse::Peers { peers } => {
            caches.peers.set(peers, now);
            Some(Handled::Notify(Notice::PeersUpdated))
        },
        ClientResponse::PeersBanned { bans } => {
            caches.banned_peers.set(bans, now);
            Some(Handled::Notify(Notice::BannedPeersUpdated))
        },
        ClientResponse::PeersBannedUpdate { id, result } => match pending.banned_peers_updates.finish(id) {
            Some(k) => {
                match result {
                    UpdateResult::Success => {},
                    _ => caches.banned_peers.invalidate(),
                }
                Some(Handled::Notify(Notice::BannedPeersChanged(k, result)))
            },
            None => None,
        },
        ClientResponse::PlayerReset { id, result } => match pending.player_reset.finish(id) {
            Some(k) => Some(Handled::Notify(Notice::PlayerResetChanged(k, result))),
            None => None,
        },
        ClientResponse::PublicKeys { keys } => {
            caches.public_keys.set(keys, now);
            Some(Handled::Notify(Notice::PublicKeysUpdated))
        },
        ClientResponse::PublicKeyUpdate { id, result } => match pending.public_key_updates.finish(id) {
            Some(k) => {
                match result {
                    UpdateResult::Success => {},
                    _ => caches.public_keys.invalidate(),
                }
                Some(Handled::Notify(Notice::PublicKeysChanged(k, result)))
            },
            None => None,
        },
        ClientResponse::LocationVisibility { id, result } => match pending.location_visibility_updates.finish(id) {
            Some(k) => Some(Handled::Notify(Notice::LocationVisibilityChanged(k, result))),
            None => None,
        },
        ClientResponse::LocationsAvailable { id, locations } => match pending.location_searches.get(id) {
            Some(k) => Some(Handled::Notify(Notice::LocationSearch(k.clone(), Ok(locations)))),
            None => None,
        },
        ClientResponse::LocationsUnavailable { id, server } => match pending.location_searches.get(id) {
            Some(k) => Some(Handled::Notify(Notice::LocationSearch(k.clone(), Err(server)))),
            None => None,
        },
        ClientResponse::PlayerOnlineState { id, state } => match pending.player_location_updates.finish(id) {
            Some(player) => {
                caches.player_location.insert(player, (now, state));
                Some(Handled::Notify(Notice::PlayerOnlineStateUpdated))
            },
            None => None,
        },
        ClientResponse::InLocation { response } => Some(Handled::Notify(Notice::InLocation(response))),
    }
}

/// Takes in the receipt for the direct message sent under number `id`.
fn receipt<K, D, B>(
    caches: &mut Caches<D, B>,
    pending: &mut Pending<K, B>,
    id: u32,
    status: DirectMessageStatus,
) -> (r: Option<Handled<K, D, B>>)
    requires
        old(caches).wf(),
    ensures
        final(caches).wf(),
        (final(caches).model(), final(pending).model(), r) == spec_receipt(old(caches).model(), old(pending).model(), id, status),
{
    match status {
        DirectMessageStatus::Queued => match pending.direct_messages_outstanding.mark(id, status) {
            Some(player) => Some(Handled::Notify(Notice::DirectMessage(player))),
            None => None,
        },
        _ => match pending.direct_messages_outstanding.finish(id) {
            Some(o) => match status {
                DirectMessageStatus::Delivered(timestamp) => {
                    caches.direct_messages.add(o.player.clone(), DirectMessage { inbound: false, body: o.body, timestamp });
                    Some(Handled::Notify(Notice::DirectMessage(o.player)))
                },
                DirectMessageStatus::UnknownRecipient => Some(
                    Handled::Notify(Notice::DirectMessageFailed(o.player, MessageFailure::UnknownRecipient, o.body)),
                ),
                DirectMessageStatus::Forbidden => Some(
                    Handled::Notify(Notice::DirectMessageFailed(o.player, MessageFailure::Forbidden, o.body)),
                ),
                DirectMessageStatus::InternalError => Some(
                    Handled::Notify(Notice::DirectMessageFailed(o.player, MessageFailure::InternalError, o.body)),
                ),
                DirectMessageStatus::Queued => None,
            },
            None => None,
        },
    }
}

/// `response` answers a request under a number that is not waited on.
pub open spec fn answers_unknown<K, D, B>(p: PendingModel<K, B>, response: ClientResponse<D, B>) -> bool {
    match response {
        ClientResponse::AccessChange { id, .. } => held_under(p.access_updates, id) is None,
        ClientResponse::Activity { id, .. } => held_under(p.activity_updates, id) is None,
        ClientResponse::AnnouncementUpdate { id, .. } => held_under(p.announcement_updates, id) is None,
        ClientResponse::AssetCreationSucceeded { id } => held_under(p.asset_upload, id) is None,
        ClientResponse::AssetCreationFailed { id, .. } => held_under(p.asset_upload, id) is None,
        ClientResponse::Asset { id, .. } => held_under(p.asset_download, id) is None,
        ClientResponse::AssetUnavailable { id } => held_under(p.asset_download, id) is None,
        ClientResponse::AvatarUpdate { id, .. } => held_under(p.avatar_updates, id) is None,
        ClientResponse::BookmarkUpdate { id, .. } => held_under(p.bookmark_updates, id) is None,
        ClientResponse::CalendarLocationChange { id, .. } => held_under(p.calendar_location_updates, id) is None,
        ClientResponse::DirectMessageReceipt { id, .. } => held_under(p.direct_messages_outstanding, id) is None,
        ClientResponse::PeersBannedUpdate { id, .. } => held_under(p.banned_peers_updates, id) is None,
        ClientResponse::PlayerReset { id, .. } => held_under(p.player_reset, id) is None,
        ClientResponse::PublicKeyUpdate { id, .. } => held_under(p.public_key_updates, id) is None,
        ClientResponse::LocationVisibility { id, .. } => held_under(p.location_visibility_updates, id) is None,
        ClientResponse::LocationsAvailable { id, .. } => held_under(p.location_searches, id) is None,
        ClientResponse::LocationsUnavailable { id, .. } => held_under(p.location_searches, id) is None,
        ClientResponse::PlayerOnlineState { id, .. } => held_under(p.player_location_updates, id) is None,
        _ => false,
    }
}

/// A response to a request that is not waited on changes neither the values
/// kept nor the requests waited on, and leaves nothing to do.
pub proof fn lemma_unknown_answer_changes_nothing<K, D, B>(
    c: CachesModel<D, B>,
    p: PendingModel<K, B>,
    response: ClientResponse<D, B>,
    now: Timestamp,
)
    requires
        answers_unknown(p, response),
    ensures
        spec_process_client_response(c, p, response, now) == (c, p, None::<Handled<K, D, B>>),
{
}

/// How the server answered a change whose refusal drops a value kept, and
/// the values kept once that value is dropped.
pub open spec fn refusal<K, D, B>(c: CachesModel<D, B>, p: PendingModel<K, B>, response: ClientResponse<D, B>) -> Option<(UpdateResult, Tracking<K>, CachesModel<D, B>)> {
    match response {
        ClientResponse::AccessChange { result, .. } => Some((result, p.access_updates, without_access(c))),
        ClientResponse::AnnouncementUpdate { result, .. } => Some((result, p.announcement_updates, CachesModel { announcements: None, ..c })),
        ClientResponse::AvatarUpdate { result, .. } => Some((result, p.avatar_updates, CachesModel { avatar: None, ..c })),
        ClientResponse::PeersBannedUpdate { result, .. } => Some((result, p.banned_peers_updates, CachesModel { banned_peers: None, ..c })),
        ClientResponse::PublicKeyUpdate { result, .. } => Some((result, p.public_key_updates, CachesModel { public_keys: None, ..c })),
        _ => None,
    }
}

/// A change the server refused drops the value it would have changed, and
/// one it accepted keeps every value, when the request is waited on.
pub proof fn lemma_refused_change_drops_value<K, D, B>(
    c: CachesModel<D, B>,
    p: PendingModel<K, B>,
    response: ClientResponse<D, B>,
    now: Timestamp,
)
    requires
        refusal(c, p, response) is Some,
        !answers_unknown(p, response),
    ensures
        spec_process_client_response(c, p, response, now).0 == (if refusal(c, p, response).unwrap().0 is Success {
            c
        } else {
            refusal(c, p, response).unwrap().2
        }),
{
}

} // verus!
