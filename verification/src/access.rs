//! Who may visit, administer or message: access levels and the per-player
//! exceptions a realm or server keeps.

use vstd::prelude::*;
use vstd::string::StrSliceExecFns;
use crate::player::PlayerIdentifier;
use crate::reference_converter::{Converter, Referencer};
use crate::time::Timestamp;

verus! {

/// A peer server, or every server under a domain, that is banned.
#[derive(Clone, Debug, PartialEq, Eq, Hash)]
pub enum BannedPeer<S> {
    Peer(S),
    Domain(S),
}

/// Access open or closed by default, with the players for whom it is the
/// other way round.
#[derive(Clone, Debug)]
pub struct LocalAccessSetting<S> {
    default: SimpleAccess,
    exceptions: Vec<S>,
}

/// Whether to allow or deny access.
#[derive(Copy, Clone, Debug, PartialEq, Eq)]
pub enum SimpleAccess {
    Allow,
    Deny,
}

/// What a player may do: access, access and modify, or nothing.
#[derive(Copy, Clone, Debug, PartialEq, Eq)]
pub enum Privilege {
    Access,
    Admin,
    Deny,
}

/// How much of a player's whereabouts others may see.
#[derive(Copy, Clone, Debug, PartialEq, Eq)]
pub enum OnlineAccess {
    Location,
    OnlineOnly,
    Deny,
}

/// The access control being read or changed.
#[derive(Copy, Clone, Debug, PartialEq, Eq, Hash)]
pub enum AccessTarget {
    AccessServer,
    AdminServer,
    CreateOnServer,
    DirectMessages,
}

/// Whether a player's account is locked, and whether that can be changed.
#[derive(Copy, Clone, Debug, PartialEq, Eq)]
pub enum AccountLockState {
    Locked,
    NotAllowed,
    PermanentlyLocked,
    PermanentlyUnlocked,
    Unknown,
    Unlocked,
}

impl SimpleAccess {
    /// The opposite decision.
    pub open spec fn spec_invert(self) -> SimpleAccess {
        match self {
            SimpleAccess::Allow => SimpleAccess::Deny,
            SimpleAccess::Deny => SimpleAccess::Allow,
        }
    }

    /// The opposite decision.
    pub fn invert(&self) -> (r: SimpleAccess)
        ensures
            r == self.spec_invert(),
    {
        match self {
            SimpleAccess::Allow => SimpleAccess::Deny,
            SimpleAccess::Deny => SimpleAccess::Allow,
        }
    }

    /// Whether two decisions are the same.
    fn same(&self, other: &SimpleAccess) -> (r: bool)
        ensures
            r == (*self == *other),
    {
        match (self, other) {
            (SimpleAccess::Allow, SimpleAccess::Allow) => true,
            (SimpleAccess::Deny, SimpleAccess::Deny) => true,
            _ => false,
        }
    }
}

/// Inverting a decision twice gives it back, and never gives the same decision.
pub proof fn lemma_invert_involution(a: SimpleAccess)
    ensures
        a.spec_invert().spec_invert() == a,
        a.spec_invert() != a,
{
}

impl Privilege {
    /// Whether the privilege lets a player in at all.
    pub fn can_access(&self) -> (r: bool)
        ensures
            r == (*self != Privilege::Deny),
    {
        match self {
            Privilege::Deny => false,
            _ => true,
        }
    }
}

impl Default for SimpleAccess {
    fn default() -> (r: SimpleAccess)
        ensures
            r == SimpleAccess::Deny,
    {
        SimpleAccess::Deny
    }
}

impl Default for Privilege {
    fn default() -> (r: Privilege)
        ensures
            r == Privilege::Deny,
    {
        Privilege::Deny
    }
}

impl Default for OnlineAccess {
    fn default() -> (r: OnlineAccess)
        ensures
            r == OnlineAccess::Deny,
    {
        OnlineAccess::Deny
    }
}

impl Default for AccountLockState {
    fn default() -> (r: AccountLockState)
        ensures
            r == AccountLockState::Unknown,
    {
        AccountLockState::Unknown
    }
}

impl<S> BannedPeer<S> {
    /// The same ban over strings turned into another type by `converter`.
    pub fn convert<C: Converter<S>>(self, converter: C) -> (r: BannedPeer<C::Output>)
        ensures
            match (self, r) {
                (BannedPeer::Peer(p), BannedPeer::Peer(q)) => converter.converts(p, q),
                (BannedPeer::Domain(d), BannedPeer::Domain(e)) => converter.converts(d, e),
                _ => false,
            },
    {
        match self {
            BannedPeer::Peer(p) => BannedPeer::Peer(converter.convert(p)),
            BannedPeer::Domain(d) => BannedPeer::Domain(converter.convert(d)),
        }
    }

    /// The same ban over strings borrowed from this one by `referencer`.
    pub fn reference<'a, R: Referencer<S>>(&'a self, referencer: R) -> (r: BannedPeer<R::Output<'a>>)
        ensures
            match (*self, r) {
                (BannedPeer::Peer(p), BannedPeer::Peer(q)) => referencer.refers(p, q),
                (BannedPeer::Domain(d), BannedPeer::Domain(e)) => referencer.refers(d, e),
                _ => false,
            },
    {
        match self {
            BannedPeer::Peer(p) => BannedPeer::Peer(referencer.convert(p)),
            BannedPeer::Domain(d) => BannedPeer::Domain(referencer.convert(d)),
        }
    }
}

/// The names in a list of strings.
pub open spec fn names(items: Seq<String>) -> Set<Seq<char>> {
    items.map_values(|s: String| s@).to_set()
}

/// No name occurs twice in a list of strings.
pub open spec fn distinct_names(items: Seq<String>) -> bool {
    forall|i: int, j: int| 0 <= i < j < items.len() ==> #[trigger] items[i]@ != #[trigger] items[j]@
}

impl<S> LocalAccessSetting<S> {
    /// The decision for players who are not exceptions.
    pub closed spec fn default_access(&self) -> SimpleAccess {
        self.default
    }

    /// The exceptions, in the order they are kept.
    pub closed spec fn exception_list(&self) -> Seq<S> {
        self.exceptions@
    }

    /// The same setting over strings borrowed from this one by `referencer`.
    pub fn reference<'a, R: Referencer<S>>(&'a self, referencer: R) -> (r: LocalAccessSetting<R::Output<'a>>)
        ensures
            r.default_access() == self.default_access(),
            r.exception_list().len() == self.exception_list().len(),
            forall|i: int|
                0 <= i < r.exception_list().len() ==> referencer.refers(self.exception_list()[i], #[trigger] r.exception_list()[i]),
    {
        let mut exceptions: Vec<R::Output<'a>> = Vec::new();
        let mut i: usize = 0;
        while i < self.exceptions.len()
            invariant
                i <= self.exceptions@.len(),
                exceptions@.len() == i,
                forall|k: int| 0 <= k < i ==> referencer.refers(self.exceptions@[k], #[trigger] exceptions@[k]),
            decreases self.exceptions@.len() - i,
        {
            exceptions.push(referencer.convert(&self.exceptions[i]));
            i = i + 1;
        }
        LocalAccessSetting { default: self.default, exceptions }
    }
}

impl LocalAccessSetting<String> {
    /// No player is an exception twice.
    pub closed spec fn wf(&self) -> bool {
        distinct_names(self.exceptions@)
    }

    /// The names of the players who are exceptions.
    pub closed spec fn exceptions(&self) -> Set<Seq<char>> {
        names(self.exceptions@)
    }

    /// What this setting decides.
    pub open spec fn model(&self) -> AccessModel {
        AccessModel { default: self.default_access(), exceptions: self.exceptions() }
    }

    /// Access allowed to everyone, with no exceptions.
    pub fn new() -> (r: Self)
        ensures
            r.wf(),
            r.default_access() == SimpleAccess::Allow,
            r.exceptions() == Set::<Seq<char>>::empty(),
    {
        let r = LocalAccessSetting { default: SimpleAccess::Allow, exceptions: Vec::new() };
        proof {
            assert(names(r.exceptions@) =~= Set::<Seq<char>>::empty());
        }
        r
    }

    /// The position of the exception named `player`, if there is one.
    fn find(&self, player: &String) -> (r: Option<usize>)
        ensures
            match r {
                Some(i) => i < self.exceptions@.len() && self.exceptions@[i as int]@ == player@,
                None => !self.exceptions().contains(player@),
            },
    {
        let mut i: usize = 0;
        while i < self.exceptions.len()
            invariant
                i <= self.exceptions@.len(),
                forall|k: int| 0 <= k < i ==> self.exceptions@[k]@ != player@,
            decreases self.exceptions@.len() - i,
        {
            if self.exceptions[i] == *player {
                return Some(i);
            }
            i = i + 1;
        }
        proof {
            let ns = self.exceptions@.map_values(|s: String| s@);
            if names(self.exceptions@).contains(player@) {
                let k = choose|k: int| 0 <= k < ns.len() && #[trigger] ns[k] == player@;
                assert(self.exceptions@[k]@ == player@);
            }
        }
        None
    }

    /// Makes `player` an exception: true when they were not one before.
    fn add_exception(&mut self, player: String) -> (r: bool)
        requires
            old(self).wf(),
        ensures
            final(self).wf(),
            final(self).default_access() == old(self).default_access(),
            final(self).exceptions() == old(self).exceptions().insert(player@),
            r == !old(self).exceptions().contains(player@),
    {
        match self.find(&player) {
            Some(i) => {
                proof {
                    assert(names(self.exceptions@).contains(self.exceptions@[i as int]@)) by {
                        assert(self.exceptions@.map_values(|s: String| s@)[i as int] == self.exceptions@[i as int]@);
                    }
                    assert(names(self.exceptions@).insert(player@) =~= names(self.exceptions@));
                }
                false
            },
            None => {
                let ghost before = self.exceptions@;
                self.exceptions.push(player);
                proof {
                    assert(self.exceptions@.map_values(|s: String| s@) =~= before.map_values(|s: String| s@).push(player@));
                    before.map_values(|s: String| s@).lemma_push_to_set_commute(player@);
                    assert forall|i: int, j: int| 0 <= i < j < self.exceptions@.len() implies #[trigger] self.exceptions@[i]@
                        != #[trigger] self.exceptions@[j]@ by {
                        if j == before.len() {
                            assert(before.map_values(|s: String| s@)[i] == before[i]@);
                        }
                    }
                }
                true
            },
        }
    }

    /// Stops `player` being an exception: true when they were one.
    fn remove_exception(&mut self, player: &String) -> (r: bool)
        requires
            old(self).wf(),
        ensures
            final(self).wf(),
            final(self).default_access() == old(self).default_access(),
            final(self).exceptions() == old(self).exceptions().remove(player@),
            r == old(self).exceptions().contains(player@),
    {
        match self.find(player) {
            Some(i) => {
                let ghost before = self.exceptions@;
                self.exceptions.remove(i);
                proof {
                    let old_names = before.map_values(|s: String| s@);
                    let new_names = self.exceptions@.map_values(|s: String| s@);
                    assert(old_names[i as int] == player@);
                    assert(names(before).contains(player@));
                    assert forall|n: Seq<char>| names(self.exceptions@).contains(n) <==> names(before).remove(player@).contains(n) by {
                        if names(self.exceptions@).contains(n) {
                            let k = choose|k: int| 0 <= k < new_names.len() && #[trigger] new_names[k] == n;
                            if k < i {
                                assert(old_names[k] == n);
                                assert(before[k]@ != before[i as int]@);
                            } else {
                                assert(old_names[k + 1] == n);
                                assert(before[i as int]@ != before[k + 1]@);
                            }
                        }
                        if names(before).remove(player@).contains(n) {
                            let k = choose|k: int| 0 <= k < old_names.len() && #[trigger] old_names[k] == n;
                            assert(k != i);
                            if k < i {
                                assert(new_names[k] == n);
                            } else {
                                assert(new_names[k - 1] == n);
                            }
                        }
                    }
                    assert(names(self.exceptions@) =~= names(before).remove(player@));
                    assert forall|a: int, b: int| 0 <= a < b < self.exceptions@.len() implies #[trigger] self.exceptions@[a]@
                        != #[trigger] self.exceptions@[b]@ by {
                        let oa = if a < i { a } else { a + 1 };
                        let ob = if b < i { b } else { b + 1 };
                        assert(self.exceptions@[a] == before[oa]);
                        assert(self.exceptions@[b] == before[ob]);
                    }
                }
                true
            },
            None => {
                proof {
                    assert(names(self.exceptions@).remove(player@) =~= names(self.exceptions@));
                }
                false
            },
        }
    }

    /// Lets `player` in: removes them from the exceptions when access is
    /// allowed by default, adds them when it is denied. True when the
    /// exceptions changed.
    pub fn allow(&mut self, player: String) -> (r: bool)
        requires
            old(self).wf(),
        ensures
            final(self).wf(),
            final(self).model() == allowing(old(self).model(), player@),
            r == (old(self).exceptions().contains(player@) == (old(self).default_access() == SimpleAccess::Allow)),
    {
        if self.default.same(&SimpleAccess::Allow) {
            self.remove_exception(&player)
        } else {
            self.add_exception(player)
        }
    }

    /// Keeps `player` out: removes them from the exceptions when access is
    /// denied by default, adds them when it is allowed. True when the
    /// exceptions changed.
    pub fn deny(&mut self, player: String) -> (r: bool)
        requires
            old(self).wf(),
        ensures
            final(self).wf(),
            final(self).model() == denying(old(self).model(), player@),
            r == (old(self).exceptions().contains(player@) == (old(self).default_access() == SimpleAccess::Deny)),
    {
        if self.default.same(&SimpleAccess::Deny) {
            self.remove_exception(&player)
        } else {
            self.add_exception(player)
        }
    }

    /// The decision for `player`: the default, inverted for an exception.
    pub fn check(&self, player: &str) -> (r: SimpleAccess)
        ensures
            r == decide(self.model(), player@),
    {
        let name = player.to_owned();
        match self.find(&name) {
            Some(i) => {
                proof {
                    assert(self.exceptions@.map_values(|s: String| s@)[i as int] == name@);
                }
                self.default.invert()
            },
            None => self.default,
        }
    }

    /// Sets a new default and drops every exception; true when the default
    /// changed. Setting the same default keeps the exceptions.
    pub fn reset(&mut self, default: SimpleAccess) -> (r: bool)
        requires
            old(self).wf(),
        ensures
            final(self).wf(),
            r == (old(self).default_access() != default),
            r ==> final(self).default_access() == default && final(self).exceptions() == Set::<Seq<char>>::empty(),
            !r ==> *final(self) == *old(self),
    {
        if self.default.same(&default) {
            false
        } else {
            self.default = default;
            self.exceptions.clear();
            proof {
                assert(names(self.exceptions@) =~= Set::<Seq<char>>::empty());
            }
            true
        }
    }
}

impl Default for LocalAccessSetting<String> {
    fn default() -> (r: Self)
        ensures
            r.wf(),
            r.default_access() == SimpleAccess::Allow,
            r.exceptions() == Set::<Seq<char>>::empty(),
    {
        LocalAccessSetting::new()
    }
}

/// What an access setting decides: its default and the names of its exceptions.
pub struct AccessModel {
    pub default: SimpleAccess,
    pub exceptions: Set<Seq<char>>,
}

/// The decision a setting makes for `player`.
pub open spec fn decide(m: AccessModel, player: Seq<char>) -> SimpleAccess {
    if m.exceptions.contains(player) {
        m.default.spec_invert()
    } else {
        m.default
    }
}

/// A setting after `player` is allowed.
pub open spec fn allowing(m: AccessModel, player: Seq<char>) -> AccessModel {
    match m.default {
        SimpleAccess::Allow => AccessModel { exceptions: m.exceptions.remove(player), ..m },
        SimpleAccess::Deny => AccessModel { exceptions: m.exceptions.insert(player), ..m },
    }
}

/// A setting after `player` is denied.
pub open spec fn denying(m: AccessModel, player: Seq<char>) -> AccessModel {
    match m.default {
        SimpleAccess::Deny => AccessModel { exceptions: m.exceptions.remove(player), ..m },
        SimpleAccess::Allow => AccessModel { exceptions: m.exceptions.insert(player), ..m },
    }
}

/// After allowing a player, the setting lets them in; after denying them, it
/// keeps them out; either leaves every other player's decision as it was.
pub proof fn lemma_allow_deny_decide(m: AccessModel, player: Seq<char>, other: Seq<char>)
    ensures
        decide(allowing(m, player), player) == SimpleAccess::Allow,
        decide(denying(m, player), player) == SimpleAccess::Deny,
        other != player ==> decide(allowing(m, player), other) == decide(m, other),
        other != player ==> decide(denying(m, player), other) == decide(m, other),
{
}

/// Allowing a player twice changes nothing the second time, and denying
/// after allowing gives the decision denying alone gives.
pub proof fn lemma_allow_idempotent(m: AccessModel, player: Seq<char>)
    ensures
        allowing(allowing(m, player), player) == allowing(m, player),
        denying(denying(m, player), player) == denying(m, player),
        decide(denying(allowing(m, player), player), player) == decide(denying(m, player), player),
{
    assert(allowing(allowing(m, player), player).exceptions =~= allowing(m, player).exceptions);
    assert(denying(denying(m, player), player).exceptions =~= denying(m, player).exceptions);
}

/// A rule of an access setting, giving `T` to the players it matches; where
/// a time is given, the rule expires then.
#[derive(Clone, Debug)]
pub enum AccessControl<T> {
    /// Matches one player.
    Player(PlayerIdentifier, Option<Timestamp>, T),
    /// Matches every player of one server.
    Server(String, Option<Timestamp>, T),
    /// Matches every player of a server under a domain.
    Domain(String, Option<Timestamp>, T),
    /// Matches every player of this server.
    Local(Option<Timestamp>, T),
}

/// An access setting: the rules, tried in order, and what applies when none
/// matches.
#[derive(Clone, Debug)]
pub struct AccessSetting<T> {
    pub default: T,
    pub rules: Vec<AccessControl<T>>,
}

/// A rule with expiry `time` still holds at `now`: it has none, or it is
/// later than `now`.
pub open spec fn live(time: Option<Timestamp>, now: Timestamp) -> bool {
    match time {
        Some(t) => now.spec_before(t),
        None => true,
    }
}

fn is_live(time: &Option<Timestamp>, now: &Timestamp) -> (r: bool)
    ensures
        r == live(*time, *now),
{
    match time {
        Some(t) => now.before(t),
        None => true,
    }
}

/// The server `server` is `domain` or a server under it: it ends with a dot
/// and `domain`.
pub open spec fn domain_suffix(domain: Seq<char>, server: Seq<char>) -> bool {
    ||| server == domain
    ||| (server.len() > domain.len() && server.subrange(server.len() - domain.len(), server.len() as int) == domain
        && server[server.len() - domain.len() - 1] == '.')
}

/// Whether `server` is `domain` or a server under it.
pub fn has_domain_suffix(domain: &str, server: &str) -> (r: bool)
    ensures
        r == domain_suffix(domain@, server@),
{
    let dl = domain.unicode_len();
    let sl = server.unicode_len();
    if sl < dl {
        assert(server@ != domain@);
        return false;
    }
    let offset = sl - dl;
    let mut i: usize = 0;
    while i < dl
        invariant
            i <= dl,
            dl == domain@.len(),
            sl == server@.len(),
            offset + dl == sl,
            forall|j: int| 0 <= j < i ==> server@[offset + j] == domain@[j],
        decreases dl - i,
    {
        if server.get_char(offset + i) != domain.get_char(i) {
            assert(server@.subrange(offset as int, sl as int)[i as int] != domain@[i as int]);
            assert(server@.subrange(offset as int, sl as int) != domain@);
            assert(offset == 0 ==> server@.subrange(0, sl as int) =~= server@);
            return false;
        }
        i = i + 1;
    }
    assert(server@.subrange(offset as int, sl as int) =~= domain@);
    if offset == 0 {
        assert(server@.subrange(0, sl as int) =~= server@);
        true
    } else {
        let c = server.get_char(offset - 1);
        assert(server@ != domain@);
        c == '.'
    }
}

impl<T: Copy> AccessControl<T> {
    /// The rule as kept by the server `local_server` at `now`: gone once
    /// expired; a rule for that server's own name becomes a rule for its
    /// local players.
    pub open spec fn spec_into_local(self, local_server: Seq<char>, now: Timestamp) -> Option<Self> {
        match self {
            AccessControl::Player(player, time, access) => if live(time, now) {
                Some(AccessControl::Player(player, time, access))
            } else {
                None
            },
            AccessControl::Server(server, time, access) => if !live(time, now) {
                None
            } else if server@ == local_server {
                Some(AccessControl::Local(time, access))
            } else {
                Some(AccessControl::Server(server, time, access))
            },
            AccessControl::Domain(suffix, time, access) => if live(time, now) {
                Some(AccessControl::Domain(suffix, time, access))
            } else {
                None
            },
            AccessControl::Local(time, access) => if live(time, now) {
                Some(AccessControl::Local(time, access))
            } else {
                None
            },
        }
    }

    /// The rule as kept by the server `local_server` at `now`.
    pub fn into_local(self, local_server: &str, now: Timestamp) -> (r: Option<Self>)
        ensures
            r == self.spec_into_local(local_server@, now),
    {
        match self {
            AccessControl::Player(player, time, access) => if is_live(&time, &now) {
                Some(AccessControl::Player(player, time, access))
            } else {
                None
            },
            AccessControl::Server(server, time, access) => if !is_live(&time, &now) {
                None
            } else {
                let local = local_server.to_owned();
                if server == local {
                    Some(AccessControl::Local(time, access))
                } else {
                    Some(AccessControl::Server(server, time, access))
                }
            },
            AccessControl::Domain(suffix, time, access) => if is_live(&time, &now) {
                Some(AccessControl::Domain(suffix, time, access))
            } else {
                None
            },
            AccessControl::Local(time, access) => if is_live(&time, &now) {
                Some(AccessControl::Local(time, access))
            } else {
                None
            },
        }
    }

    /// Whether the rule holds at `now` for the player named `name` of the
    /// server `server`, where `local_server` is this one.
    pub open spec fn applies(self, server: Seq<char>, name: Seq<char>, local_server: Seq<char>, now: Timestamp) -> bool {
        match self {
            AccessControl::Player(player, time, _) => live(time, now) && player.spec_server(local_server) == server
                && player.spec_name() == name,
            AccessControl::Server(s, time, _) => live(time, now) && s@ == server,
            AccessControl::Domain(d, time, _) => live(time, now) && domain_suffix(d@, server),
            AccessControl::Local(time, _) => live(time, now) && server == local_server,
        }
    }

    /// What the rule gives.
    pub open spec fn access(self) -> T {
        match self {
            AccessControl::Player(_, _, a) => a,
            AccessControl::Server(_, _, a) => a,
            AccessControl::Domain(_, _, a) => a,
            AccessControl::Local(_, a) => a,
        }
    }

    fn check_rule(&self, server: &str, name: &str, local_server: &str, now: &Timestamp) -> (r: Option<T>)
        ensures
            r == (if self.applies(server@, name@, local_server@, *now) {
                Some(self.access())
            } else {
                None
            }),
    {
        match self {
            AccessControl::Player(player, time, access) => {
                if is_live(time, now) && str_same(player.get_server(local_server), server) && str_same(player.name(), name) {
                    Some(*access)
                } else {
                    None
                }
            },
            AccessControl::Server(s, time, access) => {
                if is_live(time, now) && str_same(s.as_str(), server) {
                    Some(*access)
                } else {
                    None
                }
            },
            AccessControl::Domain(d, time, access) => {
                if is_live(time, now) && has_domain_suffix(d.as_str(), server) {
                    Some(*access)
                } else {
                    None
                }
            },
            AccessControl::Local(time, access) => {
                if is_live(time, now) && str_same(server, local_server) {
                    Some(*access)
                } else {
                    None
                }
            },
        }
    }
}

/// Whether two texts are the same.
fn str_same(a: &str, b: &str) -> (r: bool)
    ensures
        r == (a@ == b@),
{
    let x = a.to_owned();
    let y = b.to_owned();
    x == y
}

/// What the first rule at or after `i` that holds gives, if any.
pub open spec fn first_access<T: Copy>(
    rules: Seq<AccessControl<T>>,
    server: Seq<char>,
    name: Seq<char>,
    local_server: Seq<char>,
    now: Timestamp,
    i: int,
) -> Option<T>
    decreases rules.len() - i,
{
    if i < 0 || i >= rules.len() {
        None
    } else if rules[i].applies(server, name, local_server, now) {
        Some(rules[i].access())
    } else {
        first_access(rules, server, name, local_server, now, i + 1)
    }
}

impl<T: Copy> AccessSetting<T> {
    /// What the setting gives `player` at `now`, where `local_server` is this
    /// server: what the first rule that matches the player and has not
    /// expired gives, or the default.
    pub open spec fn spec_check(self, player: PlayerIdentifier, local_server: Seq<char>, now: Timestamp) -> T {
        match first_access(self.rules@, player.spec_server(local_server), player.spec_name(), local_server, now, 0) {
            Some(a) => a,
            None => self.default,
        }
    }

    /// What the setting gives `player` at `now`.
    pub fn check(&self, player: &PlayerIdentifier, local_server: &str, now: Timestamp) -> (r: T)
        ensures
            r == self.spec_check(*player, local_server@, now),
    {
        let server = player.get_server(local_server);
        let name = player.name();
        let mut i: usize = 0;
        while i < self.rules.len()
            invariant
                i <= self.rules@.len(),
                server@ == player.spec_server(local_server@),
                name@ == player.spec_name(),
                first_access(self.rules@, server@, name@, local_server@, now, 0) == first_access(
                    self.rules@,
                    server@,
                    name@,
                    local_server@,
                    now,
                    i as int,
                ),
            decreases self.rules@.len() - i,
        {
            match self.rules[i].check_rule(server, name, local_server, &now) {
                Some(a) => {
                    return a;
                },
                None => {},
            }
            i = i + 1;
        }
        self.default
    }
}

/// A rule whose time has come matches no player and is dropped when kept
/// locally.
pub proof fn lemma_expired_rule_is_inert<T: Copy>(
    rule: AccessControl<T>,
    server: Seq<char>,
    name: Seq<char>,
    local_server: Seq<char>,
    now: Timestamp,
)
    requires
        !live(
            match rule {
                AccessControl::Player(_, t, _) => t,
                AccessControl::Server(_, t, _) => t,
                AccessControl::Domain(_, t, _) => t,
                AccessControl::Local(t, _) => t,
            },
            now,
        ),
    ensures
        !rule.applies(server, name, local_server, now),
        rule.spec_into_local(local_server, now) is None,
{
}

/// Keeping a rule locally changes neither whom it matches nor what it gives
/// while it holds.
pub proof fn lemma_into_local_keeps_meaning<T: Copy>(
    rule: AccessControl<T>,
    server: Seq<char>,
    name: Seq<char>,
    local_server: Seq<char>,
    now: Timestamp,
)
    requires
        rule.spec_into_local(local_server, now) is Some,
    ensures
        rule.spec_into_local(local_server, now)->0.applies(server, name, local_server, now) == rule.applies(
            server,
            name,
            local_server,
            now,
        ),
        rule.spec_into_local(local_server, now)->0.access() == rule.access(),
{
}

} // verus!
