//! Where players can be sent, and the settings a realm's owner chooses.

use vstd::prelude::*;

verus! {

/// A realm a player can be sent to.
#[derive(Clone, Debug, PartialEq, Eq)]
pub enum RealmTarget<S> {
    Home,
    LocalRealm { asset: S, owner: S },
    RemoteRealm { asset: S, owner: S, server: S },
}

/// The value of one realm setting.
#[derive(Clone, Debug, PartialEq, Eq)]
pub enum RealmSetting<S> {
    Bool(bool),
    Num(u32),
    Realm(RealmTarget<S>),
}

/// The settings of a realm, by name; where a name occurs more than once, a
/// lookup finds its first entry.
#[derive(Clone, Debug)]
pub struct RealmSettings<S> {
    pub entries: Vec<(S, RealmSetting<S>)>,
}

impl RealmTarget<String> {
    /// A copy of this target.
    pub fn duplicate(&self) -> (r: Self)
        ensures
            r == *self,
    {
        match self {
            RealmTarget::Home => RealmTarget::Home,
            RealmTarget::LocalRealm { asset, owner } => RealmTarget::LocalRealm { asset: asset.clone(), owner: owner.clone() },
            RealmTarget::RemoteRealm { asset, owner, server } => RealmTarget::RemoteRealm {
                asset: asset.clone(),
                owner: owner.clone(),
                server: server.clone(),
            },
        }
    }
}

/// The setting named `name` among `entries`: the first entry with that name.
pub open spec fn setting_named(entries: Seq<(String, RealmSetting<String>)>, name: Seq<char>) -> Option<RealmSetting<String>>
    decreases entries.len(),
{
    if entries.len() == 0 {
        None
    } else if entries[0].0@ == name {
        Some(entries[0].1)
    } else {
        setting_named(entries.drop_first(), name)
    }
}

impl RealmSettings<String> {
    /// The setting called `name`, if the realm has one.
    pub fn get(&self, name: &String) -> (r: Option<&RealmSetting<String>>)
        ensures
            match r {
                Some(s) => setting_named(self.entries@, name@) == Some(*s),
                None => setting_named(self.entries@, name@) is None,
            },
    {
        let mut i: usize = 0;
        proof {
            assert(self.entries@.skip(0) =~= self.entries@);
        }
        while i < self.entries.len()
            invariant
                i <= self.entries@.len(),
                setting_named(self.entries@, name@) == setting_named(self.entries@.skip(i as int), name@),
            decreases self.entries@.len() - i,
        {
            proof {
                assert(self.entries@.skip(i as int).drop_first() =~= self.entries@.skip(i as int + 1));
            }
            if self.entries[i].0 == *name {
                return Some(&self.entries[i].1);
            }
            i = i + 1;
        }
        None
    }
}

} // verus!
