//! Which list of realms the realm selector shows.

use vstd::prelude::*;

verus! {

/// The list of realms on show: the player's own, bookmarked ones, those on
/// the local server, those on a remote server, or one given by URL.
#[derive(Clone, Debug)]
pub enum RealmSelector {
    Player,
    Local,
    Bookmarks,
    Remote(String),
    Url(String),
}

impl Default for RealmSelector {
    fn default() -> (r: RealmSelector)
        ensures
            r is Player,
    {
        RealmSelector::Player
    }
}

impl RealmSelector {
    /// The position of the selection in the selector's menu.
    pub open spec fn spec_id(&self) -> usize {
        match self {
            RealmSelector::Player => 0,
            RealmSelector::Bookmarks => 1,
            RealmSelector::Local => 2,
            RealmSelector::Remote(_) => 3,
            RealmSelector::Url(_) => 4,
        }
    }

    /// The position of the selection in the selector's menu.
    pub fn id(&self) -> (r: usize)
        ensures
            r == self.spec_id(),
    {
        match self {
            RealmSelector::Player => 0,
            RealmSelector::Bookmarks => 1,
            RealmSelector::Local => 2,
            RealmSelector::Remote(_) => 3,
            RealmSelector::Url(_) => 4,
        }
    }

    /// The selection at a menu position, with an empty server or URL.
    pub fn select(index: usize) -> (r: RealmSelector)
        requires
            index < 5,
        ensures
            r.spec_id() == index,
            r matches RealmSelector::Remote(s) ==> s@ == Seq::<char>::empty(),
            r matches RealmSelector::Url(s) ==> s@ == Seq::<char>::empty(),
    {
        match index {
            0 => RealmSelector::Player,
            1 => RealmSelector::Bookmarks,
            2 => RealmSelector::Local,
            3 => RealmSelector::Remote(String::new()),
            _ => RealmSelector::Url(String::new()),
        }
    }
}

} // verus!
