//! The client's saved configuration: the server accounts it knows.

use vstd::prelude::*;
use std::path::PathBuf;

verus! {

/// `std::path::PathBuf`, carried through as it is.
#[verifier::external_type_specification]
#[verifier::external_body]
pub struct ExPathBuf(PathBuf);

/// A server account the client can connect to: a player on a remote server,
/// or a local socket.
#[derive(Clone, Debug, PartialEq, Eq)]
pub enum ServerConfiguration {
    Remote { player: String, server: String },
    Socket(String),
}

/// A server account, by the text of its parts.
pub enum AccountView {
    Remote { player: Seq<char>, server: Seq<char> },
    Socket(Seq<char>),
}

impl View for ServerConfiguration {
    type V = AccountView;

    open spec fn view(&self) -> AccountView {
        match self {
            ServerConfiguration::Remote { player, server } => AccountView::Remote { player: player@, server: server@ },
            ServerConfiguration::Socket(path) => AccountView::Socket(path@),
        }
    }
}

impl ServerConfiguration {
    /// Whether two accounts are the same.
    pub fn same(&self, other: &ServerConfiguration) -> (r: bool)
        ensures
            r == (self@ == other@),
    {
        match (self, other) {
            (ServerConfiguration::Remote { player, server }, ServerConfiguration::Remote { player: p, server: s }) => *player
                == *p && *server == *s,
            (ServerConfiguration::Socket(a), ServerConfiguration::Socket(b)) => *a == *b,
            _ => false,
        }
    }
}

/// What the configuration file holds: the accounts, the client's
/// identifier, and its key pair.
#[derive(Clone, Debug)]
pub struct ConfigurationFile {
    pub accounts: Vec<ServerConfiguration>,
    pub client: String,
    pub private_key: String,
    pub public_key: String,
}

/// The client's configuration and the file it is saved in.
pub struct Configuration {
    data: ConfigurationFile,
    path: PathBuf,
}

/// The accounts of a list, by view.
pub open spec fn account_views(accounts: Seq<ServerConfiguration>) -> Seq<AccountView> {
    accounts.map_values(|a: ServerConfiguration| a@)
}

impl Configuration {
    /// The accounts, in order.
    pub closed spec fn accounts(&self) -> Seq<AccountView> {
        account_views(self.data.accounts@)
    }

    /// The file the configuration is saved in.
    pub closed spec fn file(&self) -> PathBuf {
        self.path
    }

    /// A configuration read from, or to be saved in, `path`.
    pub fn new(data: ConfigurationFile, path: PathBuf) -> (r: Self)
        ensures
            r.accounts() == account_views(data.accounts@),
            r.file() == path,
    {
        Configuration { data, path }
    }

    /// What is saved in the configuration file.
    pub fn data(&self) -> (r: &ConfigurationFile)
        ensures
            account_views(r.accounts@) == self.accounts(),
    {
        &self.data
    }

    /// The configuration file.
    pub fn path(&self) -> (r: &PathBuf)
        ensures
            *r == self.file(),
    {
        &self.path
    }

    /// Every account with its position.
    pub fn connections(&self) -> (r: Vec<(usize, &ServerConfiguration)>)
        ensures
            r@.len() == self.accounts().len(),
            forall|i: int| 0 <= i < r@.len() ==> (#[trigger] r@[i]).0 == i && r@[i].1@ == self.accounts()[i],
    {
        let mut result: Vec<(usize, &ServerConfiguration)> = Vec::new();
        let mut i: usize = 0;
        while i < self.data.accounts.len()
            invariant
                i <= self.data.accounts@.len(),
                result@.len() == i,
                forall|k: int| 0 <= k < i ==> (#[trigger] result@[k]).0 == k && result@[k].1@ == account_views(self.data.accounts@)[k],
            decreases self.data.accounts@.len() - i,
        {
            result.push((i, &self.data.accounts[i]));
            i = i + 1;
        }
        result
    }

    /// Forgets the account at position `item`, if there is one; the last
    /// account takes its place.
    pub fn remove(&mut self, item: usize)
        ensures
            item < old(self).accounts().len() ==> final(self).accounts() == old(self).accounts().update(
                item as int,
                old(self).accounts().last(),
            ).drop_last(),
            item >= old(self).accounts().len() ==> final(self).accounts() == old(self).accounts(),
    {
        if item < self.data.accounts.len() {
            let ghost before = self.data.accounts@;
            self.data.accounts.swap_remove(item);
            proof {
                assert(account_views(self.data.accounts@) =~= account_views(before).update(
                    item as int,
                    account_views(before).last(),
                ).drop_last());
            }
        }
    }

    /// Remembers an account unless it is already known; true when it was added.
    pub fn add_account(&mut self, account: ServerConfiguration) -> (r: bool)
        ensures
            r == !old(self).accounts().contains(account@),
            r ==> final(self).accounts() == old(self).accounts().push(account@),
            !r ==> final(self).accounts() == old(self).accounts(),
    {
        let mut i: usize = 0;
        while i < self.data.accounts.len()
            invariant
                i <= self.data.accounts@.len(),
                forall|k: int| 0 <= k < i ==> self.data.accounts@[k]@ != account@,
            decreases self.data.accounts@.len() - i,
        {
            if self.data.accounts[i].same(&account) {
                proof {
                    assert(account_views(self.data.accounts@)[i as int] == account@);
                }
                return false;
            }
            i = i + 1;
        }
        let ghost before = self.data.accounts@;
        proof {
            assert(!account_views(before).contains(account@)) by {
                if account_views(before).contains(account@) {
                    let k = choose|k: int| 0 <= k < account_views(before).len() && #[trigger] account_views(before)[k] == account@;
                    assert(before[k]@ == account@);
                }
            }
        }
        self.data.accounts.push(account);
        proof {
            assert(account_views(self.data.accounts@) =~= account_views(before).push(account@));
        }
        true
    }
}

} // verus!
