//! Players, named by the server they belong to.

use vstd::prelude::*;

verus! {

/// A player: one of this server, or one of another server.
#[derive(Debug)]
pub enum PlayerIdentifier {
    Local(String),
    Remote { server: String, player: String },
}

/// A player, by the text of its names.
pub enum PlayerView {
    Local(Seq<char>),
    Remote { server: Seq<char>, player: Seq<char> },
}

impl View for PlayerIdentifier {
    type V = PlayerView;

    open spec fn view(&self) -> PlayerView {
        match self {
            PlayerIdentifier::Local(name) => PlayerView::Local(name@),
            PlayerIdentifier::Remote { server, player } => PlayerView::Remote { server: server@, player: player@ },
        }
    }
}

impl Clone for PlayerIdentifier {
    /// The same player.
    fn clone(&self) -> (r: Self)
        ensures
            r == *self,
    {
        match self {
            PlayerIdentifier::Local(name) => PlayerIdentifier::Local(name.clone()),
            PlayerIdentifier::Remote { server, player } => PlayerIdentifier::Remote {
                server: server.clone(),
                player: player.clone(),
            },
        }
    }
}

impl PlayerIdentifier {
    /// Whether the two name the same player.
    pub fn same(&self, other: &PlayerIdentifier) -> (r: bool)
        ensures
            r == (self@ == other@),
    {
        match (self, other) {
            (PlayerIdentifier::Local(a), PlayerIdentifier::Local(b)) => *a == *b,
            (
                PlayerIdentifier::Remote { server, player },
                PlayerIdentifier::Remote { server: s, player: p },
            ) => *server == *s && *player == *p,
            _ => false,
        }
    }
}

impl PlayerIdentifier {
    /// The server the player belongs to, where `local_server` is this one.
    pub open spec fn spec_server(self, local_server: Seq<char>) -> Seq<char> {
        match self {
            PlayerIdentifier::Local(_) => local_server,
            PlayerIdentifier::Remote { server, .. } => server@,
        }
    }

    /// The player's name on its server.
    pub open spec fn spec_name(self) -> Seq<char> {
        match self {
            PlayerIdentifier::Local(name) => name@,
            PlayerIdentifier::Remote { player, .. } => player@,
        }
    }

    /// The server the player belongs to, where `local_server` is this one.
    pub fn get_server<'a>(&'a self, local_server: &'a str) -> (r: &'a str)
        ensures
            r@ == self.spec_server(local_server@),
    {
        match self {
            PlayerIdentifier::Local(_) => local_server,
            PlayerIdentifier::Remote { server, .. } => server.as_str(),
        }
    }

    /// The player's name on its server.
    pub fn name(&self) -> (r: &str)
        ensures
            r@ == self.spec_name(),
    {
        match self {
            PlayerIdentifier::Local(name) => name.as_str(),
            PlayerIdentifier::Remote { player, .. } => player.as_str(),
        }
    }
}

} // verus!
