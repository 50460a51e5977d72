//! Peer servers, by name.

use vstd::prelude::*;

verus! {

/// A peer server, by its name.
#[derive(Clone, Debug, PartialEq, Eq, Hash)]
pub struct Peer(String);

impl Peer {
    /// The peer's name.
    pub closed spec fn name(&self) -> Seq<char> {
        self.0@
    }

    /// The peer's name.
    pub fn as_str(&self) -> (r: &str)
        ensures
            r@ == self.name(),
    {
        self.0.as_str()
    }
}

impl From<String> for Peer {
    fn from(value: String) -> (r: Peer)
        ensures
            r.name() == value@,
    {
        Peer(value)
    }
}

impl vstd::std_specs::convert::FromSpecImpl<String> for Peer {
    open spec fn obeys_from_spec() -> bool {
        true
    }

    closed spec fn from_spec(v: String) -> Peer {
        Peer(v)
    }
}

} // verus!
