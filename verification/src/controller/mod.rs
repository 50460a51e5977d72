//! Controllers that run realms and the values they exchange.

use vstd::prelude::*;

pub mod editor;
pub mod puzzle;

verus! {

/// Why a saved controller could not be loaded: its own error, an error
/// decoding the saved data, or saved data that does not fit the definition.
pub enum LoadError<E, S> {
    State(S),
    Deserialization(E),
    DeserializationMismatch,
}

/// The standing of a player in a realm.
#[derive(Copy, Clone, Debug, PartialEq, Eq, Hash)]
pub enum PlayerKind {
    Regular,
    Admin,
    Owner,
}

} // verus!
