//! The parts of the game client that decide rather than draw or connect:
//! which server accounts it knows, how values mix with altitude, how the
//! clock offsets against a server are kept, which direct messages it still
//! has to ask for, which list of realms the
//! realm selector shows, what the client does with each response from its
//! server, what its server connection caches and waits on, which
//! operations and screens its connection decides on, and where a player can
//! walk on a realm's platforms.

pub mod altitude_mixer;
pub mod configuration;
pub mod direct_message;
pub mod jitter;
pub mod paths;
pub mod peer;
pub mod realm_selector;
pub mod server;
pub mod session;
pub mod state;
