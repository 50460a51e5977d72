//! How players authenticate, and the fingerprints of their public keys.

use vstd::prelude::*;
use crate::digest::{hex_encode, hex_text, sha3_256, sha3_256_of};
use crate::time::Timestamp;

verus! {

/// A signature a player proves their identity with.
#[derive(Clone, Debug)]
pub struct AuthPublicKey<S> {
    pub name: S,
    pub nonce: S,
    pub signature: Vec<u8>,
}

/// The authentication mechanisms a client and server can use.
#[derive(Copy, Clone, Debug, PartialEq, Eq)]
pub enum AuthScheme {
    Kerberos,
    OpenIdConnect,
    Password,
}

/// What a server provides for OpenID Connect authentication.
#[derive(Clone, Debug)]
pub struct OpenIdConnectInformation {
    pub authorization_url: String,
    pub request_id: String,
}

/// A password-authenticated request.
#[derive(Clone, Debug)]
pub struct PasswordRequest<T> {
    pub username: T,
    pub password: T,
}

/// A public key a player registered, by its fingerprint.
#[derive(Clone, Debug)]
pub struct PublicKey<S> {
    pub fingerprint: S,
    pub created: Timestamp,
    pub last_used: Option<Timestamp>,
}

/// The fingerprint of a DER-encoded public key: its SHA3-256 digest in
/// lower-case hexadecimal.
pub fn compute_fingerprint(der: &[u8]) -> (r: String)
    ensures
        r@ == hex_text(sha3_256_of(der@)),
{
    let digest = sha3_256(der);
    hex_encode(digest.as_slice())
}

} // verus!
