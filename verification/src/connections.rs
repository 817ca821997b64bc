//! The object-store capability handle, modelled as the plain connection
//! values the gateway hands to the store client at the process edge.

use vstd::prelude::*;

verus! {

/// The settings an object-store client is built from. The gateway treats
/// the live client as an opaque capability; this type carries exactly what
/// the logic reads: where to connect and with which credentials.
pub struct ObjectStorage {
    pub url: String,
    pub access_key: String,
    pub secret_key: String,
}

} // verus!
