//! Process configuration as plain values. The process edge fills this from
//! its environment; the library only carries the values.

use vstd::prelude::*;

verus! {

/// Connection settings for the object store and the verifier key for the
/// authentication collaborator.
pub struct AppConfig {
    pub minio_url: String,
    pub minio_access: String,
    pub minio_secret: String,
    pub jwt_public_key: String,
}

} // verus!
