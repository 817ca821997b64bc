//! Bootstrap: derive the object-store capability handle from configuration.

use vstd::prelude::*;
use crate::config::AppConfig;
use crate::connections::ObjectStorage;

verus! {

/// Everything bootstrap produces for the request handlers.
pub struct SetupResult {
    pub object_storage: ObjectStorage,
}

/// Build the object-store handle from the configured endpoint and
/// credentials, carrying each setting over unchanged.
pub fn get_object_storage(config: &AppConfig) -> (s: ObjectStorage)
    ensures
        s.url@ == config.minio_url@,
        s.access_key@ == config.minio_access@,
        s.secret_key@ == config.minio_secret@,
{
    ObjectStorage {
        url: config.minio_url.clone(),
        access_key: config.minio_access.clone(),
        secret_key: config.minio_secret.clone(),
    }
}

} // verus!
