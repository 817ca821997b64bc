//! Request handlers: the per-operation decision logic of the gateway.

use vstd::prelude::*;

pub mod assets;
pub mod images;

verus! {

/// Grouping tag for the asset operations.
#[derive(Clone, Copy, Debug, PartialEq, Eq, Structural)]
pub enum ApiTags {
    Assets,
}

/// The root surface: liveness only.
pub struct RootApi;

impl RootApi {
    /// Liveness probe: always succeeds with an empty body.
    pub fn healthcheck(&self) {
    }
}

} // verus!
