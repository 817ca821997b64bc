//! Asset gateway core: the verified control plane of a media-asset gateway
//! that fronts an S3-compatible object store.
//!
//! The library holds the decisions the gateway makes for each request:
//! classifying filenames as allowed media types, translating store failures
//! into domain outcomes, gating uploads on capability claims, aggregating
//! paginated listings, and assembling batch metadata best-effort. The
//! network edge (HTTP framework, object-store client) hands these functions
//! plain values and receives plain values back.

pub mod config;
pub mod connections;
pub mod errors;
pub mod routes;
pub mod setup;
pub mod store;
pub mod validate;
