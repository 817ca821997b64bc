//! Error-domain translation: store-backend failures reduced to plain values
//! and classified into the gateway's closed outcome taxonomy.

use vstd::prelude::*;

verus! {

/// A failure reported by the object-store capability, reduced to the plain
/// values the gateway inspects. The network edge converts the client
/// library's error into this shape before handing it to the library.
#[derive(Clone, Copy, Debug, PartialEq, Eq, Structural)]
pub enum StoreFault {
    /// The store answered with an HTTP-style error carrying this status.
    Http(u16),
    /// The store answered with an HTTP-style error that carries no status.
    HttpNoStatus,
    /// The failure was not an HTTP-style error at all (transport failure,
    /// malformed response, interrupted body read).
    Transport,
}

/// The gateway's closed classification of a store failure. Nothing past this
/// point sees the store client's own error shapes.
#[derive(Clone, Copy, Debug, PartialEq, Eq, Structural)]
pub enum ErrorKind {
    /// The store reported an HTTP-style not-found for the operation.
    NotFound,
    /// The store reported any other HTTP-style error status.
    Upstream,
    /// The failure was not an HTTP-style error at all.
    Internal,
}

/// The classification applied uniformly to fetch, stat and batch-stat
/// failures: status 404 is NotFound, any other status is Upstream, and a
/// failure without an HTTP status is Internal.
pub open spec fn translate_spec(f: StoreFault) -> ErrorKind {
    match f {
        StoreFault::Http(status) => if status == 404 {
            ErrorKind::NotFound
        } else {
            ErrorKind::Upstream
        },
        StoreFault::HttpNoStatus => ErrorKind::Internal,
        StoreFault::Transport => ErrorKind::Internal,
    }
}

/// Classify a store failure into the gateway's error taxonomy.
pub fn translate_fault(f: &StoreFault) -> (k: ErrorKind)
    ensures
        k == translate_spec(*f),
{
    match f {
        StoreFault::Http(status) => if *status == 404 {
            ErrorKind::NotFound
        } else {
            ErrorKind::Upstream
        },
        StoreFault::HttpNoStatus => ErrorKind::Internal,
        StoreFault::Transport => ErrorKind::Internal,
    }
}

/// The HTTP status a translated error maps to at the response edge:
/// 404 for NotFound, 500 for both Upstream and Internal.
pub open spec fn status_of_spec(k: ErrorKind) -> u16 {
    match k {
        ErrorKind::NotFound => 404,
        ErrorKind::Upstream => 500,
        ErrorKind::Internal => 500,
    }
}

/// The HTTP status for a translated error kind.
pub fn status_of(k: &ErrorKind) -> (s: u16)
    ensures
        s == status_of_spec(*k),
{
    match k {
        ErrorKind::NotFound => 404,
        ErrorKind::Upstream => 500,
        ErrorKind::Internal => 500,
    }
}

} // verus!
