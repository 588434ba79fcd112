use vstd::prelude::*;

pub mod accounts;
pub mod assist;
pub mod auth;
pub mod date;
pub mod estimates;
pub mod export;
pub mod laws;
pub mod master;
pub mod recurring;
pub mod render;
pub mod reports;
pub mod schedule;
pub mod seq_util;
pub mod store;
pub mod text;
pub mod types;

verus! {

/// The error taxonomy every operation of this crate reports.
///
/// `NotFound` deliberately covers both "no such row" and "owned by another
/// caller": the two cases are indistinguishable to the caller so that the
/// existence of other callers' data is never revealed.
#[derive(Clone, Copy, Debug, PartialEq, Eq, Structural)]
pub enum ServiceError {
    /// The request carried no valid caller credential.
    Unauthenticated,
    /// The entity is absent, or belongs to a different caller.
    NotFound,
    /// A uniqueness constraint was violated.
    Conflict,
    /// The request itself is malformed (unknown interval unit, unknown
    /// export kind, non-positive interval count).
    InvalidInput,
    /// The store or a rendering collaborator failed.
    Internal,
}

} // verus!
