//! Error types of the data-access layer.
//!
//! The taxonomy mirrors the three failure families of the tier: store-level
//! errors (a missing row on a single-row read, a violated uniqueness
//! constraint on a key-changing update), pool construction failure, and the
//! single opaque error kind surfaced at the pool-checkout boundary.

use vstd::prelude::*;

verus! {

/// A store-level failure of a CRUD or join operation.
///
/// Single-row reads signal a missing record with `NotFound`; updates and
/// deletes signal absence through a zero row count instead (a deliberately
/// asymmetric convention preserved from the read-vs-write distinction).
/// `UniqueViolation` is the store's native constraint error, raised when an
/// update would move a record onto a primary key that another record
/// already holds.
#[derive(Clone, Copy, Debug, PartialEq, Eq, Structural)]
pub enum DbError {
    /// A single-row read matched zero rows.
    NotFound,
    /// A write would duplicate a primary key that must stay unique.
    UniqueViolation,
}

/// Failure to construct a connection pool at service startup.
///
/// Construction is validated against the shape of the connection string;
/// a malformed URI is rejected here rather than at first use.
#[derive(Clone, Copy, Debug, PartialEq, Eq, Structural)]
pub enum PoolError {
    /// The connection string does not carry the backend's URI scheme.
    MalformedUri,
    /// No free connection slot is left in the bounded pool.
    Exhausted,
}

/// The single opaque error kind surfaced at the pool-checkout boundary.
///
/// Exhaustion, backend failure and timeout are deliberately not
/// distinguished: callers must treat a failed checkout as opaque and
/// non-retryable at this layer.
#[derive(Clone, Copy, Debug, PartialEq, Eq, Structural)]
pub enum CustomHttpError {
    /// The pool could not supply a connection.
    Unknown,
}

} // verus!
