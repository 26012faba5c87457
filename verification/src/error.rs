//! The error taxonomy of the category service, and the classification of
//! storage failures that the create operation performs.

use vstd::prelude::*;

verus! {

/// Why a category operation was refused.
///
/// Every variant maps to a distinct condition, so a caller can discriminate
/// "not signed in", "not allowed", "already exists" and "server failure"
/// without parsing messages.
#[derive(Clone, Copy, Debug, PartialEq, Eq, Structural)]
pub enum ServiceError {
    /// No caller identity could be resolved for a request that needs one.
    Unauthenticated,
    /// The caller was resolved but is not an administrator.
    Forbidden,
    /// A category with the requested name already exists.
    CategoryExists,
    /// Any other storage or infrastructure failure.
    InternalError,
}

/// How the storage backend reported a failed mutation.
///
/// The backend is required to signal a uniqueness violation as a typed value,
/// so the service never inspects free-text driver messages.
#[derive(Clone, Copy, Debug, PartialEq, Eq, Structural)]
pub enum StorageFailure {
    /// The mutation hit the uniqueness constraint on the category name.
    UniqueViolation,
    /// Connectivity loss or any other backend failure.
    Backend,
}

/// Classifies a failed insert: only the uniqueness violation is surfaced as
/// `CategoryExists`; every other backend failure collapses to
/// `InternalError`.
pub fn classify_create_failure(failure: StorageFailure) -> (e: ServiceError)
    ensures
        e == (if failure == StorageFailure::UniqueViolation {
            ServiceError::CategoryExists
        } else {
            ServiceError::InternalError
        }),
{
    match failure {
        StorageFailure::UniqueViolation => ServiceError::CategoryExists,
        StorageFailure::Backend => ServiceError::InternalError,
    }
}

} // verus!
