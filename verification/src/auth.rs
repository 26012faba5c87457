//! The caller identity and the authorization guard for mutations.

use vstd::prelude::*;
use crate::error::ServiceError;

verus! {

/// The caller identity that the authentication service resolves for a
/// request. Only the administrator flag matters to this resource.
#[derive(Clone, Copy, Debug, PartialEq, Eq, Structural)]
pub struct User {
    pub administrator: bool,
}

/// The guard in front of create and delete: no resolvable identity is
/// `Unauthenticated`, a non-administrator is `Forbidden`, an administrator
/// passes. It runs before any storage mutation.
pub fn authorize(identity: Option<User>) -> (r: Result<User, ServiceError>)
    ensures
        identity is None ==> r == Err::<User, ServiceError>(ServiceError::Unauthenticated),
        identity matches Some(user) ==> r == (if user.administrator {
            Ok::<User, ServiceError>(user)
        } else {
            Err::<User, ServiceError>(ServiceError::Forbidden)
        }),
{
    match identity {
        None => Err(ServiceError::Unauthenticated),
        Some(user) => {
            if !user.administrator {
                Err(ServiceError::Forbidden)
            } else {
                Ok(user)
            }
        },
    }
}

} // verus!
