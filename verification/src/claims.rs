use vstd::prelude::*;

verus! {

/// The caller's role: a closed two-variant enumeration, so that policy
/// checks are exhaustive and a misspelled role string cannot fail open.
#[derive(Clone, Copy, PartialEq, Eq, Structural, Debug)]
pub enum Role {
    User,
    Admin,
}

/// Identity established by successful verification of a signed credential.
/// Immutable, created per request by the gateway and discarded afterwards.
#[derive(Clone, Copy, PartialEq, Eq, Structural, Debug)]
pub struct Claims {
    /// Subject id of the authenticated caller.
    pub sub: i64,
    /// The caller's role.
    pub role: Role,
    /// Expiry timestamp, in unix seconds.
    pub exp: u64,
}

/// True exactly when the identity carries the admin role.
pub fn is_admin(claims: &Claims) -> (r: bool)
    ensures
        r == (claims.role == Role::Admin),
{
    claims.role == Role::Admin
}

} // verus!
