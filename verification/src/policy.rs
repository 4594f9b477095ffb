use vstd::prelude::*;
use crate::claims::{Claims, Role};

verus! {

/// The kinds of protected operation a handler may perform.  Every operation
/// maps to exactly one policy; there is no default-allow.
#[derive(Clone, Copy, PartialEq, Eq, Structural, Debug)]
pub enum Operation {
    /// Reserved for the admin role alone.
    AdminOnly,
    /// Permitted to the admin role, or to the owner of the target resource.
    OwnerOrAdmin,
    /// Permitted to any authenticated identity.
    AuthenticatedOnly,
}

/// A pure access decision.  Deny is final: no partial or degraded result.
#[derive(Clone, Copy, PartialEq, Eq, Structural, Debug)]
pub enum Decision {
    Allow,
    Deny,
}

/// The access policy, as a total function over identity, operation kind and
/// (for owner-scoped operations) the target resource's owner.
pub open spec fn spec_authorize(
    identity: Claims,
    operation: Operation,
    resource_owner: Option<i64>,
) -> Decision {
    match operation {
        Operation::AdminOnly => if identity.role == Role::Admin {
            Decision::Allow
        } else {
            Decision::Deny
        },
        Operation::OwnerOrAdmin => if identity.role == Role::Admin || resource_owner == Some(
            identity.sub,
        ) {
            Decision::Allow
        } else {
            Decision::Deny
        },
        Operation::AuthenticatedOnly => Decision::Allow,
    }
}

/// Decide whether `identity` may perform `operation` on a resource owned by
/// `resource_owner`.  Total and side-effect-free; an owner-scoped operation
/// with no known owner fails closed.
pub fn authorize(identity: &Claims, operation: Operation, resource_owner: Option<i64>) -> (d:
    Decision)
    ensures
        d == spec_authorize(*identity, operation, resource_owner),
{
    match operation {
        Operation::AdminOnly => {
            if identity.role == Role::Admin {
                Decision::Allow
            } else {
                Decision::Deny
            }
        },
        Operation::OwnerOrAdmin => {
            let owns = match resource_owner {
                Some(o) => o == identity.sub,
                None => false,
            };
            if identity.role == Role::Admin || owns {
                Decision::Allow
            } else {
                Decision::Deny
            }
        },
        Operation::AuthenticatedOnly => Decision::Allow,
    }
}

/// Law: an admin identity is allowed any operation, unconditionally.
pub proof fn lemma_admin_always_allowed(
    identity: Claims,
    operation: Operation,
    resource_owner: Option<i64>,
)
    requires
        identity.role == Role::Admin,
    ensures
        spec_authorize(identity, operation, resource_owner) == Decision::Allow,
{
}

/// Law: a user-role identity is allowed an owner-scoped operation exactly
/// when the resource's owner is its own subject id.
pub proof fn lemma_user_owner_scoped(identity: Claims, resource_owner: Option<i64>)
    requires
        identity.role == Role::User,
    ensures
        (spec_authorize(identity, Operation::OwnerOrAdmin, resource_owner) == Decision::Allow)
            <==> (resource_owner == Some(identity.sub)),
{
}

/// Law: a user-role identity is never allowed an admin-only operation.
pub proof fn lemma_user_denied_admin_only(identity: Claims, resource_owner: Option<i64>)
    requires
        identity.role == Role::User,
    ensures
        spec_authorize(identity, Operation::AdminOnly, resource_owner) == Decision::Deny,
{
}

} // verus!
