use job_board::claims::{Claims, Role};
use job_board::policy::{authorize, Decision, Operation};

const NOW: u64 = 1_700_000_000;

fn admin() -> Claims {
    Claims { sub: 1, role: Role::Admin, exp: NOW }
}

fn user(sub: i64) -> Claims {
    Claims { sub, role: Role::User, exp: NOW }
}

#[test]
fn admin_may_delete_someone_elses_resource() {
    // Admin-only delete on a resource owned by a different subject succeeds.
    let d = authorize(&admin(), Operation::AdminOnly, Some(99));
    assert_eq!(d, Decision::Allow);
}

#[test]
fn non_admin_is_forbidden_admin_only_operations() {
    // The same operation attempted by a non-admin — even one who owns some
    // other resource — is denied.
    let d = authorize(&user(7), Operation::AdminOnly, Some(7));
    assert_eq!(d, Decision::Deny);
}

#[test]
fn owner_may_act_on_own_resource() {
    assert_eq!(authorize(&user(7), Operation::OwnerOrAdmin, Some(7)), Decision::Allow);
}

#[test]
fn non_owner_is_denied_owner_scoped_operation() {
    assert_eq!(authorize(&user(7), Operation::OwnerOrAdmin, Some(3)), Decision::Deny);
}

#[test]
fn owner_scoped_operation_with_unknown_owner_fails_closed() {
    assert_eq!(authorize(&user(7), Operation::OwnerOrAdmin, None), Decision::Deny);
}

#[test]
fn admin_may_act_on_any_owner_scoped_resource() {
    assert_eq!(authorize(&admin(), Operation::OwnerOrAdmin, Some(3)), Decision::Allow);
    assert_eq!(authorize(&admin(), Operation::OwnerOrAdmin, None), Decision::Allow);
}

#[test]
fn any_identity_may_perform_authenticated_only_operations() {
    assert_eq!(authorize(&user(7), Operation::AuthenticatedOnly, None), Decision::Allow);
    assert_eq!(authorize(&admin(), Operation::AuthenticatedOnly, None), Decision::Allow);
}
