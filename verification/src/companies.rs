use vstd::prelude::*;
use crate::listing::opt_view;

verus! {

/// Request body for creating a company.
pub struct CreateCompany {
    pub name: String,
    pub description: Option<String>,
}

/// The values a company creation stores; the identifier is assigned by the
/// store itself.
pub struct NewCompany {
    pub name: String,
    pub description: Option<String>,
    pub user_id: i64,
    pub created_at: i64,
}

/// The values to store for one company creation: the caller's fields as
/// given, owned by the authenticated caller, created now.
pub fn prepare_company(info: CreateCompany, user_id: i64, now: i64) -> (c: NewCompany)
    ensures
        c.name@ == info.name@,
        opt_view(c.description) == opt_view(info.description),
        c.user_id == user_id,
        c.created_at == now,
{
    NewCompany { name: info.name, description: info.description, user_id, created_at: now }
}

} // verus!
