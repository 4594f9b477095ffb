use vstd::prelude::*;
use argon2::{PasswordHasher, PasswordVerifier};
use crate::token::jwt_claims_of;

verus! {

/// Request body for registration.
pub struct RegisterRequest {
    pub email: String,
    pub password: String,
}

/// Request body for login.
pub struct LoginRequest {
    pub email: String,
    pub password: String,
}

/// Successful login: a message and the signed bearer token.
pub struct LoginSuccessResponse {
    pub message: String,
    pub token: String,
}

/// A stored account row, as the account logic sees it.
pub struct UserRow {
    pub id: i64,
    pub email: String,
    pub password_hash: String,
    pub role: String,
}

/// The values a successful registration stores.
pub struct NewUser {
    pub email: String,
    pub password_hash: String,
    pub role: String,
}

/// Why an account operation fails.
#[derive(Clone, Copy, PartialEq, Eq, Structural, Debug)]
pub enum AuthError {
    /// Unknown account, or the password does not match its hash.  The two
    /// are collapsed so a caller cannot probe which accounts exist.
    InvalidCredentials,
    /// The hashing collaborator failed.
    HashingFailed,
}

/// How long an issued credential lives, in seconds.
pub const TOKEN_LIFETIME_SECS: u64 = 86400;

/// Whether the password-hashing collaborator accepts `password` against the
/// hash string `hash`: a function of the two strings alone, since the salt
/// and the parameters ride inside the hash string.
pub uninterp spec fn argon_match(password: Seq<char>, hash: Seq<char>) -> bool;

/// Relies on argon2's verify_password: recomputes the hash of the password
/// with the salt and parameters carried in the hash string, and compares.
#[verifier::external_body]
fn verify_password_raw(password: &str, hash: &str) -> (r: bool)
    ensures
        r == argon_match(password@, hash@),
{
    argon2::Argon2::default().verify_password(password.as_bytes(), hash).is_ok()
}

/// Relies on argon2's hash_password, which draws a fresh random salt: of
/// the produced hash string nothing is assumed but that it verifies against
/// the password it was derived from.
#[verifier::external_body]
fn hash_password_raw(password: &str) -> (r: Option<String>)
    ensures
        r is Some ==> argon_match(password@, r->0@),
{
    argon2::Argon2::default().hash_password(password.as_bytes()).map(|h| h.to_string()).ok()
}

/// The values to store for a new registration: the email as given, the
/// password replaced by a hash that verifies against it, and the ordinary
/// user role.
pub fn prepare_registration(info: &RegisterRequest) -> (r: Result<NewUser, AuthError>)
    ensures
        r is Ok ==> argon_match(info.password@, r->Ok_0.password_hash@),
        r is Ok ==> r->Ok_0.email@ == info.email@,
        r is Ok ==> r->Ok_0.role@ == "user"@,
        r is Err ==> r->Err_0 == AuthError::HashingFailed,
{
    match hash_password_raw(info.password.as_str()) {
        Some(h) => Ok(
            NewUser { email: info.email.clone(), password_hash: h, role: "user".to_owned() },
        ),
        None => Err(AuthError::HashingFailed),
    }
}

/// Decide one login attempt against the stored row for the claimed email —
/// `None` when no such account exists.  A verified password is owed a
/// success: the signed credential carries the account's id and stored role
/// and expires one lifetime from now.
pub fn login(
    row: Option<&UserRow>,
    info: &LoginRequest,
    secret: &[u8],
    now: u64,
) -> (r: Result<LoginSuccessResponse, AuthError>)
    requires
        now + TOKEN_LIFETIME_SECS <= u64::MAX,
    ensures
        row is None ==> r == Err::<LoginSuccessResponse, AuthError>(AuthError::InvalidCredentials),
        row is Some && !argon_match(info.password@, row->0.password_hash@) ==> r == Err::<
            LoginSuccessResponse,
            AuthError,
        >(AuthError::InvalidCredentials),
        row is Some && argon_match(info.password@, row->0.password_hash@) ==> {
            &&& r is Ok
            &&& r->Ok_0.message@ == "Login successful"@
            &&& jwt_claims_of(r->Ok_0.token@, secret@) is Ok
            &&& jwt_claims_of(r->Ok_0.token@, secret@)->Ok_0 == (
                row->0.id,
                row->0.role@,
                (now + TOKEN_LIFETIME_SECS) as u64,
            )
        },
{
    match row {
        None => Err(AuthError::InvalidCredentials),
        Some(user) => {
            if !verify_password_raw(info.password.as_str(), user.password_hash.as_str()) {
                return Err(AuthError::InvalidCredentials);
            }
            let exp = now + TOKEN_LIFETIME_SECS;
            let token = crate::token::issue_token(user.id, user.role.as_str(), exp, secret);
            Ok(LoginSuccessResponse { message: "Login successful".to_owned(), token })
        },
    }
}

} // verus!
