use job_board::accounts::{
    login, prepare_registration, AuthError, LoginRequest, RegisterRequest, UserRow,
};
use job_board::claims::Role;
use job_board::token::verify;

const SECRET: &[u8] = b"server-secret-one";
const NOW: u64 = 1_700_000_000;

fn register(email: &str, password: &str) -> UserRow {
    let req = RegisterRequest { email: email.to_string(), password: password.to_string() };
    let new_user = prepare_registration(&req).expect("hashing");
    assert_eq!(new_user.email, email);
    assert_eq!(new_user.role, "user");
    UserRow {
        id: 7,
        email: new_user.email,
        password_hash: new_user.password_hash,
        role: new_user.role,
    }
}

#[test]
fn registered_account_can_log_in_and_token_verifies() {
    let row = register("a@example.com", "hunter2");
    let req = LoginRequest { email: "a@example.com".to_string(), password: "hunter2".to_string() };
    let resp = login(Some(&row), &req, SECRET, NOW).expect("login");
    assert_eq!(resp.message, "Login successful");
    let claims = verify(&resp.token, SECRET, NOW).expect("verification");
    assert_eq!(claims.sub, 7);
    assert_eq!(claims.role, Role::User);
    assert_eq!(claims.exp, NOW + 86400);
}

#[test]
fn wrong_password_is_invalid_credentials() {
    let row = register("a@example.com", "hunter2");
    let req = LoginRequest { email: "a@example.com".to_string(), password: "hunter3".to_string() };
    assert!(matches!(login(Some(&row), &req, SECRET, NOW), Err(AuthError::InvalidCredentials)));
}

#[test]
fn unknown_account_is_invalid_credentials() {
    let req = LoginRequest { email: "b@example.com".to_string(), password: "hunter2".to_string() };
    assert!(matches!(login(None, &req, SECRET, NOW), Err(AuthError::InvalidCredentials)));
}

#[test]
fn admin_row_logs_in_with_admin_role() {
    let mut row = register("root@example.com", "s3cret!");
    row.role = "admin".to_string();
    let req = LoginRequest { email: "root@example.com".to_string(), password: "s3cret!".to_string() };
    let resp = login(Some(&row), &req, SECRET, NOW).expect("login");
    let claims = verify(&resp.token, SECRET, NOW).expect("verification");
    assert_eq!(claims.role, Role::Admin);
}
