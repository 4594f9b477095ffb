use job_board::claims::{Claims, Role};
use job_board::gateway::{AuthMiddleware, GateOutcome};
use job_board::token::issue_token;

const SECRET: &[u8] = b"server-secret-one";
const NOW: u64 = 1_700_000_000;

fn gateway() -> AuthMiddleware {
    AuthMiddleware::new(SECRET.to_vec())
}

#[test]
fn missing_header_is_unauthorized() {
    assert_eq!(gateway().intercept(None, NOW), GateOutcome::Unauthorized);
}

#[test]
fn header_without_bearer_prefix_is_unauthorized() {
    let token = issue_token(7, "user", NOW + 1000, SECRET);
    assert_eq!(gateway().intercept(Some(&token), NOW), GateOutcome::Unauthorized);
    assert_eq!(gateway().intercept(Some("Basic abc"), NOW), GateOutcome::Unauthorized);
    assert_eq!(gateway().intercept(Some("Bearer"), NOW), GateOutcome::Unauthorized);
}

#[test]
fn valid_bearer_token_is_authenticated() {
    let token = issue_token(7, "user", NOW + 1000, SECRET);
    let header = format!("Bearer {}", token);
    let outcome = gateway().intercept(Some(&header), NOW);
    assert_eq!(
        outcome,
        GateOutcome::Authenticated(Claims { sub: 7, role: Role::User, exp: NOW + 1000 })
    );
}

#[test]
fn expired_token_never_reaches_the_handler() {
    // A token that expired one second ago, on a protected route: the
    // response is the unauthorized outcome and the handler body never runs.
    let token = issue_token(7, "user", NOW - 1, SECRET);
    let header = format!("Bearer {}", token);
    let mut handler_invocations: u32 = 0;
    let outcome = gateway().intercept(Some(&header), NOW);
    match outcome {
        GateOutcome::Authenticated(_) => {
            handler_invocations += 1;
        }
        GateOutcome::Unauthorized => {}
    }
    assert_eq!(outcome, GateOutcome::Unauthorized);
    assert_eq!(handler_invocations, 0);
}

#[test]
fn rejections_are_externally_indistinguishable() {
    let expired = issue_token(7, "user", NOW - 1, SECRET);
    let forged = issue_token(7, "admin", NOW + 1000, b"other-secret");
    let expired_header = format!("Bearer {}", expired);
    let forged_header = format!("Bearer {}", forged);
    let g = gateway();
    let a = g.intercept(Some(&expired_header), NOW);
    let b = g.intercept(Some(&forged_header), NOW);
    let c = g.intercept(None, NOW);
    assert_eq!(a, b);
    assert_eq!(b, c);
}
