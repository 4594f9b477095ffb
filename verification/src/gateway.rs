use vstd::prelude::*;
use crate::claims::Claims;
use crate::strutil::matches_at;
use crate::token::{verify, spec_verify, RejectionReason};

verus! {

/// The scheme prefix a bearer credential must carry in the header value.
pub open spec fn has_bearer_prefix(h: Seq<char>) -> bool {
    h.len() >= 7 && h.subrange(0, 7) == "Bearer "@
}

/// The raw token: the header value with its scheme prefix stripped.
pub open spec fn bearer_token_of(h: Seq<char>) -> Seq<char> {
    h.subrange(7, h.len() as int)
}

/// What authentication yields for a request: the header must be present and
/// carry the scheme prefix, and the token behind the prefix must verify.
pub open spec fn spec_authenticate(
    header: Option<Seq<char>>,
    secret: Seq<u8>,
    now: u64,
) -> Result<Claims, RejectionReason> {
    match header {
        None => Err(RejectionReason::Unauthenticated),
        Some(h) => if has_bearer_prefix(h) {
            spec_verify(bearer_token_of(h), secret, now)
        } else {
            Err(RejectionReason::Unauthenticated)
        },
    }
}

/// The externally visible outcome of the gateway.  Every failed
/// authentication collapses to the one `Unauthorized` value, so a caller
/// cannot tell an expired credential from a forged one.
#[derive(Clone, Copy, PartialEq, Eq, Structural, Debug)]
pub enum GateOutcome {
    /// The identity attached to the request; handlers run only with this.
    Authenticated(Claims),
    /// Terminal short-circuit: the request never reaches a handler.
    Unauthorized,
}

/// The gateway's outcome for a request: the authenticated identity, or the
/// single collapsed rejection.
pub open spec fn spec_intercept(
    header: Option<Seq<char>>,
    secret: Seq<u8>,
    now: u64,
) -> GateOutcome {
    match spec_authenticate(header, secret, now) {
        Ok(c) => GateOutcome::Authenticated(c),
        Err(_) => GateOutcome::Unauthorized,
    }
}

/// Establish the caller's identity from the `Authorization` header value,
/// or say exactly why no identity could be established.
pub fn authenticate(header: Option<&str>, secret: &[u8], now: u64) -> (r: Result<
    Claims,
    RejectionReason,
>)
    ensures
        r == spec_authenticate(
            match header {
                Some(h) => Some(h@),
                None => None,
            },
            secret@,
            now,
        ),
{
    proof {
        reveal_strlit("Bearer ");
    }
    match header {
        None => Err(RejectionReason::Unauthenticated),
        Some(h) => {
            let h_len = h.unicode_len();
            if h_len < 7 {
                return Err(RejectionReason::Unauthenticated);
            }
            if !matches_at(h, "Bearer ", 0) {
                assert(!has_bearer_prefix(h@)) by {
                    assert(h@.subrange(0, 7) == h@.subrange(0, 0 + "Bearer "@.len() as int));
                }
                return Err(RejectionReason::Unauthenticated);
            }
            let token = h.substring_char(7, h_len);
            assert(h@.subrange(0, 7) == h@.subrange(0, 0 + "Bearer "@.len() as int));
            verify(token, secret, now)
        },
    }
}

/// The gateway stage itself: run once per request, before any protected
/// handler.  The per-request identity value is produced here and nowhere
/// else; on any failure the request is answered with the one collapsed
/// unauthorized outcome and no handler runs.
pub struct AuthMiddleware {
    /// The process-wide signing secret, loaded once at startup.
    pub secret: Vec<u8>,
}

impl AuthMiddleware {
    /// Configure the gateway with the signing secret.
    pub fn new(secret: Vec<u8>) -> (r: AuthMiddleware)
        ensures
            r.secret@ == secret@,
    {
        AuthMiddleware { secret }
    }

    /// Intercept one request, given its `Authorization` header value and the
    /// current time.
    pub fn intercept(&self, header: Option<&str>, now: u64) -> (r: GateOutcome)
        ensures
            r == spec_intercept(
                match header {
                    Some(h) => Some(h@),
                    None => None,
                },
                self.secret@,
                now,
            ),
    {
        match authenticate(header, self.secret.as_slice(), now) {
            Ok(c) => GateOutcome::Authenticated(c),
            Err(_) => GateOutcome::Unauthorized,
        }
    }
}

/// Law: no handler ever sees an identity that did not verify.  An
/// authenticated outcome means the header was present, carried the scheme
/// prefix, and its token verified to exactly the attached claims — which are
/// not expired at the time the gateway checked.
pub proof fn lemma_authenticated_identity_is_valid(
    header: Option<Seq<char>>,
    secret: Seq<u8>,
    now: u64,
    c: Claims,
)
    requires
        spec_intercept(header, secret, now) == GateOutcome::Authenticated(c),
    ensures
        header is Some,
        has_bearer_prefix(header->0),
        spec_verify(bearer_token_of(header->0), secret, now) == Ok::<Claims, RejectionReason>(c),
        now < c.exp,
{
}

/// Law: rejected requests are externally indistinguishable.  Whatever the
/// reasons — missing header, malformed token, wrong signature, expiry — two
/// failed authentications produce the very same gateway outcome.
pub proof fn lemma_rejections_look_identical(
    header1: Option<Seq<char>>,
    header2: Option<Seq<char>>,
    secret: Seq<u8>,
    now: u64,
)
    requires
        spec_authenticate(header1, secret, now) is Err,
        spec_authenticate(header2, secret, now) is Err,
    ensures
        spec_intercept(header1, secret, now) == spec_intercept(header2, secret, now),
{
}

} // verus!
