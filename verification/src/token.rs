use vstd::prelude::*;
use crate::claims::{Claims, Role};
use crate::strutil::str_eq;

verus! {

/// Why a credential was rejected.  The first three come from the verifier;
/// `Unauthenticated` is produced by the gateway when no usable credential
/// accompanies the request at all.
#[derive(Clone, Copy, PartialEq, Eq, Structural, Debug)]
pub enum RejectionReason {
    /// No credential, or one without the required scheme prefix.
    Unauthenticated,
    /// The token could not be decoded into a claim set.
    Malformed,
    /// The cryptographic signature does not verify against the secret.
    InvalidSignature,
    /// The claim's expiry timestamp is at or before the current time.
    Expired,
}

/// The claim set that the token-signing collaborator yields for a given token
/// and secret: subject, role string and expiry on success; on failure, `true`
/// stands for a signature mismatch and `false` for anything unparsable.
pub uninterp spec fn jwt_claims_of(token: Seq<char>, secret: Seq<u8>) -> Result<
    (i64, Seq<char>, u64),
    bool,
>;

/// Relies on jsonwebtoken::decode (HS256): parses the token, verifies its
/// signature against the secret, and hands back the sub/role/exp claims.
/// Expiry is deliberately not validated here — the verified caller compares
/// it against its own clock value — so the outcome is a function of the
/// token and the secret alone.
#[verifier::external_body]
fn jwt_decode_raw(token: &str, secret: &[u8]) -> (r: Result<(i64, String, u64), bool>)
    ensures
        (r is Ok) == (jwt_claims_of(token@, secret@) is Ok),
        r is Ok ==> r->Ok_0.0 == jwt_claims_of(token@, secret@)->Ok_0.0,
        r is Ok ==> r->Ok_0.1@ == jwt_claims_of(token@, secret@)->Ok_0.1,
        r is Ok ==> r->Ok_0.2 == jwt_claims_of(token@, secret@)->Ok_0.2,
        r is Err ==> r->Err_0 == jwt_claims_of(token@, secret@)->Err_0,
{
    let key = jsonwebtoken::DecodingKey::from_secret(secret);
    let mut v = jsonwebtoken::Validation::default();
    v.validate_exp = false;
    match jsonwebtoken::decode::<serde_json::Value>(token, &key, &v) {
        Ok(d) => match (
            d.claims.get("sub").and_then(serde_json::Value::as_i64),
            d.claims.get("role").and_then(serde_json::Value::as_str),
            d.claims.get("exp").and_then(serde_json::Value::as_u64),
        ) {
            (Some(s), Some(r), Some(e)) => Ok((s, r.to_string(), e)),
            _ => Err(false),
        },
        Err(e) => Err(matches!(e.kind(), jsonwebtoken::errors::ErrorKind::InvalidSignature)),
    }
}

/// Relies on jsonwebtoken::encode (HS256): signs a sub/role/exp claim set
/// with the secret.  The crate's own decode of the produced token under the
/// same secret yields exactly the claims that were signed.  Signing itself
/// cannot fail: the key comes from a secret (any length is a valid HMAC
/// key, matching the default header's algorithm family) and serializing the
/// claim map cannot error.
#[verifier::external_body]
fn jwt_encode_raw(sub: i64, role: &str, exp: u64, secret: &[u8]) -> (r: String)
    ensures
        jwt_claims_of(r@, secret@) is Ok,
        jwt_claims_of(r@, secret@)->Ok_0 == (sub, role@, exp),
{
    let mut m = serde_json::Map::new();
    m.insert("sub".to_string(), serde_json::Value::from(sub));
    m.insert("role".to_string(), serde_json::Value::from(role));
    m.insert("exp".to_string(), serde_json::Value::from(exp));
    let key = jsonwebtoken::EncodingKey::from_secret(secret);
    jsonwebtoken::encode(&jsonwebtoken::Header::default(), &serde_json::Value::Object(m), &key)
        .expect("HMAC signing with a secret key cannot fail")
}

/// The role denoted by a role string: `admin` names the admin role, any
/// other string the ordinary user role.
pub open spec fn spec_role_of(role: Seq<char>) -> Role {
    if role == "admin"@ {
        Role::Admin
    } else {
        Role::User
    }
}

/// What verification returns for a token, a secret and a clock reading:
/// a decode failure surfaces as `Malformed` or `InvalidSignature`, a decoded
/// claim set whose expiry is at or before `now` as `Expired`, and anything
/// else as the identity claim that was signed into the token.
pub open spec fn spec_verify(token: Seq<char>, secret: Seq<u8>, now: u64) -> Result<
    Claims,
    RejectionReason,
> {
    match jwt_claims_of(token, secret) {
        Err(sig) => if sig {
            Err(RejectionReason::InvalidSignature)
        } else {
            Err(RejectionReason::Malformed)
        },
        Ok((sub, role, exp)) => if exp <= now {
            Err(RejectionReason::Expired)
        } else {
            Ok((Claims { sub, role: spec_role_of(role), exp }))
        },
    }
}

/// Validate a raw bearer token against the signing secret and the current
/// time, producing the identity claim it encodes or the reason it is
/// rejected.  Pure: the outcome is a function of the three arguments.
pub fn verify(token: &str, secret: &[u8], now: u64) -> (r: Result<Claims, RejectionReason>)
    ensures
        r == spec_verify(token@, secret@, now),
{
    match jwt_decode_raw(token, secret) {
        Err(sig) => if sig {
            Err(RejectionReason::InvalidSignature)
        } else {
            Err(RejectionReason::Malformed)
        },
        Ok((sub, role, exp)) => {
            if exp <= now {
                Err(RejectionReason::Expired)
            } else {
                let is_admin_role = str_eq(role.as_str(), "admin");
                let r = if is_admin_role {
                    Role::Admin
                } else {
                    Role::User
                };
                Ok(Claims { sub, role: r, exp })
            }
        },
    }
}

/// Sign a claim set into a bearer token.  The produced token verifies back
/// to exactly the claims given here, under the same secret.
pub fn issue_token(sub: i64, role: &str, exp: u64, secret: &[u8]) -> (r: String)
    ensures
        jwt_claims_of(r@, secret@) is Ok,
        jwt_claims_of(r@, secret@)->Ok_0 == (sub, role@, exp),
{
    jwt_encode_raw(sub, role, exp, secret)
}

/// Law: a token whose claim set decodes to `(sub, role, exp)` under a secret
/// and is not yet expired verifies to exactly that subject and role.
pub proof fn lemma_verify_round_trip(
    token: Seq<char>,
    secret: Seq<u8>,
    sub: i64,
    role: Seq<char>,
    exp: u64,
    now: u64,
)
    requires
        jwt_claims_of(token, secret) == Ok::<(i64, Seq<char>, u64), bool>((sub, role, exp)),
        now < exp,
    ensures
        spec_verify(token, secret, now) == Ok::<Claims, RejectionReason>(
            (Claims { sub, role: spec_role_of(role), exp }),
        ),
{
}

/// Law: a token whose claim set decodes but whose expiry is at or before the
/// current time is rejected as expired — even though its signature is valid.
pub proof fn lemma_expired_is_rejected(
    token: Seq<char>,
    secret: Seq<u8>,
    sub: i64,
    role: Seq<char>,
    exp: u64,
    now: u64,
)
    requires
        jwt_claims_of(token, secret) == Ok::<(i64, Seq<char>, u64), bool>((sub, role, exp)),
        exp <= now,
    ensures
        spec_verify(token, secret, now) == Err::<Claims, RejectionReason>(
            RejectionReason::Expired,
        ),
{
}

/// Law: a token whose signature does not verify against the secret is
/// rejected as such, whatever the clock says.
pub proof fn lemma_bad_signature_is_rejected(token: Seq<char>, secret: Seq<u8>, now: u64)
    requires
        jwt_claims_of(token, secret) == Err::<(i64, Seq<char>, u64), bool>(true),
    ensures
        spec_verify(token, secret, now) == Err::<Claims, RejectionReason>(
            RejectionReason::InvalidSignature,
        ),
{
}

} // verus!
