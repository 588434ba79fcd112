//! The auth context resolver: a bearer credential is parsed and checked
//! locally against a shared secret, yielding the caller identity that scopes
//! every store operation. Verification is stateless: it is a function of the
//! header and the secret alone, apart from the expiry check against the
//! clock.

use vstd::prelude::*;
use vstd::string::StrSliceExecFns;

use crate::ServiceError;
use crate::text::str_eq;

verus! {

/// The signed claims a token carries: subject identifier, expiry and
/// issue time as Unix seconds.
#[derive(Clone, Copy, Debug, PartialEq, Eq, Structural)]
pub struct Claims {
    pub sub: i32,
    pub exp: usize,
    pub iat: usize,
}

/// The authenticated caller identity; every store read and write is scoped
/// to it.
#[derive(Clone, Copy, Debug, PartialEq, Eq, Structural)]
pub struct AuthContext {
    pub user_id: i32,
}

/// The `(sub, exp, iat)` triple a token yields under a secret when its
/// HMAC-SHA256 signature verifies and its claims parse — a function of the
/// token and the secret alone. What it is on given values is deliberately
/// unstated; only the trusted items below speak of it.
pub uninterp spec fn jwt_payload(token: Seq<char>, secret: Seq<char>) -> Option<(int, int, int)>;

/// Relies on jsonwebtoken::encode: serialises the claims as a JSON object
/// and signs them with HMAC-SHA256 under the secret; jsonwebtoken::decode
/// of the result under the same secret yields the same claims.
#[verifier::external_body]
fn encode_claims(claims: &Claims, secret: &str) -> (r: Result<String, ServiceError>)
    requires
        claims.exp as int <= i64::MAX as int,
        claims.iat as int <= i64::MAX as int,
    ensures
        r is Ok ==> jwt_payload((r->Ok_0)@, secret@) == Some(
            (claims.sub as int, claims.exp as int, claims.iat as int),
        ),
        r is Err ==> r->Err_0 == ServiceError::Internal,
{
    let mut m = std::collections::BTreeMap::new();
    m.insert("sub", claims.sub as i64);
    m.insert("exp", claims.exp as i64);
    m.insert("iat", claims.iat as i64);
    let key = jsonwebtoken::EncodingKey::from_secret(secret.as_bytes());
    jsonwebtoken::encode(&jsonwebtoken::Header::default(), &m, &key).map_err(
        |_| ServiceError::Internal,
    )
}

/// Relies on jsonwebtoken::decode with HS256 validation: it verifies the
/// token's signature against the secret and rejects an expired token; on
/// success the claims are the token's payload. Expiry depends on the clock,
/// so nothing is promised of when verification fails.
#[verifier::external_body]
pub fn verify_jwt(token: &str, secret: &str) -> (r: Result<Claims, ServiceError>)
    ensures
        r is Ok ==> jwt_payload(token@, secret@) == Some(
            ((r->Ok_0).sub as int, (r->Ok_0).exp as int, (r->Ok_0).iat as int),
        ),
        r is Err ==> r->Err_0 == ServiceError::Unauthenticated,
{
    let key = jsonwebtoken::DecodingKey::from_secret(secret.as_bytes());
    let validation = jsonwebtoken::Validation::new(jsonwebtoken::Algorithm::HS256);
    let data = jsonwebtoken::decode::<std::collections::BTreeMap<String, i64>>(
        token,
        &key,
        &validation,
    ).map_err(|_| ServiceError::Unauthenticated)?;
    let sub = *data.claims.get("sub").ok_or(ServiceError::Unauthenticated)?;
    let exp = *data.claims.get("exp").ok_or(ServiceError::Unauthenticated)?;
    let iat = *data.claims.get("iat").ok_or(ServiceError::Unauthenticated)?;
    Ok(Claims {
        sub: i32::try_from(sub).map_err(|_| ServiceError::Unauthenticated)?,
        exp: usize::try_from(exp).map_err(|_| ServiceError::Unauthenticated)?,
        iat: usize::try_from(iat).map_err(|_| ServiceError::Unauthenticated)?,
    })
}

/// Relies on chrono::Utc::now for the current Unix timestamp.
#[verifier::external_body]
fn now_ts() -> (r: i64) {
    chrono::Utc::now().timestamp()
}

/// Issues a signed token for a caller, valid for seven days from now: its
/// payload carries the caller as subject and an expiry exactly 604800
/// seconds past the issue time.
pub fn create_jwt(user_id: i32, secret: &str) -> (r: Result<String, ServiceError>)
    ensures
        r matches Ok(t) ==> jwt_payload(t@, secret@) matches Some(p) && p.0 == user_id as int
            && p.1 == p.2 + 604800 && p.2 >= 0,
        r is Err ==> r == Err::<String, ServiceError>(ServiceError::Internal),
{
    let now = now_ts();
    if now < 0 {
        return Err(ServiceError::Internal);
    }
    let n = now as u64;
    if n > i64::MAX as u64 - 604800 || n > usize::MAX as u64 - 604800 {
        return Err(ServiceError::Internal);
    }
    let claims = Claims { sub: user_id, exp: (n + 604800) as usize, iat: n as usize };
    encode_claims(&claims, secret)
}

/// Resolves a request's authorization header to a caller identity: the
/// header must be present, carry the bearer prefix, and hold a token whose
/// signature and expiry verify. Every failure is `Unauthenticated`; a
/// success names the subject the token's payload carries.
pub fn authenticate(header: Option<&str>, secret: &str) -> (r: Result<AuthContext, ServiceError>)
    ensures
        r is Err ==> r == Err::<AuthContext, ServiceError>(ServiceError::Unauthenticated),
        header is None ==> r is Err,
        r matches Ok(a) ==> (header matches Some(h) && (h@.len() >= 7 && h@.subrange(0, 7)
            == "Bearer "@ && (jwt_payload(h@.subrange(7, h@.len() as int), secret@) matches Some(p)
            && p.0 == a.user_id as int))),
{
    let h = match header {
        None => {
            return Err(ServiceError::Unauthenticated);
        },
        Some(h) => h,
    };
    let hl = h.unicode_len();
    if hl < 7 {
        return Err(ServiceError::Unauthenticated);
    }
    let prefix = h.substring_char(0, 7);
    if !str_eq(prefix, "Bearer ") {
        return Err(ServiceError::Unauthenticated);
    }
    let token = h.substring_char(7, hl);
    let claims = verify_jwt(token, secret)?;
    Ok(AuthContext { user_id: claims.sub })
}

} // verus!
