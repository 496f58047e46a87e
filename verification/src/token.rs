//! Credential issuance and validation.
//!
//! A credential is a signed token binding an identity to its issue and
//! expiry instants. Signing and signature checking go through
//! `jsonwebtoken` behind trusted wrappers; what the wrappers return is
//! named by `token_of` and `decoded_claims`, and everything decided
//! over those results is verified.

use vstd::prelude::*;
use crate::errors::AuthError;

verus! {

/// Tokens are valid for seven days from issue.
pub const TOKEN_LIFETIME_SECS: u64 = 604800;

/// The signed claims a credential carries: the subject identity and the
/// issue and expiry instants in epoch seconds.
#[derive(Debug, Clone)]
pub struct Claims {
    pub sub: String,
    pub exp: usize,
    pub iat: usize,
}

#[verifier::external_type_specification]
#[verifier::external_body]
pub struct ExJwtError(jsonwebtoken::errors::Error);

// The token that signing these claims under this secret produces: a
// deterministic function of its arguments alone.
pub uninterp spec fn token_of(sub: Seq<char>, iat: int, exp: int, secret: Seq<u8>) -> Seq<char>;

// The claims a token carries when its signature under `secret` checks
// out and the subject, issue and expiry fields are present: everything
// signature validation decides apart from the expiry-versus-clock
// check, which no function of the arguments can express.
pub uninterp spec fn decoded_claims(token: Seq<char>, secret: Seq<u8>) -> Option<
    (Seq<char>, int, int),
>;

/// Relies on jsonwebtoken::encode with the default HS256 header: the
/// token is a function of the claims and secret alone, and decoding it
/// under the same secret yields the same subject, issue and expiry.
#[verifier::external_body]
fn jwt_encode(sub: &str, iat: u64, exp: u64, secret: &[u8]) -> (r: Result<
    String,
    jsonwebtoken::errors::Error,
>)
    ensures
        r matches Ok(t) ==> t@ == token_of(sub@, iat as int, exp as int, secret@)
            && decoded_claims(t@, secret@) == Some((sub@, iat as int, exp as int)),
{
    let mut claims = serde_json::Map::new();
    claims.insert("sub".to_string(), serde_json::Value::from(sub));
    claims.insert("iat".to_string(), serde_json::Value::from(iat));
    claims.insert("exp".to_string(), serde_json::Value::from(exp));
    jsonwebtoken::encode(
        &jsonwebtoken::Header::default(),
        &serde_json::Value::Object(claims),
        &jsonwebtoken::EncodingKey::from_secret(secret),
    )
}

/// Relies on jsonwebtoken::decode under HS256 validation: `Some` means
/// the signature was valid and these fields were carried; a token whose
/// signature or shape is invalid under `secret` comes back `None`
/// whatever the clock says, and an expired one comes back `None` too.
#[verifier::external_body]
fn jwt_decode(token: &str, secret: &[u8]) -> (r: Option<(String, u64, u64)>)
    ensures
        r matches Some(c) ==> decoded_claims(token@, secret@) == Some((
            c.0@,
            c.1 as int,
            c.2 as int,
        )),
        decoded_claims(token@, secret@) is None ==> r is None,
{
    let key = jsonwebtoken::DecodingKey::from_secret(secret);
    let validation = jsonwebtoken::Validation::new(jsonwebtoken::Algorithm::HS256);
    let data = match jsonwebtoken::decode::<serde_json::Value>(token, &key, &validation) {
        Ok(d) => d.claims,
        Err(_) => return None,
    };
    let fields = (
        data.get("sub").and_then(|x| x.as_str()),
        data.get("iat").and_then(|x| x.as_u64()),
        data.get("exp").and_then(|x| x.as_u64()),
    );
    match fields {
        (Some(s), Some(i), Some(e)) => Some((s.to_string(), i, e)),
        _ => None,
    }
}

/// Mints a credential for `phone` at time `now`: issued now, expiring
/// seven days later, signed under `secret` so that the token decodes
/// back to exactly these claims. Signing faults surface as `Internal`.
pub fn create_token(phone: &str, secret: &[u8], now: i64) -> (r: Result<String, AuthError>)
    requires
        0 <= now,
        now + TOKEN_LIFETIME_SECS <= i64::MAX,
    ensures
        r matches Ok(t) ==> t@ == token_of(
            phone@,
            now as int,
            now + TOKEN_LIFETIME_SECS,
            secret@,
        ) && decoded_claims(t@, secret@) == Some((
            phone@,
            now as int,
            now + TOKEN_LIFETIME_SECS,
        )),
        r matches Err(e) ==> e == AuthError::Internal,
{
    let iat: u64 = now as u64;
    let exp: u64 = iat + TOKEN_LIFETIME_SECS;
    match jwt_encode(phone, iat, exp, secret) {
        Ok(t) => Ok(t),
        Err(_) => Err(AuthError::Internal),
    }
}

/// Validates a presented credential: `Some` carries exactly the claims
/// the token decodes to under `secret`; a token that does not decode —
/// bad signature, wrong shape, or expired — yields `None`.
pub fn validate_token(token: &str, secret: &[u8]) -> (r: Option<Claims>)
    ensures
        r matches Some(c) ==> decoded_claims(token@, secret@) == Some((
            c.sub@,
            c.iat as int,
            c.exp as int,
        )),
        decoded_claims(token@, secret@) is None ==> r is None,
{
    let decoded = match jwt_decode(token, secret) {
        Some(t) => t,
        None => {
            return None;
        },
    };
    let (sub, iat, exp) = decoded;
    if iat <= usize::MAX as u64 && exp <= usize::MAX as u64 {
        Some(Claims { sub, exp: exp as usize, iat: iat as usize })
    } else {
        None
    }
}

/// Round trip: claims validated out of a token carry exactly the
/// identity and instants the token was issued for. Tampering with the
/// identity field breaks the signature, which no contract here can
/// state; what is provable is that a token that still validates names
/// the identity it was minted for.
pub proof fn lemma_token_round_trip(
    token: Seq<char>,
    secret: Seq<u8>,
    sub: Seq<char>,
    iat: int,
    exp: int,
    c: Claims,
)
    requires
        decoded_claims(token, secret) == Some((sub, iat, exp)),
        decoded_claims(token, secret) == Some((c.sub@, c.iat as int, c.exp as int)),
    ensures
        c.sub@ == sub,
        c.iat as int == iat,
        c.exp as int == exp,
{
}

} // verus!
