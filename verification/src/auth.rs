//! Operator login and token verification.
//!
//! The password check, the token lifetime and the error discipline are
//! verified here; signing and validating the token itself is the JWT
//! library's work, behind trusted wrappers.

use vstd::prelude::*;
use vstd::string::*;

use crate::errors::AuthError;
use crate::monitor::clamp_epoch;

verus! {

/// How long an issued token stays valid, in seconds.
pub const TOKEN_VALIDITY_SECONDS: u64 = 86400;

/// The claims carried by an issued token.
#[derive(Debug)]
pub struct Claims {
    pub sub: String,
    /// Expiry, as seconds since the Unix epoch.
    pub exp: u64,
}

#[derive(Debug)]
pub struct LoginRequest {
    pub password: String,
}

#[derive(Debug)]
pub struct LoginResponse {
    pub token: String,
}

/// What signing these claims with this secret yields: HS256 over a fixed
/// header and claim layout, a function of the arguments alone.
pub uninterp spec fn token_of(sub: Seq<char>, exp: u64, secret: Seq<char>) -> Seq<char>;

/// Relies on `jsonwebtoken::encode` with the default (HS256) header and a
/// secret-bytes key: deterministic in subject, expiry and secret.
#[verifier::external_body]
fn jwt_encode(sub: &str, exp: u64, secret: &str) -> (r: Option<String>)
    ensures
        r is Some ==> r->0@ == token_of(sub@, exp, secret@),
{
    let mut claims = serde_json::Map::new();
    claims.insert("sub".to_string(), serde_json::Value::from(sub));
    claims.insert("exp".to_string(), serde_json::Value::from(exp));
    jsonwebtoken::encode(
        &jsonwebtoken::Header::default(),
        &serde_json::Value::Object(claims),
        &jsonwebtoken::EncodingKey::from_secret(secret.as_bytes()),
    ).ok()
}

/// Relies on `jsonwebtoken::decode` with the default validation (HS256,
/// expiry checked against the clock): the subject and expiry of a token
/// that verified. Whether one verifies depends on the clock, so nothing
/// more is promised.
#[verifier::external_body]
fn jwt_decode(token: &str, secret: &str) -> (r: Option<(String, u64)>) {
    let data = jsonwebtoken::decode::<serde_json::Value>(
        token,
        &jsonwebtoken::DecodingKey::from_secret(secret.as_bytes()),
        &jsonwebtoken::Validation::default(),
    ).ok()?;
    let sub = data.claims.get("sub")?.as_str()?.to_string();
    let exp = data.claims.get("exp")?.as_u64()?;
    Some((sub, exp))
}

/// The expiry an issued token carries when issued at clock reading `now`.
pub open spec fn spec_token_expiry(now: i64) -> u64 {
    if clamp_epoch(now) <= u64::MAX - TOKEN_VALIDITY_SECONDS {
        (clamp_epoch(now) + TOKEN_VALIDITY_SECONDS) as u64
    } else {
        u64::MAX
    }
}

/// Checks the operator's password and issues a token for the `admin`
/// subject, valid for a day from clock reading `now`. A wrong password is
/// rejected as invalid credentials — if and only if it differs — and a
/// signing failure is reported as such.
pub fn login(payload: &LoginRequest, admin_password: &String, jwt_secret: &String, now: i64) -> (r:
    Result<LoginResponse, AuthError>)
    ensures
        r is Err && r->Err_0 == AuthError::InvalidCredentials <==> payload.password@
            != admin_password@,
        r is Ok ==> payload.password@ == admin_password@ && r->Ok_0.token@ == token_of(
            "admin"@,
            spec_token_expiry(now),
            jwt_secret@,
        ),
        r is Err ==> r->Err_0 == AuthError::InvalidCredentials || r->Err_0
            == AuthError::TokenCreation,
{
    if !(payload.password == *admin_password) {
        return Err(AuthError::InvalidCredentials);
    }
    let base: u64 = if now < 0 {
        0
    } else {
        now as u64
    };
    let exp: u64 = if base <= u64::MAX - TOKEN_VALIDITY_SECONDS {
        base + TOKEN_VALIDITY_SECONDS
    } else {
        u64::MAX
    };
    match jwt_encode("admin", exp, jwt_secret.as_str()) {
        Some(token) => Ok(LoginResponse { token }),
        None => Err(AuthError::TokenCreation),
    }
}

/// Verifies a bearer token against the secret. The claims of a token the
/// JWT library accepted are returned as-is; any rejection — bad signature,
/// malformed token, expired — is the invalid-token error.
pub fn verify_token(token: &str, secret: &str) -> (r: Result<Claims, AuthError>)
    ensures
        r is Err ==> r->Err_0 == AuthError::InvalidToken,
{
    match jwt_decode(token, secret) {
        Some((sub, exp)) => Ok(Claims { sub, exp }),
        None => Err(AuthError::InvalidToken),
    }
}

} // verus!
