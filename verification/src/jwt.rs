//! Signed session credentials: issuing and checking bearer tokens.
//!
//! Signing is delegated to the token engine; for a fixed secret the token
//! is a deterministic function of the claims, named by `token_of`.
//! Checking a token also consults the clock (the expiry claim), so nothing
//! is promised of a check's outcome; the logic deciding what a decoded
//! claim set means lives in verified code that takes the outcome as an
//! argument.

use vstd::prelude::*;

use crate::config::Config;
use crate::errors::{BaseError, ErrorKind};
use crate::user::User;

verus! {

/// Purpose tag inside a credential, so a credential issued for one use
/// cannot be replayed as another.
#[derive(Clone, Copy, PartialEq, Eq, Structural, Debug)]
pub enum ClaimType {
    Refresh,
    Login,
}

/// The spelling of each claim discriminator.
pub open spec fn claim_type_chars(c: ClaimType) -> Seq<char> {
    match c {
        ClaimType::Refresh => "Refresh"@,
        ClaimType::Login => "Login"@,
    }
}

impl ClaimType {
    /// The spelling of this claim discriminator.
    pub fn as_str(&self) -> (r: &'static str)
        ensures
            r@ == claim_type_chars(*self),
    {
        match self {
            ClaimType::Refresh => "Refresh",
            ClaimType::Login => "Login",
        }
    }
}

/// The claims carried inside a credential: the subject (a user id), the
/// purpose tag, and expiry / issue instants in epoch seconds.
pub struct Claims {
    pub sub: u64,
    pub claim_type: String,
    pub exp: u64,
    pub iat: u64,
}

/// The credential produced for `secret` over the given claims.  Named, not
/// defined: for a fixed algorithm the token engine computes it from these
/// arguments alone.
pub uninterp spec fn token_of(
    secret: Seq<char>,
    sub: u64,
    claim_type: Seq<char>,
    exp: u64,
    iat: u64,
) -> Seq<char>;

/// Relies on `jsonwebtoken::encode` with the default HS256 header: the
/// token is a deterministic function of secret and claims.  With a secret
/// key the engine cannot fail: the key family matches the header's
/// algorithm, serializing the fixed header and a JSON object cannot fail,
/// and HMAC signing is total; so the call always hands a token back.
#[verifier::external_body]
fn jwt_encode(secret: &str, claims: &Claims) -> (r: Option<String>)
    ensures
        r is Some,
        r matches Some(t) ==> t@ == token_of(
            secret@,
            claims.sub,
            claims.claim_type@,
            claims.exp,
            claims.iat,
        ),
{
    let mut map = serde_json::Map::new();
    map.insert("sub".to_string(), serde_json::Value::from(claims.sub));
    map.insert("claim_type".to_string(), serde_json::Value::from(claims.claim_type.clone()));
    map.insert("exp".to_string(), serde_json::Value::from(claims.exp));
    map.insert("iat".to_string(), serde_json::Value::from(claims.iat));
    let key = jsonwebtoken::EncodingKey::from_secret(secret.as_bytes());
    jsonwebtoken::encode(&jsonwebtoken::Header::default(), &serde_json::Value::Object(map), &key)
        .ok()
}

/// Relies on `jsonwebtoken::decode` with HS256: checks the signature and
/// the expiry claim against the clock.  The outcome depends on the clock,
/// so nothing is promised of it; callers decide what a returned claim set
/// means in verified code.
#[verifier::external_body]
fn jwt_decode(secret: &str, token: &str) -> (r: Option<Claims>) {
    let key = jsonwebtoken::DecodingKey::from_secret(secret.as_bytes());
    let validation = jsonwebtoken::Validation::new(jsonwebtoken::Algorithm::HS256);
    let data = jsonwebtoken::decode::<serde_json::Value>(token, &key, &validation).ok()?;
    Some(Claims {
        sub: data.claims.get("sub")?.as_u64()?,
        claim_type: data.claims.get("claim_type")?.as_str()?.to_string(),
        exp: data.claims.get("exp")?.as_u64()?,
        iat: data.claims.get("iat")?.as_u64()?,
    })
}

/// Seconds in the seven days a login credential stays cryptographically
/// valid.
pub const LOGIN_TOKEN_LIFETIME_SECONDS: u64 = 604800;

/// The credential issued to `user` at instant `now`.
pub open spec fn login_token_of(secret: Seq<char>, user_id: u64, now: u64) -> Seq<char> {
    token_of(secret, user_id, "Login"@, (now + LOGIN_TOKEN_LIFETIME_SECONDS) as u64, now)
}

/// Issues and checks signed credentials under one secret.
pub struct JWT {
    secret: String,
}

impl JWT {
    /// The signing secret, as a value for contracts.
    pub closed spec fn secret_chars(&self) -> Seq<char> {
        self.secret@
    }

    pub fn new(config: &Config) -> (r: JWT)
        ensures
            r.secret_chars() == config.jwt_secret_key@,
    {
        JWT { secret: config.jwt_secret_key.clone() }
    }

    /// Issues a login credential for `user` at instant `now`, good for
    /// seven days.  Issuing never fails: the engine always signs under a
    /// secret key.
    pub fn login(&self, user: &User, now: u64) -> (r: Result<String, BaseError>)
        requires
            now <= crate::MAX_EPOCH_SECONDS,
        ensures
            r is Ok,
            r matches Ok(t) ==> t@ == login_token_of(self.secret_chars(), user.id, now),
    {
        let claims = Claims {
            sub: user.id,
            claim_type: ClaimType::Login.as_str().to_owned(),
            exp: now + LOGIN_TOKEN_LIFETIME_SECONDS,
            iat: now,
        };
        match jwt_encode(self.secret.as_str(), &claims) {
            Some(token) => Ok(token),
            None => Err(BaseError::new("Could not sign the credential".to_owned())),
        }
    }

    /// Checks a credential's signature and expiry, and, when asked, its
    /// purpose tag.  A claim set is returned only if the tag matches.
    pub fn parse(&self, token: &str, claim_type: Option<ClaimType>) -> (r: Result<
        Claims,
        BaseError,
    >)
        ensures
            r matches Ok(c) ==> (claim_type matches Some(ct) ==> c.claim_type@ == claim_type_chars(
                ct,
            )),
            r matches Err(e) ==> e.kind == ErrorKind::Unauthenticated,
    {
        let claims = match jwt_decode(self.secret.as_str(), token) {
            Some(c) => c,
            None => {
                return Err(BaseError::unauthenticated("Token is not valid".to_owned()));
            },
        };
        match claim_type {
            None => Ok(claims),
            Some(ct) => {
                if crate::types::str_eq(claims.claim_type.as_str(), ct.as_str()) {
                    Ok(claims)
                } else {
                    Err(BaseError::unauthenticated("Token is not valid".to_owned()))
                }
            },
        }
    }
}

} // verus!
