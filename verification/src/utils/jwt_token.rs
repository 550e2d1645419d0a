use vstd::prelude::*;
use crate::models::claims::Claims;

verus! {

/// Seconds for which an issued session token is accepted: six hours.
pub const TOKEN_TTL: i64 = 21600;

/// Why a request is not let through.
#[derive(Clone, Copy, Debug, PartialEq, Eq, Structural)]
pub enum AuthError {
    /// No bearer header, or one that is not of the bearer form.
    MissingOrMalformed,
    /// A token that is forged, unreadable or expired.
    Unauthorized,
}

/// Why no token could be issued.
#[derive(Clone, Copy, Debug, PartialEq, Eq, Structural)]
pub enum TokenError {
    /// The expiry would not fit the claim.
    ClockOutOfRange,
    /// The signing primitive failed.
    Signing,
}

/// The subject and expiry that `jsonwebtoken::decode` reads from a token
/// under an HS256 secret, with its own clock check switched off: `None`
/// where the signature does not verify, the token is malformed, or either
/// claim is missing or not an integer.
pub uninterp spec fn jwt_claims(secret: Seq<u8>, token: Seq<char>) -> Option<(i64, u64)>;

/// The token that `jsonwebtoken::encode` makes of the two claims `sub` and
/// `exp` under an HS256 secret, with its default header: `None` where it
/// reports an error. Header, claims and signature are each fixed by the
/// arguments.
pub uninterp spec fn jwt_signed(secret: Seq<u8>, sub: i64, exp: u64) -> Option<Seq<char>>;

pub open spec fn token_view(token: Option<String>) -> Option<Seq<char>> {
    match token {
        Some(t) => Some(t@),
        None => None,
    }
}

/// Calls `jsonwebtoken::encode` with the default header (HS256) on the two
/// claims `sub` and `exp`. What it returns is fixed by the arguments, and a
/// token it returns is one from which decoding under the same secret reads
/// the same two claims.
#[verifier::external_body]
fn sign_claims(sub: i32, exp: u64, secret: &[u8]) -> (signed: Option<String>)
    ensures
        token_view(signed) == jwt_signed(secret@, sub as i64, exp),
        signed matches Some(token) ==> jwt_claims(secret@, token@) == Some((sub as i64, exp)),
{
    let mut claims = serde_json::Map::new();
    claims.insert("sub".to_owned(), serde_json::Value::from(sub));
    claims.insert("exp".to_owned(), serde_json::Value::from(exp));
    let key = jsonwebtoken::EncodingKey::from_secret(secret);
    jsonwebtoken::encode(&jsonwebtoken::Header::default(), &claims, &key).ok()
}

/// Calls `jsonwebtoken::decode` for HS256 with `validate_exp` off, so that
/// the outcome does not depend on the machine's clock, and hands out the
/// two claims as integers.
#[verifier::external_body]
fn read_claims(token: &str, secret: &[u8]) -> (claims: Option<(i64, u64)>)
    ensures
        claims == jwt_claims(secret@, token@),
{
    let mut validation = jsonwebtoken::Validation::new(jsonwebtoken::Algorithm::HS256);
    validation.validate_exp = false;
    let key = jsonwebtoken::DecodingKey::from_secret(secret);
    let data = jsonwebtoken::decode::<serde_json::Value>(token, &key, &validation).ok()?;
    Some((data.claims.get("sub")?.as_i64()?, data.claims.get("exp")?.as_u64()?))
}

/// The expiry claim of a token issued at `now`, where it fits.
pub open spec fn expiry_of(now: i64) -> Option<usize> {
    if 0 <= now && now + TOKEN_TTL <= usize::MAX && now + TOKEN_TTL <= i64::MAX {
        Some((now + TOKEN_TTL) as usize)
    } else {
        None
    }
}

/// The claims of a token issued to `principal_id` at `now`.
pub open spec fn claims_at(principal_id: i32, now: i64) -> Option<Claims> {
    match expiry_of(now) {
        Some(exp) => Some(Claims { sub: principal_id, exp }),
        None => None,
    }
}

/// Whom a token with the given claims speaks for at `now`. A token is
/// refused from the second of its expiry on.
pub open spec fn claims_outcome(claims: Option<(i64, u64)>, now: i64) -> Result<i32, AuthError> {
    match claims {
        None => Err(AuthError::Unauthorized),
        Some((sub, exp)) => if exp <= now || sub < i32::MIN || sub > i32::MAX {
            Err(AuthError::Unauthorized)
        } else {
            Ok(sub as i32)
        },
    }
}

/// Builds the claims for a token issued at `now`: the expiry is `now` plus
/// six hours.
pub fn generate_claims(principal_id: i32, now: i64) -> (claims: Option<Claims>)
    ensures
        claims == claims_at(principal_id, now),
{
    if now < 0 || now > i64::MAX - TOKEN_TTL {
        return None;
    }
    let exp: i64 = now + TOKEN_TTL;
    if exp as u64 > usize::MAX as u64 {
        return None;
    }
    Some(Claims { sub: principal_id, exp: exp as usize })
}

/// What issuing returns, given the claims that were built and what the
/// signing primitive produced for them.
pub fn issue_outcome(claims: Option<Claims>, signed: Option<String>) -> (issued: Result<
    String,
    TokenError,
>)
    ensures
        match (claims, signed) {
            (None, _) => issued == Err::<String, TokenError>(TokenError::ClockOutOfRange),
            (Some(_), None) => issued == Err::<String, TokenError>(TokenError::Signing),
            (Some(_), Some(token)) => issued == Ok::<String, TokenError>(token),
        },
{
    match claims {
        None => Err(TokenError::ClockOutOfRange),
        Some(_) => match signed {
            Some(token) => Ok(token),
            None => Err(TokenError::Signing),
        },
    }
}

/// The session token that is issued to `principal_id` at `now` under a
/// secret: the signed claims, or the error of the step that fails.
pub open spec fn issued_token(secret: Seq<u8>, principal_id: i32, now: i64) -> Result<
    Seq<char>,
    TokenError,
> {
    match claims_at(principal_id, now) {
        None => Err(TokenError::ClockOutOfRange),
        Some(claims) => match jwt_signed(secret, claims.sub as i64, claims.exp as u64) {
            Some(token) => Ok(token),
            None => Err(TokenError::Signing),
        },
    }
}

/// Issues a session token for `principal_id`, signed with `secret` and
/// valid for six hours from `now`. The token is the signed claims, and one
/// from which verifying under the same secret reads them again.
pub fn generate_jwt_token(principal_id: i32, now: i64, secret: &[u8]) -> (issued: Result<
    String,
    TokenError,
>)
    ensures
        match issued {
            Ok(token) => issued_token(secret@, principal_id, now) == Ok::<Seq<char>, TokenError>(
                token@,
            ),
            Err(e) => issued_token(secret@, principal_id, now) == Err::<Seq<char>, TokenError>(e),
        },
        issued matches Ok(token) ==> claims_at(principal_id, now) matches Some(claims)
            && jwt_claims(secret@, token@) == Some((claims.sub as i64, claims.exp as u64)),
{
    let claims = generate_claims(principal_id, now);
    let signed = match claims {
        Some(claims) => sign_claims(claims.sub, claims.exp as u64, secret),
        None => None,
    };
    issue_outcome(claims, signed)
}

/// Decides on claims that were read from a token.
pub fn check_claims(claims: Option<(i64, u64)>, now: i64) -> (outcome: Result<i32, AuthError>)
    ensures
        outcome == claims_outcome(claims, now),
{
    match claims {
        None => Err(AuthError::Unauthorized),
        Some((sub, exp)) => {
            if now >= 0 && exp <= now as u64 {
                Err(AuthError::Unauthorized)
            } else if sub < i32::MIN as i64 || sub > i32::MAX as i64 {
                Err(AuthError::Unauthorized)
            } else {
                Ok(sub as i32)
            }
        },
    }
}

/// Verifies a session token at `now`: a forged, malformed or expired token
/// is refused, and nothing but the token, the secret and the time decides.
pub fn validate_jwt_token(token: &str, secret: &[u8], now: i64) -> (outcome: Result<i32, AuthError>)
    ensures
        outcome == claims_outcome(jwt_claims(secret@, token@), now),
{
    check_claims(read_claims(token, secret), now)
}

/// A token issued at `issued_at` is accepted at exactly the times before
/// `issued_at` plus six hours.
pub proof fn lemma_token_window(principal_id: i32, issued_at: i64, now: i64)
    requires
        claims_at(principal_id, issued_at) is Some,
    ensures
        ({
            let claims = claims_at(principal_id, issued_at)->0;
            claims_outcome(Some((claims.sub as i64, claims.exp as u64)), now) == if now < issued_at
                + TOKEN_TTL {
                Ok::<i32, AuthError>(principal_id)
            } else {
                Err::<i32, AuthError>(AuthError::Unauthorized)
            }
        }),
{
}

} // verus!
