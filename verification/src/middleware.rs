use vstd::prelude::*;
use vstd::string::*;
use crate::http::Status;
use crate::utils::jwt_token::{claims_outcome, jwt_claims, validate_jwt_token, AuthError};
use crate::utils::text::strip_prefix;

verus! {

/// The authenticated principal of a request: the id that a verified session
/// token speaks for.
#[derive(Clone, Copy, Debug, PartialEq, Eq, Structural)]
pub struct LoggedUser(pub i32);

/// A refusal by the guard, with the status it is answered with.
#[derive(Clone, Copy, Debug, PartialEq, Eq, Structural)]
pub struct AuthFailure {
    pub error: AuthError,
    pub status: Status,
}

/// What a refused request is told: that the header is missing, that it is
/// not of the bearer form, or that the token is invalid or expired.
pub open spec fn failure_message(failure: AuthFailure) -> Seq<char> {
    if failure.error == AuthError::Unauthorized {
        "Invalid or expired token"@
    } else if failure.status == Status::BadRequest {
        "Invalid Authorization header format"@
    } else {
        "Authorization header not found"@
    }
}

impl AuthFailure {
    pub fn message(self) -> (text: &'static str)
        ensures
            text@ == failure_message(self),
    {
        match self.error {
            AuthError::Unauthorized => "Invalid or expired token",
            AuthError::MissingOrMalformed => match self.status {
                Status::BadRequest => "Invalid Authorization header format",
                _ => "Authorization header not found",
            },
        }
    }
}

/// The token carried by an `Authorization` header of the bearer form.
pub open spec fn bearer_of(header: Seq<char>) -> Option<Seq<char>> {
    if "Bearer "@.is_prefix_of(header) {
        Some(header.skip(7))
    } else {
        None
    }
}

/// What the guard answers for a request with the given `Authorization`
/// header.
pub open spec fn guard_outcome(
    header: Option<Seq<char>>,
    secret: Seq<u8>,
    now: i64,
) -> Result<LoggedUser, AuthFailure> {
    match header {
        None => Err(AuthFailure { error: AuthError::MissingOrMalformed, status: Status::Unauthorized }),
        Some(h) => match bearer_of(h) {
            None => Err(
                AuthFailure { error: AuthError::MissingOrMalformed, status: Status::BadRequest },
            ),
            Some(token) => match claims_outcome(jwt_claims(secret, token), now) {
                Ok(id) => Ok(LoggedUser(id)),
                Err(e) => Err(AuthFailure { error: e, status: Status::Unauthorized }),
            },
        },
    }
}

pub open spec fn header_view(header: Option<&str>) -> Option<Seq<char>> {
    match header {
        Some(h) => Some(h@),
        None => None,
    }
}

/// The `Authorization` header that carries a token.
pub fn bearer_header(token: &str) -> (header: String)
    ensures
        header@ == "Bearer "@ + token@,
        bearer_of(header@) == Some(token@),
{
    proof {
        reveal_strlit("Bearer ");
    }
    let mut header = "Bearer ".to_owned();
    header.append(token);
    proof {
        assert(header@.skip(7) =~= token@);
        assert("Bearer "@.is_prefix_of(header@));
    }
    header
}

impl LoggedUser {
    /// Takes the token out of a bearer header.
    pub fn bearer_token<'a>(header: &'a str) -> (token: Option<&'a str>)
        ensures
            match token {
                Some(t) => bearer_of(header@) == Some(t@),
                None => bearer_of(header@) is None,
            },
    {
        proof {
            reveal_strlit("Bearer ");
        }
        let rest = strip_prefix(header, "Bearer ");
        proof {
            if let Some(r) = rest {
                assert(header@.skip(7) =~= r@);
                assert("Bearer "@ =~= header@.subrange(0, 7));
            }
        }
        rest
    }

    /// The guard in front of every protected operation: reads the bearer
    /// token of a request and verifies it at `now`.
    pub fn from_request(header: Option<&str>, jwt_secret: &[u8], now: i64) -> (outcome: Result<
        LoggedUser,
        AuthFailure,
    >)
        ensures
            outcome == guard_outcome(header_view(header), jwt_secret@, now),
    {
        let access_token = match header {
            None => {
                return Err(
                    AuthFailure { error: AuthError::MissingOrMalformed, status: Status::Unauthorized },
                );
            },
            Some(h) => match Self::bearer_token(h) {
                Some(token) => token,
                None => {
                    return Err(
                        AuthFailure {
                            error: AuthError::MissingOrMalformed,
                            status: Status::BadRequest,
                        },
                    );
                },
            },
        };
        match validate_jwt_token(access_token, jwt_secret, now) {
            Ok(user_id) => Ok(LoggedUser(user_id)),
            Err(e) => Err(AuthFailure { error: e, status: Status::Unauthorized }),
        }
    }
}

} // verus!
