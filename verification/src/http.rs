use vstd::prelude::*;

verus! {

/// The response statuses the vault answers with.
#[derive(Clone, Copy, Debug, PartialEq, Eq, Structural)]
pub enum Status {
    BadRequest,
    Unauthorized,
    Forbidden,
    NotFound,
    Conflict,
    UnprocessableEntity,
    InternalServerError,
}

pub open spec fn status_code(status: Status) -> u16 {
    match status {
        Status::BadRequest => 400,
        Status::Unauthorized => 401,
        Status::Forbidden => 403,
        Status::NotFound => 404,
        Status::Conflict => 409,
        Status::UnprocessableEntity => 422,
        Status::InternalServerError => 500,
    }
}

impl Status {
    /// The numeric code sent on the wire.
    pub fn code(self) -> (code: u16)
        ensures
            code == status_code(self),
            400 <= code < 600,
    {
        match self {
            Status::BadRequest => 400,
            Status::Unauthorized => 401,
            Status::Forbidden => 403,
            Status::NotFound => 404,
            Status::Conflict => 409,
            Status::UnprocessableEntity => 422,
            Status::InternalServerError => 500,
        }
    }
}

} // verus!
