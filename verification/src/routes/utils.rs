use vstd::prelude::*;
use crate::db::models::UserRow;
use crate::db::store::Database;
use crate::db::tables::user_exists;
use crate::http::Status;
use crate::middleware::LoggedUser;
use crate::models::utils::{GeneratePasswordRequest, GeneratePasswordResponse};
use crate::routes::users::check_user_exists;
use crate::routes::{guarded_route, route_views, Method, Route, RouteView};
use crate::services::utils_service::{generate_password, in_charset};

verus! {

/// The shortest password that is generated on request.
pub const MIN_GENERATED_LENGTH: usize = 8;

/// The longest password that is generated on request.
pub const MAX_GENERATED_LENGTH: usize = 256;

/// The refusal a request for a generated password meets, if it meets one.
pub open spec fn generate_refusal(users: Seq<UserRow>, id: i32, length: usize) -> Option<Status> {
    if !user_exists(users, id) {
        Some(Status::Unauthorized)
    } else if length < MIN_GENERATED_LENGTH || length > MAX_GENERATED_LENGTH {
        Some(Status::BadRequest)
    } else {
        None
    }
}

/// Whether a password is as a request asked for it: of the length asked
/// for, and of characters from the classes asked for only; empty where no
/// class was asked for.
pub open spec fn as_requested(password: Seq<char>, request: GeneratePasswordRequest) -> bool {
    let any = request.include_special_symbols || request.include_numbers
        || request.include_uppercase || request.include_lowercase;
    &&& password.len() == if any {
        request.length as nat
    } else {
        0
    }
    &&& forall|i: int|
        0 <= i < password.len() ==> in_charset(
            #[trigger] password[i],
            request.include_special_symbols,
            request.include_numbers,
            request.include_uppercase,
            request.include_lowercase,
        )
}

/// Generates a password for the caller.
pub fn password(db: &Database, request_data: &GeneratePasswordRequest, auth: LoggedUser) -> (outcome:
    Result<GeneratePasswordResponse, Status>)
    ensures
        match generate_refusal(db@.users, auth.0, request_data.length) {
            Some(refusal) => outcome matches Err(status) && status == refusal,
            None => outcome matches Ok(response) && as_requested(response.password@, *request_data),
        },
{
    match check_user_exists(db, auth.0) {
        Err(status) => {
            return Err(status);
        },
        Ok(()) => {},
    }
    if request_data.length < MIN_GENERATED_LENGTH {
        return Err(Status::BadRequest);
    } else if request_data.length > MAX_GENERATED_LENGTH {
        return Err(Status::BadRequest);
    }
    let password = generate_password(
        request_data.length,
        request_data.include_special_symbols,
        request_data.include_numbers,
        request_data.include_uppercase,
        request_data.include_lowercase,
    );
    Ok(GeneratePasswordResponse { password })
}


pub open spec fn table() -> Seq<RouteView> {
    seq![guarded_route(Method::Post, "/password/generate", "password")]
}

pub fn routes() -> (list: Vec<Route>)
    ensures
        route_views(list@) == table(),
{
    let mut list = Vec::new();
    list.push(
        Route {
            method: Method::Post,
            path: "/password/generate",
            handler: "password",
            guarded: true,
        },
    );
    assert(route_views(list@) =~= table());
    list
}

} // verus!
