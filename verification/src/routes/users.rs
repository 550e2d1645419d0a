use vstd::prelude::*;
use vstd::utf8::encode_utf8;
use crate::db::models::UserRow;
use crate::db::store::Database;
use crate::db::tables::{
    email_of_other,
    lemma_readable_rekeyed,
    lemma_readable_user_removed,
    lemma_readable_users_renamed,
    user_ids,
    name_of_other,
    user_exists,
    user_with_id,
    users_with_email,
    users_with_name,
    with_keys,
    with_users,
    without_user,
    Tables,
};
use crate::http::Status;
use crate::middleware::LoggedUser;
use crate::models::key::text_view;
use crate::models::user::{DeleteUserRequest, UpdateUserRequest, UpdateUserResponse};
use crate::routes::auth::password_replaced;
use crate::routes::{guarded_route, route_views, Method, Route, RouteView};
use crate::services::hashing;
use crate::services::hashing::{bcrypt_check, password_matches};
use crate::utils::validation::{email_outcome, length_outcome, validate_email, validate_length};

verus! {

/// Checks that the user with the given id is stored.
pub fn check_user_exists(db: &Database, user_id: i32) -> (outcome: Result<(), Status>)
    ensures
        outcome == if user_exists(db@.users, user_id) {
            Ok::<(), Status>(())
        } else {
            Err::<(), Status>(Status::Unauthorized)
        },
{
    if db.find_user_by_id(user_id).is_none() {
        return Err(Status::Unauthorized);
    }
    Ok(())
}

/// The refusal a change of e-mail address meets, if it meets one: the new
/// address must be given, well formed, and not that of another user.
pub open spec fn change_email_refusal(users: Seq<UserRow>, id: i32, email: Option<Seq<char>>) -> Option<
    Status,
> {
    match email {
        None => Some(Status::BadRequest),
        Some(new_email) => if email_outcome(new_email) is Err {
            Some(Status::BadRequest)
        } else if email_of_other(users, new_email, id) {
            Some(Status::Conflict)
        } else if !user_exists(users, id) {
            Some(Status::NotFound)
        } else {
            None
        },
    }
}

/// Changes the caller's e-mail address.
pub fn change_email(db: &mut Database, request_data: &UpdateUserRequest, auth: LoggedUser) -> (outcome:
    Result<UpdateUserResponse, Status>)
    ensures
        old(db).wf() ==> final(db).wf(),
        old(db).wf() && old(db).readable() ==> final(db).readable(),
        match change_email_refusal(old(db)@.users, auth.0, text_view(request_data.email)) {
            Some(refusal) => outcome matches Err(status) && status == refusal && final(db)@ == old(db)@,
            None => {
                &&& outcome matches Ok(response) && response.message@
                    == "Email updated successfully"@
                &&& final(db)@ == with_users(
                    old(db)@,
                    users_with_email(old(db)@.users, auth.0, request_data.email->0@),
                )
            },
        },
{
    let new_email = match &request_data.email {
        Some(email) => email,
        None => {
            return Err(Status::BadRequest);
        },
    };
    if validate_email(new_email.as_str()).is_err() {
        return Err(Status::BadRequest);
    }
    match db.update_user_email(auth.0, new_email.clone()) {
        Err(_) => Err(Status::Conflict),
        Ok(false) => {
            proof {
                assert(final(db)@ =~= old(db)@) by {
                    assert(db@.users =~= old(db)@.users);
                }
            }
            Err(Status::NotFound)
        },
        Ok(true) => {
            proof {
                if old(db).wf() && old(db).readable() {
                    user_ids(old(db)@.users).index_of_first_ensures(auth.0);
                    lemma_readable_users_renamed(old(db)@, db@.users);
                }
            }
            Ok(UpdateUserResponse { message: "Email updated successfully".to_owned() })
        },
    }
}

/// The refusal a change of user name meets, if it meets one: the new name
/// must be given, of 2 to 32 bytes, and not that of another user.
pub open spec fn change_username_refusal(
    users: Seq<UserRow>,
    id: i32,
    username: Option<Seq<char>>,
) -> Option<Status> {
    match username {
        None => Some(Status::BadRequest),
        Some(new_username) => if length_outcome(encode_utf8(new_username).len(), 2, 32) is Err {
            Some(Status::BadRequest)
        } else if name_of_other(users, new_username, id) {
            Some(Status::Conflict)
        } else if !user_exists(users, id) {
            Some(Status::NotFound)
        } else {
            None
        },
    }
}

/// Changes the caller's user name.
pub fn change_username(
    db: &mut Database,
    request_data: &UpdateUserRequest,
    auth: LoggedUser,
) -> (outcome: Result<UpdateUserResponse, Status>)
    ensures
        old(db).wf() ==> final(db).wf(),
        old(db).wf() && old(db).readable() ==> final(db).readable(),
        match change_username_refusal(old(db)@.users, auth.0, text_view(request_data.username)) {
            Some(refusal) => outcome matches Err(status) && status == refusal && final(db)@ == old(db)@,
            None => {
                &&& outcome matches Ok(response) && response.message@
                    == "Username updated successfully"@
                &&& final(db)@ == with_users(
                    old(db)@,
                    users_with_name(old(db)@.users, auth.0, request_data.username->0@),
                )
            },
        },
{
    let new_username = match &request_data.username {
        Some(username) => username,
        None => {
            return Err(Status::BadRequest);
        },
    };
    if validate_length(new_username.as_str(), 2, 32).is_err() {
        return Err(Status::BadRequest);
    }
    match db.update_username(auth.0, new_username.clone()) {
        Err(_) => Err(Status::Conflict),
        Ok(false) => {
            proof {
                assert(db@.users =~= old(db)@.users);
            }
            Err(Status::NotFound)
        },
        Ok(true) => {
            proof {
                if old(db).wf() && old(db).readable() {
                    user_ids(old(db)@.users).index_of_first_ensures(auth.0);
                    lemma_readable_users_renamed(old(db)@, db@.users);
                }
            }
            Ok(UpdateUserResponse { message: "Username updated successfully".to_owned() })
        },
    }
}

/// The refusal a change of password meets before anything is hashed,
/// sealed or stored: both passwords must be given, the new one of 8 to 128
/// bytes, and the old one must be the caller's.
pub open spec fn change_password_refusal(
    users: Seq<UserRow>,
    id: i32,
    old_password: Option<Seq<char>>,
    new_password: Option<Seq<char>>,
) -> Option<Status> {
    match (new_password, old_password) {
        (None, _) => Some(Status::BadRequest),
        (Some(_), None) => Some(Status::BadRequest),
        (Some(new), Some(old)) => if length_outcome(encode_utf8(new).len(), 8, 128) is Err {
            Some(Status::BadRequest)
        } else {
            match user_with_id(users, id) {
                None => Some(Status::InternalServerError),
                Some(user) => match bcrypt_check(old, user.password_hash) {
                    None => Some(Status::InternalServerError),
                    Some(false) => Some(Status::Unauthorized),
                    Some(true) => None,
                },
            }
        },
    }
}

/// Whether `after` is `before` with the caller's password replaced by a
/// hash that opens to `new_password`, and the caller's secrets sealed anew.
pub open spec fn password_changed(
    before: Tables,
    after: Tables,
    id: i32,
    new_password: Seq<char>,
    password_hash: Seq<char>,
) -> bool {
    &&& password_matches(new_password, password_hash)
    &&& password_replaced(before, after, id, password_hash)
    &&& after == with_keys(with_users(before, after.users), after.keys)
}

/// Changes the caller's password. The old password must be given again.
/// Every secret of the caller is sealed anew under the new password hash,
/// so that none is lost with the old one.
pub fn change_password(
    db: &mut Database,
    request_data: &UpdateUserRequest,
    auth: LoggedUser,
) -> (outcome: Result<UpdateUserResponse, Status>)
    ensures
        old(db).wf() ==> final(db).wf(),
        old(db).wf() && old(db).readable() ==> final(db).readable(),
        match change_password_refusal(
            old(db)@.users,
            auth.0,
            text_view(request_data.old_password),
            text_view(request_data.new_password),
        ) {
            Some(refusal) => outcome matches Err(status) && status == refusal && final(db)@ == old(db)@,
            None => match outcome {
                Ok(response) => {
                    &&& response.message@ == "Password updated successfully"@
                    &&& exists|password_hash: Seq<char>| #[trigger]
                        password_changed(
                            old(db)@,
                            final(db)@,
                            auth.0,
                            request_data.new_password->0@,
                            password_hash,
                        )
                },
                Err(status) => status == Status::InternalServerError && final(db)@ == old(db)@,
            },
        },
{
    let new_password = match &request_data.new_password {
        Some(new_password) => new_password,
        None => {
            return Err(Status::BadRequest);
        },
    };
    let old_password = match &request_data.old_password {
        Some(old_password) => old_password,
        None => {
            return Err(Status::BadRequest);
        },
    };
    if validate_length(new_password.as_str(), 8, 128).is_err() {
        return Err(Status::BadRequest);
    }
    let user = match db.find_user_by_id(auth.0) {
        Some(user) => user,
        None => {
            return Err(Status::InternalServerError);
        },
    };
    match hashing::verify(old_password.as_str(), user.password_hash.as_str()) {
        Err(_) => {
            return Err(Status::InternalServerError);
        },
        Ok(false) => {
            return Err(Status::Unauthorized);
        },
        Ok(true) => {},
    }
    let hashed_password = match hashing::hash(new_password.as_str()) {
        Ok(hashed) => hashed,
        Err(_) => {
            return Err(Status::InternalServerError);
        },
    };
    let ghost password_hash = hashed_password@;
    if db.reseal_keys(auth.0, user.password_hash.as_str(), hashed_password.as_str()).is_err() {
        return Err(Status::InternalServerError);
    }
    db.update_password_hash(auth.0, hashed_password);
    proof {
        assert(password_changed(old(db)@, db@, auth.0, new_password@, password_hash));
        if old(db).wf() && old(db).readable() {
            lemma_readable_rekeyed(old(db)@, db@.keys, auth.0, password_hash);
        }
    }
    Ok(UpdateUserResponse { message: "Password updated successfully".to_owned() })
}

/// The refusal the closing of an account meets, if it meets one: the
/// password must be given again, and must be the caller's.
pub open spec fn delete_account_refusal(users: Seq<UserRow>, id: i32, password: Seq<char>) -> Option<
    Status,
> {
    if length_outcome(encode_utf8(password).len(), 8, 128) is Err {
        Some(Status::BadRequest)
    } else {
        match user_with_id(users, id) {
            None => Some(Status::InternalServerError),
            Some(user) => match bcrypt_check(password, user.password_hash) {
                None => Some(Status::InternalServerError),
                Some(false) => Some(Status::Unauthorized),
                Some(true) => None,
            },
        }
    }
}

/// Closes the caller's account: the user goes, and with it every secret
/// and every reset token it owns.
pub fn delete_user_account(
    db: &mut Database,
    request_data: &DeleteUserRequest,
    auth: LoggedUser,
) -> (outcome: Result<UpdateUserResponse, Status>)
    ensures
        old(db).wf() ==> final(db).wf(),
        old(db).wf() && old(db).readable() ==> final(db).readable(),
        match delete_account_refusal(old(db)@.users, auth.0, request_data.password@) {
            Some(refusal) => outcome matches Err(status) && status == refusal && final(db)@ == old(db)@,
            None => {
                &&& outcome matches Ok(response) && response.message@
                    == "User account deleted successfully"@
                &&& final(db)@ == without_user(old(db)@, auth.0)
            },
        },
{
    let password = &request_data.password;
    if validate_length(password.as_str(), 8, 128).is_err() {
        return Err(Status::BadRequest);
    }
    let user = match db.find_user_by_id(auth.0) {
        Some(user) => user,
        None => {
            return Err(Status::InternalServerError);
        },
    };
    match hashing::verify(password.as_str(), user.password_hash.as_str()) {
        Err(_) => {
            return Err(Status::InternalServerError);
        },
        Ok(false) => {
            return Err(Status::Unauthorized);
        },
        Ok(true) => {},
    }
    db.delete_user(auth.0);
    proof {
        if old(db).wf() && old(db).readable() {
            lemma_readable_user_removed(old(db)@, auth.0);
        }
    }
    Ok(UpdateUserResponse { message: "User account deleted successfully".to_owned() })
}


pub open spec fn table() -> Seq<RouteView> {
    seq![
        guarded_route(Method::Patch, "/email", "change_email"),
        guarded_route(Method::Patch, "/username", "change_username"),
        guarded_route(Method::Patch, "/password", "change_password"),
        guarded_route(Method::Delete, "/account", "delete_user_account"),
    ]
}

pub fn routes() -> (list: Vec<Route>)
    ensures
        route_views(list@) == table(),
{
    let mut list = Vec::new();
    list.push(Route { method: Method::Patch, path: "/email", handler: "change_email", guarded: true });
    list.push(
        Route { method: Method::Patch, path: "/username", handler: "change_username", guarded: true },
    );
    list.push(
        Route { method: Method::Patch, path: "/password", handler: "change_password", guarded: true },
    );
    list.push(
        Route {
            method: Method::Delete,
            path: "/account",
            handler: "delete_user_account",
            guarded: true,
        },
    );
    assert(route_views(list@) =~= table());
    list
}

} // verus!
