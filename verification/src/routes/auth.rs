use vstd::prelude::*;
use vstd::utf8::encode_utf8;
use crate::db::models::{public_view, User, UserRow};
use crate::db::store::Database;
use crate::db::tables::{
    email_taken,
    lemma_has_user,
    user_emails,
    lemma_readable_rekeyed,
    lemma_readable_user_added,
    lemma_user_gone,
    lemma_token_gone,
    name_taken,
    other_token,
    token_with_value,
    user_with_email,
    user_with_id,
    resealed,
    users_with_hash,
    with_keys,
    with_reset_token,
    with_tokens,
    with_user,
    with_users,
    Tables,
};
use crate::http::Status;
use crate::middleware::LoggedUser;
use crate::models::reset_password::{
    Message,
    ResetData,
    ResetPasswordRequest,
    ResetResponse,
    TokenRow,
};
use crate::models::user::{AuthResponse, LoginRequest, RegisterRequest};
use crate::routes::{guarded_route, open_route, route_views, Method, Route, RouteView};
use crate::services::email_sender_service::EnqueueOutcome;
use crate::services::hashing;
use crate::services::hashing::{bcrypt_check, password_matches};
use crate::services::password_reset_service::{
    enqueue_email_reset_password,
    ResetMailService,
    ResetMailView,
};
use crate::services::random::random_uuid;
use crate::utils::jwt_token::{
    claims_at,
    generate_jwt_token,
    issued_token,
    jwt_claims,
    TokenError,
};
use crate::utils::validation::{email_outcome, length_outcome, validate_email, validate_length};

verus! {

/// Seconds for which a password-reset token can be used: one hour.
pub const RESET_TOKEN_TTL: i64 = 3600;

/// Whether a response carries the given user, without the password hash,
/// and a session token for that user issued at `now`.
pub open spec fn issued_for(user: UserRow, secret: Seq<u8>, now: i64, response: AuthResponse) -> bool {
    &&& response.user@ == public_view(user)
    &&& claims_at(user.id, now) matches Some(claims) && jwt_claims(secret, response.token@) == Some(
        (claims.sub as i64, claims.exp as u64),
    )
}

/// What is answered to a user who is to be signed in at `now`: the user
/// and the session token that is issued, or a plain server error where
/// none can be issued.
pub open spec fn signed_in(
    user: UserRow,
    secret: Seq<u8>,
    now: i64,
    outcome: Result<AuthResponse, Status>,
) -> bool {
    match issued_token(secret, user.id, now) {
        Ok(token) => outcome matches Ok(response) && response.token@ == token && issued_for(
            user,
            secret,
            now,
            response,
        ),
        Err(_) => outcome matches Err(status) && status == Status::InternalServerError,
    }
}

/// The refusal a sign-in meets before any token is issued, if it meets one.
/// An unknown address and a wrong password are refused alike.
pub open spec fn login_refusal(users: Seq<UserRow>, email: Seq<char>, password: Seq<char>) -> Option<
    Status,
> {
    match user_with_email(users, email) {
        None => Some(Status::Unauthorized),
        Some(user) => match bcrypt_check(password, user.password_hash) {
            None => Some(Status::InternalServerError),
            Some(false) => Some(Status::Unauthorized),
            Some(true) => None,
        },
    }
}

/// Answers with the user and the token that was issued, or with a plain
/// server error where none was.
pub fn auth_response(user: &User, issued: Result<String, TokenError>) -> (outcome: Result<
    AuthResponse,
    Status,
>)
    ensures
        match issued {
            Ok(token) => outcome matches Ok(response) && response.user@ == public_view(user@)
                && response.token@ == token@,
            Err(_) => outcome matches Err(status) && status == Status::InternalServerError,
        },
{
    match issued {
        Ok(token) => Ok(AuthResponse { user: user.public(), token }),
        Err(_) => Err(Status::InternalServerError),
    }
}

/// Signs a user in: a user who is known and gives the right password gets
/// a session token, whenever one can be issued.
pub fn login(db: &Database, request_data: &LoginRequest, jwt_secret: &[u8], now: i64) -> (outcome:
    Result<AuthResponse, Status>)
    ensures
        match login_refusal(db@.users, request_data.email@, request_data.password@) {
            Some(refusal) => outcome matches Err(status) && status == refusal,
            None => signed_in(
                user_with_email(db@.users, request_data.email@)->0,
                jwt_secret@,
                now,
                outcome,
            ),
        },
{
    let record = match db.find_user_by_email(request_data.email.as_str()) {
        Some(record) => record,
        None => {
            return Err(Status::Unauthorized);
        },
    };
    match hashing::verify(request_data.password.as_str(), record.password_hash.as_str()) {
        Err(_) => {
            return Err(Status::InternalServerError);
        },
        Ok(false) => {
            return Err(Status::Unauthorized);
        },
        Ok(true) => {},
    }
    auth_response(&record, generate_jwt_token(record.id, now, jwt_secret))
}

/// Whether a registration passes the input rules: a well-formed address,
/// a user name of 2 to 32 bytes and a password of 8 to 128 bytes.
pub open spec fn registration_valid(username: Seq<char>, email: Seq<char>, password: Seq<char>) -> bool {
    &&& email_outcome(email) is Ok
    &&& length_outcome(encode_utf8(username).len(), 2, 32) is Ok
    &&& length_outcome(encode_utf8(password).len(), 8, 128) is Ok
}

/// The refusal a registration meets before anything is hashed or stored.
pub open spec fn register_refusal(
    users: Seq<UserRow>,
    username: Seq<char>,
    email: Seq<char>,
    password: Seq<char>,
) -> Option<Status> {
    if !registration_valid(username, email, password) {
        Some(Status::BadRequest)
    } else if email_taken(users, email) || name_taken(users, username) {
        Some(Status::Conflict)
    } else {
        None
    }
}

/// Whether `after` is `before` with the registered user added: under the
/// next free id, with a hash that opens to the password.
pub open spec fn registered(
    before: Tables,
    after: Tables,
    username: Seq<char>,
    email: Seq<char>,
    password: Seq<char>,
    now: i64,
) -> bool {
    &&& after.users.len() == before.users.len() + 1
    &&& after == with_user(before, after.users.last())
    &&& after.users.last().id == before.next_user_id
    &&& before.next_user_id < i32::MAX
    &&& after.users.last().username == username
    &&& after.users.last().email == email
    &&& after.users.last().created_at == now
    &&& password_matches(password, after.users.last().password_hash)
}

fn registration_passes(request_data: &RegisterRequest) -> (valid: bool)
    ensures
        valid == registration_valid(
            request_data.username@,
            request_data.email@,
            request_data.password@,
        ),
{
    validate_email(request_data.email.as_str()).is_ok() && validate_length(
        request_data.username.as_str(),
        2,
        32,
    ).is_ok() && validate_length(request_data.password.as_str(), 8, 128).is_ok()
}

/// Registers a user and signs the user in. Where the password cannot be
/// hashed or no id is left, nothing is stored; once the user is stored, the
/// user is signed in as by `login`.
pub fn register(
    db: &mut Database,
    request_data: &RegisterRequest,
    jwt_secret: &[u8],
    now: i64,
) -> (outcome: Result<AuthResponse, Status>)
    ensures
        old(db).wf() ==> final(db).wf(),
        old(db).wf() && old(db).readable() ==> final(db).readable(),
        match register_refusal(
            old(db)@.users,
            request_data.username@,
            request_data.email@,
            request_data.password@,
        ) {
            Some(refusal) => outcome matches Err(status) && status == refusal && final(db)@ == old(db)@,
            None => {
                ||| final(db)@ == old(db)@ && outcome is Err && outcome->Err_0
                    == Status::InternalServerError
                ||| registered(
                    old(db)@,
                    final(db)@,
                    request_data.username@,
                    request_data.email@,
                    request_data.password@,
                    now,
                ) && signed_in(final(db)@.users.last(), jwt_secret@, now, outcome)
            },
        },
{
    if !registration_passes(request_data) {
        return Err(Status::BadRequest);
    }
    if db.email_in_use(request_data.email.as_str(), None) || db.username_in_use(
        request_data.username.as_str(),
        None,
    ) {
        return Err(Status::Conflict);
    }
    let password_hash = match hashing::hash(request_data.password.as_str()) {
        Ok(hashed) => hashed,
        Err(_) => {
            return Err(Status::InternalServerError);
        },
    };
    let username = request_data.username.clone();
    let email = request_data.email.clone();
    let id = match db.insert_user(username, email, password_hash, now) {
        Ok(id) => id,
        Err(_) => {
            return Err(Status::InternalServerError);
        },
    };
    proof {
        if old(db).wf() && old(db).readable() {
            lemma_readable_user_added(old(db)@, db@.users.last());
        }
    }
    let user = crate::models::user::User {
        id,
        username: request_data.username.clone(),
        email: request_data.email.clone(),
    };
    match generate_jwt_token(id, now, jwt_secret) {
        Ok(token) => {
            let response = AuthResponse { user, token };
            assert(response.user@ == public_view(db@.users.last()));
            Ok(response)
        },
        Err(_) => Err(Status::InternalServerError),
    }
}

/// Answers who the caller is, with a fresh session token.
pub fn current_user(db: &Database, auth: LoggedUser, jwt_secret: &[u8], now: i64) -> (outcome:
    Result<AuthResponse, Status>)
    ensures
        match user_with_id(db@.users, auth.0) {
            None => outcome matches Err(status) && status == Status::Unauthorized,
            Some(user) => signed_in(user, jwt_secret@, now, outcome),
        },
{
    match db.find_user_by_id(auth.0) {
        None => Err(Status::Unauthorized),
        Some(record) => auth_response(&record, generate_jwt_token(record.id, now, jwt_secret)),
    }
}

/// When a reset token made at `now` stops being usable, where that fits.
pub open spec fn reset_expiry(now: i64) -> Option<i64> {
    if now + RESET_TOKEN_TTL <= i64::MAX {
        Some((now + RESET_TOKEN_TTL) as i64)
    } else {
        None
    }
}

/// Whether `after` is `before` with a fresh reset token for a user in the
/// place of every token the user had: a token of 36 characters that can be
/// used for an hour from `now`.
pub open spec fn token_issued(before: Tables, after: Tables, user_id: i32, now: i64) -> bool {
    &&& reset_expiry(now) is Some
    &&& before.next_token_id < i32::MAX
    &&& after.tokens.len() > 0
    &&& after.tokens.last().reset_token.len() == 36
    &&& after == with_reset_token(
        before,
        user_id,
        after.tokens.last().reset_token,
        reset_expiry(now)->0,
        now,
    )
}

/// Whether `after` is `before` with one reset mail behind it: from
/// `sender` to `recipient`, carrying the token.
pub open spec fn mail_appended(
    before: Seq<crate::services::password_reset_service::EmailRequest>,
    after: Seq<crate::services::password_reset_service::EmailRequest>,
    sender: Seq<char>,
    recipient: Seq<char>,
    token: Seq<char>,
) -> bool {
    &&& after.len() == before.len() + 1
    &&& after.drop_last() == before
    &&& after.last()@ == (ResetMailView { sender, recipient, reset_password: token })
}

/// Asks for a password reset: a fresh token replaces every token the user
/// had, and is queued to be mailed to the user. For a known user this
/// succeeds whenever the clock and the ids leave room for the token; the
/// mail is queued exactly where the service is initialized and its queue
/// has room, and is dropped otherwise. An address that no user has is
/// answered with not-found, which tells the caller apart from a sign-in
/// that the address is unknown.
pub fn request_to_reset_password(
    db: &mut Database,
    mail: &mut ResetMailService,
    request_data: &ResetPasswordRequest,
    smtp_username: &str,
    now: i64,
) -> (outcome: Result<Message, Status>)
    ensures
        old(db).wf() ==> final(db).wf(),
        old(db).readable() ==> final(db).readable(),
        old(mail).wf() ==> final(mail).wf(),
        final(mail).is_initialized() == old(mail).is_initialized(),
        final(mail).bound() == old(mail).bound(),
        match user_with_email(old(db)@.users, request_data.email@) {
            None => outcome matches Err(status) && status == Status::NotFound && final(db)@ == old(db)@ && final(mail).pending() == old(mail).pending(),
            Some(user) => if reset_expiry(now) is None || old(db)@.next_token_id == i32::MAX {
                &&& outcome is Err && outcome->Err_0 == Status::InternalServerError
                &&& final(db)@ == old(db)@
                &&& final(mail).pending() == old(mail).pending()
            } else {
                &&& outcome is Ok && outcome->Ok_0.content@ == "Password reset email sent."@
                &&& token_issued(old(db)@, final(db)@, user.id, now)
                &&& if old(mail).is_initialized() && old(mail).pending().len() < old(mail).bound() {
                    mail_appended(
                        old(mail).pending(),
                        final(mail).pending(),
                        smtp_username@,
                        request_data.email@,
                        final(db)@.tokens.last().reset_token,
                    )
                } else {
                    final(mail).pending() == old(mail).pending()
                }
            },
        },
{
    let user = match db.find_user_by_email(request_data.email.as_str()) {
        Some(user) => user,
        None => {
            return Err(Status::NotFound);
        },
    };
    proof {
        user_emails(db@.users).index_of_first_ensures(request_data.email@);
        let at = user_emails(db@.users).index_of_first(request_data.email@)->0;
        assert(db@.users[at].id == user.id);
        lemma_has_user(db@.users, user.id);
    }
    if now > i64::MAX - RESET_TOKEN_TTL {
        return Err(Status::InternalServerError);
    }
    let expiration_date = now + RESET_TOKEN_TTL;
    let reset_token = random_uuid();
    let stored = reset_token.clone();
    match db.replace_reset_token(user.id, stored, expiration_date, now) {
        Ok(_) => {},
        Err(_) => {
            return Err(Status::InternalServerError);
        },
    }
    let ghost before = mail.pending();
    let sender = smtp_username.to_owned();
    let recipient = request_data.email.clone();
    let queued = enqueue_email_reset_password(mail, sender, recipient, reset_token);
    proof {
        if queued == EnqueueOutcome::Queued {
            assert(mail.pending().drop_last() =~= before);
        }
    }
    Ok(Message { content: "Password reset email sent.".to_owned() })
}

/// The refusal a password reset meets before anything is hashed or stored:
/// an unknown token is not found, an expired one is a bad request.
pub open spec fn reset_refusal(tokens: Seq<TokenRow>, reset_token: Seq<char>, now: i64) -> Option<
    Status,
> {
    match token_with_value(tokens, reset_token) {
        None => Some(Status::NotFound),
        Some(token) => if token.expiration_date < now {
            Some(Status::BadRequest)
        } else {
            None
        },
    }
}

/// Whether `after` is `before` with the password hash of a user replaced,
/// and every secret of the user sealed anew under the new hash, so that the
/// user's secrets still open to what they opened to before.
pub open spec fn password_replaced(
    before: Tables,
    after: Tables,
    user_id: i32,
    password_hash: Seq<char>,
) -> bool {
    &&& after.users == users_with_hash(before.users, user_id, password_hash)
    &&& match user_with_id(before.users, user_id) {
        Some(user) => resealed(
            before.keys,
            after.keys,
            user_id,
            encode_utf8(user.password_hash),
            encode_utf8(password_hash),
        ),
        None => after.keys == before.keys,
    }
}

/// Whether `after` is `before` with the password of the token's user
/// replaced by a hash that opens to `new_password`, and the token used up.
pub open spec fn password_reset(
    before: Tables,
    after: Tables,
    reset_token: Seq<char>,
    new_password: Seq<char>,
    password_hash: Seq<char>,
) -> bool {
    &&& token_with_value(before.tokens, reset_token) matches Some(token)
    &&& password_matches(new_password, password_hash)
    &&& password_replaced(before, after, token.user_id, password_hash)
    &&& after == with_tokens(
        with_keys(with_users(before, after.users), after.keys),
        before.tokens.filter(other_token(reset_token)),
    )
}

/// Resets a user's password with a reset token, and seals the user's
/// secrets anew under the new password hash. A token is used once: a reset
/// that succeeds removes it, and the same token is not found again.
pub fn reset_password(db: &mut Database, request_data: &ResetData, now: i64) -> (outcome: Result<
    ResetResponse,
    Status,
>)
    ensures
        old(db).wf() ==> final(db).wf(),
        old(db).wf() && old(db).readable() ==> final(db).readable(),
        match reset_refusal(old(db)@.tokens, request_data.reset_token@, now) {
            Some(refusal) => outcome matches Err(status) && status == refusal && final(db)@ == old(db)@,
            None => match outcome {
                Ok(response) => {
                    &&& response.message@ == "Password reset successfully"@
                    &&& exists|password_hash: Seq<char>| #[trigger]
                        password_reset(
                            old(db)@,
                            final(db)@,
                            request_data.reset_token@,
                            request_data.new_password@,
                            password_hash,
                        )
                    &&& reset_refusal(final(db)@.tokens, request_data.reset_token@, now) == Some(
                        Status::NotFound,
                    )
                },
                Err(status) => status == Status::InternalServerError && final(db)@ == old(db)@,
            },
        },
{
    let token = match db.find_reset_token(request_data.reset_token.as_str()) {
        Some(token) => token,
        None => {
            return Err(Status::NotFound);
        },
    };
    if token.expiration_date < now {
        return Err(Status::BadRequest);
    }
    let hashed_password = match hashing::hash(request_data.new_password.as_str()) {
        Ok(hashed) => hashed,
        Err(_) => {
            return Err(Status::InternalServerError);
        },
    };
    let ghost password_hash = hashed_password@;
    match db.find_user_by_id(token.user_id) {
        Some(user) => {
            if db.reseal_keys(user.id, user.password_hash.as_str(), hashed_password.as_str()).is_err() {
                return Err(Status::InternalServerError);
            }
        },
        None => {},
    }
    db.update_password_hash(token.user_id, hashed_password);
    db.delete_reset_token(request_data.reset_token.as_str());
    proof {
        lemma_token_gone(old(db)@.tokens, request_data.reset_token@);
        if old(db).wf() && old(db).readable() {
            if user_with_id(old(db)@.users, token.user_id) is Some {
                lemma_readable_rekeyed(old(db)@, db@.keys, token.user_id, password_hash);
            } else {
                lemma_user_gone(old(db)@.users, token.user_id, password_hash);
            }
        }
        assert(password_reset(
            old(db)@,
            db@,
            request_data.reset_token@,
            request_data.new_password@,
            password_hash,
        ));
    }
    Ok(ResetResponse { message: "Password reset successfully".to_owned() })
}


pub open spec fn table() -> Seq<RouteView> {
    seq![
        open_route(Method::Post, "/login", "login"),
        open_route(Method::Post, "/register", "register"),
        guarded_route(Method::Get, "/currentUser", "current_user"),
        open_route(Method::Post, "/password/reset-request", "request_to_reset_password"),
        open_route(Method::Post, "/password/reset", "reset_password"),
    ]
}

pub fn routes() -> (list: Vec<Route>)
    ensures
        route_views(list@) == table(),
{
    let mut list = Vec::new();
    list.push(Route { method: Method::Post, path: "/login", handler: "login", guarded: false });
    list.push(Route { method: Method::Post, path: "/register", handler: "register", guarded: false });
    list.push(
        Route { method: Method::Get, path: "/currentUser", handler: "current_user", guarded: true },
    );
    list.push(
        Route {
            method: Method::Post,
            path: "/password/reset-request",
            handler: "request_to_reset_password",
            guarded: false,
        },
    );
    list.push(
        Route {
            method: Method::Post,
            path: "/password/reset",
            handler: "reset_password",
            guarded: false,
        },
    );
    assert(route_views(list@) =~= table());
    list
}

} // verus!
