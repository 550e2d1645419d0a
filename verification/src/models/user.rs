use vstd::prelude::*;

verus! {

/// What the outside sees of a principal: never the password hash.
#[derive(Clone, Debug, PartialEq, Eq)]
pub struct User {
    pub id: i32,
    pub username: String,
    pub email: String,
}

pub struct UserView {
    pub id: i32,
    pub username: Seq<char>,
    pub email: Seq<char>,
}

impl View for User {
    type V = UserView;

    open spec fn view(&self) -> UserView {
        UserView { id: self.id, username: self.username@, email: self.email@ }
    }
}

#[derive(Clone, Debug, PartialEq, Eq)]
pub struct RegisterRequest {
    pub username: String,
    pub email: String,
    pub password: String,
}

/// A change to the caller's own account; each handler reads the fields it
/// is about and asks for the ones it needs.
#[derive(Clone, Debug, PartialEq, Eq)]
pub struct UpdateUserRequest {
    pub username: Option<String>,
    pub email: Option<String>,
    pub old_password: Option<String>,
    pub new_password: Option<String>,
}

#[derive(Clone, Debug, PartialEq, Eq)]
pub struct DeleteUserRequest {
    pub password: String,
}

#[derive(Clone, Debug, PartialEq, Eq)]
pub struct UpdateUserResponse {
    pub message: String,
}

#[derive(Clone, Debug, PartialEq, Eq)]
pub struct AuthResponse {
    pub user: User,
    pub token: String,
}

#[derive(Clone, Debug, PartialEq, Eq)]
pub struct LoginRequest {
    pub email: String,
    pub password: String,
}

#[derive(Clone, Debug, PartialEq, Eq)]
pub struct Token {
    pub token: String,
}

} // verus!
