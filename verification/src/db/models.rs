use vstd::prelude::*;

verus! {

/// A stored principal. The password hash never leaves the vault: what is
/// shown of a user is `public()`.
#[derive(Clone, Debug, PartialEq, Eq)]
pub struct User {
    pub id: i32,
    pub username: String,
    pub email: String,
    pub password_hash: String,
    pub created_at: i64,
}

pub struct UserRow {
    pub id: i32,
    pub username: Seq<char>,
    pub email: Seq<char>,
    pub password_hash: Seq<char>,
    pub created_at: i64,
}

impl View for User {
    type V = UserRow;

    open spec fn view(&self) -> UserRow {
        UserRow {
            id: self.id,
            username: self.username@,
            email: self.email@,
            password_hash: self.password_hash@,
            created_at: self.created_at,
        }
    }
}

/// What the outside sees of a stored principal.
pub open spec fn public_view(row: UserRow) -> crate::models::user::UserView {
    crate::models::user::UserView { id: row.id, username: row.username, email: row.email }
}

impl User {
    pub fn duplicate(&self) -> (copy: User)
        ensures
            copy@ == self@,
    {
        User {
            id: self.id,
            username: self.username.clone(),
            email: self.email.clone(),
            password_hash: self.password_hash.clone(),
            created_at: self.created_at,
        }
    }

    /// The user without the password hash.
    pub fn public(&self) -> (shown: crate::models::user::User)
        ensures
            shown@ == public_view(self@),
    {
        crate::models::user::User {
            id: self.id,
            username: self.username.clone(),
            email: self.email.clone(),
        }
    }
}

/// An audit record of a notice that was raised for a user.
#[derive(Clone, Debug, PartialEq, Eq)]
pub struct Notification {
    pub user_id: i32,
    pub notification_type: String,
    pub message: String,
}

pub struct NotificationRow {
    pub user_id: i32,
    pub notification_type: Seq<char>,
    pub message: Seq<char>,
}

impl View for Notification {
    type V = NotificationRow;

    open spec fn view(&self) -> NotificationRow {
        NotificationRow {
            user_id: self.user_id,
            notification_type: self.notification_type@,
            message: self.message@,
        }
    }
}

impl Notification {
    pub fn duplicate(&self) -> (copy: Notification)
        ensures
            copy@ == self@,
    {
        Notification {
            user_id: self.user_id,
            notification_type: self.notification_type.clone(),
            message: self.message.clone(),
        }
    }
}

} // verus!
