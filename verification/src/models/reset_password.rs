use vstd::prelude::*;

verus! {

#[derive(Clone, Debug, PartialEq, Eq)]
pub struct ResetPasswordRequest {
    pub email: String,
}

/// A stored password-reset token. Times are seconds since the epoch.
#[derive(Clone, Debug, PartialEq, Eq)]
pub struct PasswordResetToken {
    pub id: i32,
    pub user_id: i32,
    pub reset_token: String,
    pub expiration_date: i64,
    pub created_at: i64,
}

pub struct TokenRow {
    pub id: i32,
    pub user_id: i32,
    pub reset_token: Seq<char>,
    pub expiration_date: i64,
    pub created_at: i64,
}

impl View for PasswordResetToken {
    type V = TokenRow;

    open spec fn view(&self) -> TokenRow {
        TokenRow {
            id: self.id,
            user_id: self.user_id,
            reset_token: self.reset_token@,
            expiration_date: self.expiration_date,
            created_at: self.created_at,
        }
    }
}

impl PasswordResetToken {
    pub fn duplicate(&self) -> (copy: PasswordResetToken)
        ensures
            copy@ == self@,
    {
        PasswordResetToken {
            id: self.id,
            user_id: self.user_id,
            reset_token: self.reset_token.clone(),
            expiration_date: self.expiration_date,
            created_at: self.created_at,
        }
    }
}

#[derive(Clone, Debug, PartialEq, Eq)]
pub struct ResetData {
    pub reset_token: String,
    pub new_password: String,
}

#[derive(Clone, Debug, PartialEq, Eq)]
pub struct ResetResponse {
    pub message: String,
}

#[derive(Clone, Debug, PartialEq, Eq)]
pub struct Message {
    pub content: String,
}

} // verus!
