use vstd::prelude::*;
use vstd::string::*;
use crate::utils::validation::{
    email_outcome,
    length_outcome,
    validate_email,
    validate_length,
    ValidationError,
};

verus! {

/// An e-mail address to hold against the address rule.
#[derive(Clone, Debug, PartialEq, Eq)]
pub struct ValidateEmail {
    pub email: String,
}

/// An account password: between 8 and 128 bytes.
#[derive(Clone, Debug, PartialEq, Eq)]
pub struct ValidatePassword {
    pub password: String,
}

/// A user name: between 2 and 32 bytes.
#[derive(Clone, Debug, PartialEq, Eq)]
pub struct ValidateUsername {
    pub username: String,
}

impl ValidateEmail {
    pub fn validate(&self) -> (outcome: Result<(), ValidationError>)
        ensures
            outcome == email_outcome(self.email@),
    {
        validate_email(self.email.as_str())
    }
}

impl ValidatePassword {
    pub fn validate(&self) -> (outcome: Result<(), ValidationError>)
        ensures
            outcome == length_outcome(vstd::utf8::encode_utf8(self.password@).len(), 8, 128),
    {
        validate_length(self.password.as_str(), 8, 128)
    }
}

impl ValidateUsername {
    pub fn validate(&self) -> (outcome: Result<(), ValidationError>)
        ensures
            outcome == length_outcome(vstd::utf8::encode_utf8(self.username@).len(), 2, 32),
    {
        validate_length(self.username.as_str(), 2, 32)
    }
}

} // verus!
