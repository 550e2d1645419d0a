use vstd::prelude::*;
use vstd::string::*;
use crate::constants::key_types::PASSWORD;
use crate::models::user::{LoginRequest, RegisterRequest};
use crate::utils::validation::{is_email_valid, is_password_valid, regex_match, EMAIL_PATTERN};

verus! {

pub open spec fn field_view(field: Option<String>) -> Option<Seq<char>> {
    match field {
        Some(f) => Some(f@),
        None => None,
    }
}

/// What a form field holds: nothing where it was left empty.
pub fn string_or_none(value: String) -> (field: Option<String>)
    ensures
        field_view(field) == if value@.len() == 0 {
            None
        } else {
            Some(value@)
        },
{
    if value.as_str().is_empty() {
        None
    } else {
        Some(value)
    }
}

/// Whether the form for a new secret can be saved: a name is needed, and
/// for a password also a value.
pub fn is_save_valid(key_type: i32, key_name: &str, key_value: &Option<String>) -> (valid: bool)
    ensures
        valid == (key_name@.len() > 0 && (key_type == PASSWORD ==> key_value is Some)),
{
    if key_type == PASSWORD {
        !key_name.is_empty() && key_value.is_some()
    } else {
        !key_name.is_empty()
    }
}

/// Whether the form for an imported key pair can be sent: a name, the
/// public key and the private-key file are all needed.
pub fn is_import_valid(key_name: &str, key_value: &Option<String>, has_private_key_file: bool) -> (valid:
    bool)
    ensures
        valid == (key_name@.len() > 0 && key_value is Some && has_private_key_file),
{
    !key_name.is_empty() && key_value.is_some() && has_private_key_file
}

/// Why a sign-in or sign-up form is not sent.
#[derive(Clone, Copy, Debug, PartialEq, Eq, Structural)]
pub enum FormError {
    InvalidEmail,
    PasswordMismatch,
}

/// What the form shows for an error.
pub open spec fn form_message(error: FormError) -> Seq<char> {
    match error {
        FormError::InvalidEmail => "Invalid email format."@,
        FormError::PasswordMismatch => "Passwords do not match."@,
    }
}

impl FormError {
    pub fn message(self) -> (text: &'static str)
        ensures
            text@ == form_message(self),
    {
        match self {
            FormError::InvalidEmail => "Invalid email format.",
            FormError::PasswordMismatch => "Passwords do not match.",
        }
    }
}

/// Whether an address has the form that the sign-in and sign-up forms ask
/// for.
pub open spec fn email_accepted(email: Seq<char>) -> bool {
    regex_match(EMAIL_PATTERN@, email) == Some(true)
}

/// Whether the sign-in form still lacks a field.
pub fn is_login_incomplete(email: &str, password: &str) -> (incomplete: bool)
    ensures
        incomplete == (email@.len() == 0 || password@.len() == 0),
{
    email.is_empty() || password.is_empty()
}

/// Whether the sign-up form still lacks a field.
pub fn is_signup_incomplete(email: &str, username: &str, password: &str, confirm_password: &str) -> (incomplete:
    bool)
    ensures
        incomplete == (email@.len() == 0 || username@.len() == 0 || password@.len() == 0
            || confirm_password@.len() == 0),
{
    email.is_empty() || username.is_empty() || password.is_empty() || confirm_password.is_empty()
}

/// Checks a sign-in form and makes the request it stands for.
pub fn check_login(email: &str, password: &str) -> (checked: Result<LoginRequest, FormError>)
    ensures
        match checked {
            Ok(request) => email_accepted(email@) && request.email@ == email@ && request.password@
                == password@,
            Err(error) => !email_accepted(email@) && error == FormError::InvalidEmail,
        },
{
    if !is_email_valid(email) {
        return Err(FormError::InvalidEmail);
    }
    Ok(LoginRequest { email: email.to_owned(), password: password.to_owned() })
}

/// Checks a sign-up form and makes the request it stands for. The address
/// is looked at first, then whether the two passwords agree.
pub fn check_signup(username: &str, email: &str, password: &str, confirm_password: &str) -> (checked:
    Result<RegisterRequest, FormError>)
    ensures
        match checked {
            Ok(request) => {
                &&& email_accepted(email@)
                &&& password@ == confirm_password@
                &&& request.username@ == username@
                &&& request.email@ == email@
                &&& request.password@ == password@
            },
            Err(FormError::InvalidEmail) => !email_accepted(email@),
            Err(FormError::PasswordMismatch) => email_accepted(email@) && password@
                != confirm_password@,
        },
{
    if !is_email_valid(email) {
        return Err(FormError::InvalidEmail);
    }
    if !is_password_valid(password, confirm_password) {
        return Err(FormError::PasswordMismatch);
    }
    Ok(
        RegisterRequest {
            username: username.to_owned(),
            email: email.to_owned(),
            password: password.to_owned(),
        },
    )
}

/// What the sign-in form shows when the server refused.
pub fn login_failed(reason: &str) -> (text: String)
    ensures
        text@ == "Login failed: "@ + reason@,
{
    let mut text = "Login failed: ".to_owned();
    text.append(reason);
    text
}

/// What the sign-up form shows when the server refused.
pub fn signup_failed(reason: &str) -> (text: String)
    ensures
        text@ == "Signup failed: "@ + reason@,
{
    let mut text = "Signup failed: ".to_owned();
    text.append(reason);
    text
}

} // verus!
