use vstd::prelude::*;

verus! {

/// The message shown for a response status that is no success.
pub open spec fn error_message(status: u16) -> Option<Seq<char>> {
    if 200 <= status <= 299 {
        None
    } else if status == 401 {
        Some("Your session is invalid. Please log in again."@)
    } else if status == 403 {
        Some("You don't have permission to access this resource."@)
    } else if status == 404 {
        Some("The requested resource was not found."@)
    } else if status == 400 {
        Some("Invalid request data provided."@)
    } else if status == 500 {
        Some("An internal server error occurred. Please try again later."@)
    } else if status == 409 {
        Some("A user with the same email or username already exists."@)
    } else if status == 422 {
        Some("The password is too short or not enough complex."@)
    } else {
        Some("An unexpected error occurred. Please try again later."@)
    }
}

pub open spec fn message_view(message: Option<String>) -> Option<Seq<char>> {
    match message {
        Some(m) => Some(m@),
        None => None,
    }
}

/// Tells the user what went wrong, from the status of a response. A
/// success has no message.
pub fn get_error_message_from_code(status: u16) -> (message: Option<String>)
    ensures
        message_view(message) == error_message(status),
{
    if 200 <= status && status <= 299 {
        return None;
    }
    let message = if status == 401 {
        "Your session is invalid. Please log in again."
    } else if status == 403 {
        "You don't have permission to access this resource."
    } else if status == 404 {
        "The requested resource was not found."
    } else if status == 400 {
        "Invalid request data provided."
    } else if status == 500 {
        "An internal server error occurred. Please try again later."
    } else if status == 409 {
        "A user with the same email or username already exists."
    } else if status == 422 {
        "The password is too short or not enough complex."
    } else {
        "An unexpected error occurred. Please try again later."
    };
    Some(message.to_owned())
}

} // verus!
