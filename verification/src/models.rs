pub mod claims;
pub mod key;
pub mod reset_password;
pub mod user;
pub mod utils;
pub mod validate;
