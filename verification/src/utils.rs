pub mod datetime;
pub mod encoding;
pub mod jwt_token;
pub mod text;
pub mod validation;
