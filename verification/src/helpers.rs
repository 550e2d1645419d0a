pub mod error_codes;
pub mod forms;
