pub mod encryption;
pub mod hashing;
pub mod random;
pub mod utils_service;
pub mod key_material;
pub mod queue;
pub mod email_sender_service;
pub mod password_reset_service;
pub mod key_service;
