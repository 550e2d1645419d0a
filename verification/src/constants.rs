pub mod key_types;
