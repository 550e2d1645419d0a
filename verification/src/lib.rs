//! A multi-tenant secret vault: user-owned credentials encrypted at rest,
//! session tokens in front of every operation, and an expiry scan that queues
//! notices for the owners of secrets that are about to lapse.

pub mod constants;
pub mod http;
pub mod models;
pub mod services;
pub mod utils;
pub mod middleware;
pub mod routes;
pub mod db;
pub mod helpers;
