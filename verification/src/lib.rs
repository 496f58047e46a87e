//! Authentication core for a phone-verified diet-tracking service.
//!
//! The library covers the verification-code lifecycle (issue, store,
//! verify), token issuance and validation, and the request gate that
//! protects routes. Persistence goes through `sled` and token signing
//! through `jsonwebtoken`, both behind small trusted wrappers; every
//! decision around those calls is verified.

pub mod auth;
pub mod client;
pub mod clock;
pub mod config;
pub mod errors;
pub mod gate;
pub mod models;
pub mod numerals;
pub mod phone;
pub mod record;
pub mod session;
pub mod store;
pub mod text;
pub mod token;
