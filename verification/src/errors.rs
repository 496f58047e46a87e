//! Error taxonomy of the authentication layer.
//!
//! Verification mismatches are not errors — they are negative outcomes
//! — so the variants here cover system faults and rejected requests
//! only, each with the HTTP status it surfaces as.

use vstd::prelude::*;
use vstd::string::StringExecFns;

verus! {

/// Why an authentication operation failed.
#[derive(Debug, Clone, Copy, PartialEq, Eq, Structural)]
pub enum AuthError {
    /// The underlying store failed; surfaced as a 500.
    Storage,
    /// Dispatching the code to the external channel failed; surfaced as
    /// a 500 while the stored code stays in place.
    Delivery,
    /// An unexpected fault, such as token signing going wrong; 500.
    Internal,
    /// The presented verification code was wrong or expired; 400.
    InvalidCode,
}

impl AuthError {
    /// The HTTP status this error surfaces as.
    pub fn status_code(&self) -> (r: u16)
        ensures
            r == (match self {
                AuthError::InvalidCode => 400u16,
                _ => 500u16,
            }),
    {
        match self {
            AuthError::InvalidCode => 400,
            _ => 500,
        }
    }

    /// The generic client-facing message; internal detail stays out.
    pub fn message(&self) -> (r: String)
        ensures
            r@ == (match self {
                AuthError::Storage => "Failed to store verification"@,
                AuthError::Delivery => "Failed to send verification code"@,
                AuthError::Internal => "Failed to generate token"@,
                AuthError::InvalidCode => "Invalid or expired verification code"@,
            }),
    {
        match self {
            AuthError::Storage => String::from_str("Failed to store verification"),
            AuthError::Delivery => String::from_str("Failed to send verification code"),
            AuthError::Internal => String::from_str("Failed to generate token"),
            AuthError::InvalidCode => String::from_str("Invalid or expired verification code"),
        }
    }
}

/// Why the request gate rejected a request; always a 401.
#[derive(Debug, Clone, Copy, PartialEq, Eq, Structural)]
pub enum RejectReason {
    /// No credential accompanied the request.
    NoCredential,
    /// A credential was presented but its signature or expiry failed.
    InvalidOrExpired,
}

impl RejectReason {
    /// The HTTP status of a gate rejection.
    pub fn status_code(&self) -> (r: u16)
        ensures
            r == 401u16,
    {
        401
    }

    /// The client-facing message of a gate rejection.
    pub fn message(&self) -> (r: String)
        ensures
            r@ == (match self {
                RejectReason::NoCredential => "Authorization required"@,
                RejectReason::InvalidOrExpired => "Invalid token"@,
            }),
    {
        match self {
            RejectReason::NoCredential => String::from_str("Authorization required"),
            RejectReason::InvalidOrExpired => String::from_str("Invalid token"),
        }
    }
}

} // verus!
