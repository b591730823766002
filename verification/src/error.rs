//! Errors of the library's fallible operations.

use vstd::prelude::*;

verus! {

#[verifier::external_type_specification]
#[verifier::external_body]
pub struct ExKeyringError(keyring::Error);

/// What went wrong in an operation of the app's core.
#[derive(Debug)]
pub enum AppError {
    /// The OS keychain reported a failure.
    Keychain(keyring::Error),
    /// The OS keychain is missing or locked; the text says what to do.
    KeychainUnavailable(String),
    /// No token is stored for the user (or the stored one is empty).
    NoToken,
    Other(String),
}

} // verus!
