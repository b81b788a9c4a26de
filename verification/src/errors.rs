//! What can go wrong when a password is hashed.

use vstd::prelude::*;

verus! {

/// The error type of the `bcrypt` crate, carried through unread.
#[verifier::external_type_specification]
#[verifier::external_body]
pub struct ExBcryptError(bcrypt::BcryptError);

/// The error type of the `pwhash` crate, carried through unread.
#[verifier::external_type_specification]
#[verifier::external_body]
pub struct ExPwHashError(pwhash::error::Error);

/// A password could not be hashed.
#[derive(Debug)]
pub enum HtpasswdError {
    /// The bcrypt primitive refused the cost or failed.
    BCrypt(bcrypt::BcryptError),
    /// The SHA-512-crypt primitive refused the rounds or failed.
    PwHash(pwhash::error::Error),
}

} // verus!
