//! The hash dispatcher: from an algorithm choice and a password to a hash
//! string, through the bcrypt and SHA-512-crypt primitives.

use vstd::prelude::*;
use vstd::string::*;
use vstd::pervasive::unreached;
use crate::algo::{sha512_max_rounds, sha512_min_rounds, Algo};
use crate::crypt_format::{
    bcrypt_form, is_printable, sha512_form, BCRYPT_MAX_COST, BCRYPT_MIN_COST, SHA512_MAX_ROUNDS,
    SHA512_MIN_ROUNDS,
};
use crate::errors::HtpasswdError;

verus! {

/// What `pwhash::sha512_crypt::verify` answers for a password and a hash
/// string of printable ASCII.
pub uninterp spec fn sha512_crypt_accepts(password: Seq<char>, hash: Seq<char>) -> bool;

/// Whether `bcrypt::verify` answers `Ok(true)` for a password and a hash
/// string.
pub uninterp spec fn bcrypt_accepts(password: Seq<char>, hash: Seq<char>) -> bool;

/// `bcrypt::hash_with_result`, formatted by `HashParts::format_for_version`
/// with `Version::TwoA`. The call draws a fresh salt. It fails on a cost
/// outside 4 to 31; what it returns is `$2a$`, the cost in two digits, `$`,
/// and 22 characters of salt and 31 of digest in bcrypt's base-64 alphabet,
/// and is a hash string that `bcrypt::verify` accepts for the same
/// password.
#[verifier::external_body]
fn bcrypt_two_a(password: &str, cost: u32) -> (r: Result<String, bcrypt::BcryptError>)
    ensures
        !(BCRYPT_MIN_COST <= cost <= BCRYPT_MAX_COST) ==> r is Err,
        r is Ok ==> bcrypt_form(r.unwrap()@, cost),
        r is Ok ==> bcrypt_accepts(password@, r.unwrap()@),
{
    match bcrypt::hash_with_result(password, cost) {
        Ok(parts) => Ok(parts.format_for_version(bcrypt::Version::TwoA)),
        Err(e) => Err(e),
    }
}

/// `pwhash::sha512_crypt::hash`: a fresh salt of full length and the rounds
/// that the primitive chooses. What it returns is `$6$`, 16 characters of
/// salt, `$` and 86 characters of digest, and is a hash string that
/// `pwhash::sha512_crypt::verify` accepts for the same password.
#[verifier::external_body]
fn sha512_crypt_default(password: &str) -> (r: Result<String, pwhash::error::Error>)
    ensures
        r is Ok ==> sha512_form(r.unwrap()@, None),
        r is Ok ==> sha512_crypt_accepts(password@, r.unwrap()@),
{
    pwhash::sha512_crypt::hash(password)
}

/// `pwhash::sha512_crypt::hash_with` on a `HashSetup` that names the rounds
/// and no salt, so that a fresh salt of full length is drawn. What it
/// returns is `$6$rounds=`, the rounds in decimal, `$`, 16 characters of
/// salt, `$` and 86 characters of digest, and is a hash string that
/// `pwhash::sha512_crypt::verify` accepts for the same password. Rounds
/// outside 1000 to 999999999 would be moved into that range by the call.
#[verifier::external_body]
fn sha512_crypt_rounds(password: &str, rounds: u32) -> (r: Result<String, pwhash::error::Error>)
    requires
        SHA512_MIN_ROUNDS <= rounds <= SHA512_MAX_ROUNDS,
    ensures
        r is Ok ==> sha512_form(r.unwrap()@, Some(rounds)),
        r is Ok ==> sha512_crypt_accepts(password@, r.unwrap()@),
{
    pwhash::sha512_crypt::hash_with(pwhash::HashSetup { salt: None, rounds: Some(rounds) }, password)
}

/// `bcrypt::verify`: reads cost and salt from the hash string, hashes the
/// password again with them and compares the digests. A hash string that
/// it cannot read gives an error.
#[verifier::external_body]
fn bcrypt_verify(password: &str, hash: &str) -> (r: Result<bool, bcrypt::BcryptError>)
    ensures
        bcrypt_accepts(password@, hash@) == (r == Ok::<bool, bcrypt::BcryptError>(true)),
{
    bcrypt::verify(password, hash)
}

/// `pwhash::sha512_crypt::verify`: hashes the password again with the salt
/// and rounds read from the hash string and compares. Only printable ASCII
/// is let in, since decoding the salt does not expect anything else.
#[verifier::external_body]
fn sha512_crypt_verify(password: &str, hash: &str) -> (ok: bool)
    requires
        is_printable(hash@),
    ensures
        ok == sha512_crypt_accepts(password@, hash@),
{
    pwhash::sha512_crypt::verify(password, hash)
}

/// `pwhash::error::Error::InvalidRounds`, the error of that crate for a
/// number of rounds that it does not take.
#[verifier::external_body]
fn invalid_rounds() -> pwhash::error::Error {
    pwhash::error::Error::InvalidRounds
}

/// Whether every character of the text is printable ASCII.
pub fn is_printable_ascii(text: &str) -> (ok: bool)
    ensures
        ok == is_printable(text@),
{
    let n: usize = text.unicode_len();
    let mut i: usize = 0;
    while i < n
        invariant
            n == text@.len(),
            i <= n,
            forall|j: int| 0 <= j < i ==> ' ' <= #[trigger] text@[j] && text@[j] <= '~',
        decreases n - i,
    {
        let c: char = text.get_char(i);
        if ' ' > c || c > '~' {
            return false;
        }
        i += 1;
    }
    true
}

/// Whether `hash` is a SHA-512-crypt hash string of `password`. A hash
/// string that holds anything but printable ASCII is of no family and is
/// refused.
pub fn matches_sha512_crypt(password: &str, hash: &str) -> (ok: bool)
    ensures
        ok == (is_printable(hash@) && sha512_crypt_accepts(password@, hash@)),
{
    is_printable_ascii(hash) && sha512_crypt_verify(password, hash)
}

/// Whether `hash` is a bcrypt hash string of `password`. A hash string
/// that the primitive cannot read is refused.
pub fn matches_bcrypt(password: &str, hash: &str) -> (ok: bool)
    ensures
        ok == bcrypt_accepts(password@, hash@),
{
    match bcrypt_verify(password, hash) {
        Ok(answer) => answer,
        Err(_) => false,
    }
}

/// Hashes a password with bcrypt at the given cost, under version tag
/// `2a`. The hash string is one that bcrypt accepts for the password.
pub fn hash_bcrypt(password: &str, cost: u32) -> (r: Result<String, HtpasswdError>)
    ensures
        !(BCRYPT_MIN_COST <= cost <= BCRYPT_MAX_COST) ==> r is Err,
        r is Ok ==> bcrypt_form(r.unwrap()@, cost),
        r is Ok ==> bcrypt_accepts(password@, r.unwrap()@),
        r is Err ==> r.unwrap_err() is BCrypt,
{
    match bcrypt_two_a(password, cost) {
        Ok(hash) => Ok(hash),
        Err(e) => Err(HtpasswdError::BCrypt(e)),
    }
}

/// Hashes a password with SHA-512-crypt, a fresh salt and the given number
/// of rounds; `None` leaves the number to the primitive. Rounds outside
/// the accepted range are refused.
pub fn hash_sha512(password: &str, rounds: Option<u32>) -> (r: Result<String, HtpasswdError>)
    ensures
        rounds is Some && !(SHA512_MIN_ROUNDS <= rounds.unwrap() <= SHA512_MAX_ROUNDS) ==> r is Err,
        r is Ok ==> sha512_form(r.unwrap()@, rounds),
        r is Ok ==> sha512_crypt_accepts(password@, r.unwrap()@),
        r is Err ==> r.unwrap_err() is PwHash,
{
    let outcome = match rounds {
        Some(n) => {
            if n < sha512_min_rounds() || n > sha512_max_rounds() {
                Err(invalid_rounds())
            } else {
                sha512_crypt_rounds(password, n)
            }
        },
        None => sha512_crypt_default(password),
    };
    match outcome {
        Ok(hash) => Ok(hash),
        Err(e) => Err(HtpasswdError::PwHash(e)),
    }
}

/// Hashes a password as the algorithm choice asks. The choice is resolved
/// first, so that each family has one path. On success the hash string has
/// the form of the resolved choice and is one that the primitive of the
/// family accepts for the password; a work factor outside the family's
/// range gives an error, and every error is of the family's kind.
pub fn hash_password(algo: Algo, password: &str) -> (r: Result<String, HtpasswdError>)
    ensures
        algo.is_rejected() ==> r is Err,
        r is Ok ==> algo.hash_form(r.unwrap()@),
        r is Ok && algo.is_bcrypt() ==> bcrypt_accepts(password@, r.unwrap()@),
        r is Ok && algo.is_sha512() ==> sha512_crypt_accepts(password@, r.unwrap()@),
        r is Err ==> (r.unwrap_err() is BCrypt <==> algo.is_bcrypt()),
        r is Err ==> (r.unwrap_err() is PwHash <==> algo.is_sha512()),
{
    match algo.resolve() {
        Algo::Bcrypt { cost } => hash_bcrypt(password, cost),
        Algo::Sha512 { rounds } => hash_sha512(password, Some(rounds)),
        Algo::Sha512Default => hash_sha512(password, None),
        _ => unreached(),
    }
}

} // verus!
