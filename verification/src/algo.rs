//! The choice of hashing algorithm and work factor.

use vstd::prelude::*;
use crate::crypt_format::{
    bcrypt_form, sha512_form, BCRYPT_DEFAULT_COST, BCRYPT_MAX_COST, BCRYPT_MIN_COST,
    SHA512_MAX_ROUNDS, SHA512_MIN_ROUNDS,
};

verus! {

/// Hashing algorithms understood by this library. This is not every
/// algorithm that may be present in an htpasswd file.
///
/// * Bcrypt is understood by Docker registry, Nginx and `htpasswd`.
/// * SHA-512 is understood by Nginx, but not by `htpasswd`.
pub enum Algo {
    /// Use a specific cost. Must be within the range acceptable to bcrypt.
    Bcrypt { cost: u32 },
    /// Fastest, cheapest, and least secure. Useful for automated tests.
    BcryptMinCost,
    /// Use the default cost.
    BCryptDefault,
    /// Use a specific number of rounds. Must be within the range acceptable
    /// to SHA-512-crypt.
    Sha512 { rounds: u32 },
    /// Use the default number of rounds.
    Sha512Default,
    /// Fastest, cheapest, and least secure. Useful for automated tests.
    Sha512MinRounds,
}

/// `DEFAULT_COST` of the `bcrypt` crate, which that crate's source sets to 12.
#[verifier::external_body]
fn bcrypt_default_cost() -> (cost: u32)
    ensures
        cost == BCRYPT_DEFAULT_COST,
{
    bcrypt::DEFAULT_COST
}

/// `bcrypt::MIN_COST` of the `pwhash` crate, which that crate's source sets to 4.
#[verifier::external_body]
fn bcrypt_min_cost() -> (cost: u32)
    ensures
        cost == BCRYPT_MIN_COST,
{
    pwhash::bcrypt::MIN_COST
}

/// `sha512_crypt::MIN_ROUNDS` of the `pwhash` crate, which that crate's
/// source sets to 1000.
#[verifier::external_body]
pub(crate) fn sha512_min_rounds() -> (rounds: u32)
    ensures
        rounds == SHA512_MIN_ROUNDS,
{
    pwhash::sha512_crypt::MIN_ROUNDS
}

/// `sha512_crypt::MAX_ROUNDS` of the `pwhash` crate, which that crate's
/// source sets to 999999999.
#[verifier::external_body]
pub(crate) fn sha512_max_rounds() -> (rounds: u32)
    ensures
        rounds == SHA512_MAX_ROUNDS,
{
    pwhash::sha512_crypt::MAX_ROUNDS
}

impl Algo {
    /// The variant names its work factor itself, or is SHA-512-crypt with
    /// the rounds that the primitive chooses.
    pub open spec fn is_resolved(self) -> bool {
        self is Bcrypt || self is Sha512 || self is Sha512Default
    }

    /// The fully specified variant that this one stands for.
    pub open spec fn resolved(self) -> Algo {
        match self {
            Algo::BcryptMinCost => Algo::Bcrypt { cost: BCRYPT_MIN_COST },
            Algo::BCryptDefault => Algo::Bcrypt { cost: BCRYPT_DEFAULT_COST },
            Algo::Sha512MinRounds => Algo::Sha512 { rounds: SHA512_MIN_ROUNDS },
            other => other,
        }
    }

    /// The variant belongs to the bcrypt family.
    pub open spec fn is_bcrypt(self) -> bool {
        self is Bcrypt || self is BcryptMinCost || self is BCryptDefault
    }

    /// The variant belongs to the SHA-512-crypt family.
    pub open spec fn is_sha512(self) -> bool {
        !self.is_bcrypt()
    }

    /// The work factor lies outside what the primitive of the family accepts.
    pub open spec fn is_rejected(self) -> bool {
        match self.resolved() {
            Algo::Bcrypt { cost } => !(BCRYPT_MIN_COST <= cost <= BCRYPT_MAX_COST),
            Algo::Sha512 { rounds } => !(SHA512_MIN_ROUNDS <= rounds <= SHA512_MAX_ROUNDS),
            _ => false,
        }
    }

    /// What a hash string made with this variant looks like.
    pub open spec fn hash_form(self, h: Seq<char>) -> bool {
        match self.resolved() {
            Algo::Bcrypt { cost } => bcrypt_form(h, cost),
            Algo::Sha512 { rounds } => SHA512_MIN_ROUNDS <= rounds <= SHA512_MAX_ROUNDS
                && sha512_form(h, Some(rounds)),
            _ => sha512_form(h, None),
        }
    }

    /// Replaces a "default" or "minimum" variant by the variant that names
    /// the work factor; the other variants stay as they are.
    pub fn resolve(self) -> (r: Algo)
        ensures
            r == self.resolved(),
            r.is_resolved(),
    {
        match self {
            Algo::BcryptMinCost => Algo::Bcrypt { cost: bcrypt_min_cost() },
            Algo::BCryptDefault => Algo::Bcrypt { cost: bcrypt_default_cost() },
            Algo::Sha512MinRounds => Algo::Sha512 { rounds: sha512_min_rounds() },
            other => other,
        }
    }
}

} // verus!
