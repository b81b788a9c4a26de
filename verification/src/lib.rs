//! Generate Apache `.htpasswd` files.
//!
//! A [`Htpasswd`] is an ordered table of user names and password hashes.
//! Passwords are hashed with bcrypt or SHA-512-crypt, chosen by an [`Algo`],
//! and the table is rendered as one `username:hash` line per user.

pub mod algo;
pub mod crypt_format;
pub mod entries;
pub mod errors;
pub mod hashing;
pub mod render;
pub mod table;

pub use crate::algo::Algo;
pub use crate::table::Htpasswd;
