//! One-time hash-based signatures following the Lamport scheme.
//!
//! A [`PrivateKey`] holds two tables of secret random preimages, one preimage in each table for
//! every bit of a message digest.  Its [`PublicKey`] holds the digest of every preimage.  To sign
//! a message the private key reveals, for every bit of the message digest, the preimage of the
//! table that the bit names; to verify, the public key hashes what was revealed and compares.
//! A signature gives away half of the private key, so a key signs one message and no more.
//!
//! The modules, from the ground up:
//!
//! - [`rows`]: byte strings and tables of them, compared, copied and erased;
//! - [`hash`]: the hash algorithms and the digest primitive;
//! - [`scheme`]: the rule by which digest bits choose between two tables;
//! - [`encoding`]: the flat byte encoding of a table;
//! - [`public_key`] and [`private_key`]: the two key types, each with a mathematical model
//!   that its contracts speak of;
//! - [`theorems`]: what holds of the scheme as a whole.
//!
//! Everything is verified but for three points, each marked where it stands: the digest itself
//! and the random bytes come from outside, and a key's destructor is taken to do what it says.
//!
//! Comparisons run until the first difference and so are not constant-time.  Nothing here
//! protects a key against use from several threads at once beyond what `&mut` already demands.

pub mod encoding;
mod entropy;
pub mod hash;
pub mod private_key;
pub mod public_key;
pub mod rows;
pub mod scheme;
pub mod theorems;

pub use crate::hash::Algorithm;
pub use crate::private_key::PrivateKey;
pub use crate::public_key::{LamportSignatureData, PublicKey};
