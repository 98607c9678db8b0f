//! Parsing, validation and serialization of SSH key material.
//!
//! Keys for RSA, DSA, ECDSA and Ed25519 are represented by a unified
//! [`keys::KeyPair`] / [`keys::PublicKey`] model and stored in the native
//! OpenSSH binary container, in PEM-wrapped PKCS#1/SEC1 bodies, or in
//! PKCS#8, optionally protected by a passphrase-derived symmetric cipher.
//! The container codec validates its checksum pair and padding bit-exactly,
//! and decoding an encoded container is proved to return the key it was
//! built from.

pub mod cipher;
pub mod error;
pub mod format;
pub mod keys;
pub mod sshbuf;

use vstd::prelude::*;

verus! {

} // verus!
