//! The algorithm-polymorphic key model.
//!
//! A [`KeyPair`] or [`PublicKey`] owns exactly one algorithm variant; every
//! other component dispatches on the variant by exhaustive matching. The
//! algorithm-specific material is held as the big-endian byte strings that
//! the wire formats carry; the arithmetic on them belongs to the
//! cryptography provider.

use vstd::prelude::*;
use crate::sshbuf::bytes_eq;

verus! {

/// The largest length this library accepts for a single key field, so that
/// every length-prefixed sum in the wire formats stays below `2^32`.
pub const MAX_FIELD_LEN: usize = 0x0100_0000;

/// The closed set of key algorithms.
#[derive(Debug, Clone, Copy, PartialEq, Eq, Structural)]
pub enum KeyType {
    RSA,
    DSA,
    ECDSA,
    ED25519,
}

/// The supported elliptic curves.
#[derive(Debug, Clone, Copy, PartialEq, Eq, Structural)]
pub enum EcCurve {
    Nistp256,
    Nistp384,
    Nistp521,
}

/// An RSA public key: modulus and public exponent.
#[derive(Debug, Clone)]
pub struct RsaPublicKey {
    pub n: Vec<u8>,
    pub e: Vec<u8>,
}

/// An RSA key pair; the private exponent, CRT coefficient and factors
/// accompany the public fields.
#[derive(Debug, Clone)]
pub struct RsaKeyPair {
    pub n: Vec<u8>,
    pub e: Vec<u8>,
    pub d: Vec<u8>,
    pub iqmp: Vec<u8>,
    pub p: Vec<u8>,
    pub q: Vec<u8>,
}

/// A DSA public key: domain parameters and public value.
#[derive(Debug, Clone)]
pub struct DsaPublicKey {
    pub p: Vec<u8>,
    pub q: Vec<u8>,
    pub g: Vec<u8>,
    pub y: Vec<u8>,
}

/// A DSA key pair; the private value accompanies the public fields.
#[derive(Debug, Clone)]
pub struct DsaKeyPair {
    pub p: Vec<u8>,
    pub q: Vec<u8>,
    pub g: Vec<u8>,
    pub y: Vec<u8>,
    pub x: Vec<u8>,
}

/// An ECDSA public key: curve and encoded point.
#[derive(Debug, Clone)]
pub struct EcDsaPublicKey {
    pub curve: EcCurve,
    pub point: Vec<u8>,
}

/// An ECDSA key pair; the private scalar accompanies the public fields.
#[derive(Debug, Clone)]
pub struct EcDsaKeyPair {
    pub curve: EcCurve,
    pub point: Vec<u8>,
    pub scalar: Vec<u8>,
}

/// An Ed25519 public key: the 32-byte point.
#[derive(Debug, Clone)]
pub struct Ed25519PublicKey {
    pub pk: Vec<u8>,
}

/// An Ed25519 key pair: the 32-byte public point and the 64-byte expanded
/// secret (seed followed by the public point).
#[derive(Debug, Clone)]
pub struct Ed25519KeyPair {
    pub pk: Vec<u8>,
    pub sk: Vec<u8>,
}

/// The closed set of public-key variants.
#[derive(Debug, Clone)]
pub enum PublicKeyType {
    RSA(RsaPublicKey),
    DSA(DsaPublicKey),
    ECDSA(EcDsaPublicKey),
    ED25519(Ed25519PublicKey),
}

/// The closed set of key-pair variants.
#[derive(Debug, Clone)]
pub enum KeyPairType {
    RSA(RsaKeyPair),
    DSA(DsaKeyPair),
    ECDSA(EcDsaKeyPair),
    ED25519(Ed25519KeyPair),
}

/// A public key of some algorithm.
#[derive(Debug, Clone)]
pub struct PublicKey {
    pub key: PublicKeyType,
}

/// A key pair of some algorithm, holding both private and public material.
#[derive(Debug, Clone)]
pub struct KeyPair {
    pub key: KeyPairType,
}

/// The mathematical content of a [`PublicKey`].
#[verifier::ext_equal]
pub enum PublicKeyData {
    Rsa { n: Seq<u8>, e: Seq<u8> },
    Dsa { p: Seq<u8>, q: Seq<u8>, g: Seq<u8>, y: Seq<u8> },
    Ecdsa { curve: EcCurve, point: Seq<u8> },
    Ed25519 { pk: Seq<u8> },
}

/// The mathematical content of a [`KeyPair`].
#[verifier::ext_equal]
pub enum KeyPairData {
    Rsa { n: Seq<u8>, e: Seq<u8>, d: Seq<u8>, iqmp: Seq<u8>, p: Seq<u8>, q: Seq<u8> },
    Dsa { p: Seq<u8>, q: Seq<u8>, g: Seq<u8>, y: Seq<u8>, x: Seq<u8> },
    Ecdsa { curve: EcCurve, point: Seq<u8>, scalar: Seq<u8> },
    Ed25519 { pk: Seq<u8>, sk: Seq<u8> },
}

impl View for PublicKey {
    type V = PublicKeyData;

    open spec fn view(&self) -> PublicKeyData {
        match self.key {
            PublicKeyType::RSA(k) => PublicKeyData::Rsa { n: k.n@, e: k.e@ },
            PublicKeyType::DSA(k) => PublicKeyData::Dsa { p: k.p@, q: k.q@, g: k.g@, y: k.y@ },
            PublicKeyType::ECDSA(k) => PublicKeyData::Ecdsa { curve: k.curve, point: k.point@ },
            PublicKeyType::ED25519(k) => PublicKeyData::Ed25519 { pk: k.pk@ },
        }
    }
}

impl View for KeyPair {
    type V = KeyPairData;

    open spec fn view(&self) -> KeyPairData {
        match self.key {
            KeyPairType::RSA(k) => KeyPairData::Rsa {
                n: k.n@,
                e: k.e@,
                d: k.d@,
                iqmp: k.iqmp@,
                p: k.p@,
                q: k.q@,
            },
            KeyPairType::DSA(k) => KeyPairData::Dsa {
                p: k.p@,
                q: k.q@,
                g: k.g@,
                y: k.y@,
                x: k.x@,
            },
            KeyPairType::ECDSA(k) => KeyPairData::Ecdsa {
                curve: k.curve,
                point: k.point@,
                scalar: k.scalar@,
            },
            KeyPairType::ED25519(k) => KeyPairData::Ed25519 { pk: k.pk@, sk: k.sk@ },
        }
    }
}

/// The public part of a key pair's content.
pub open spec fn public_data_of(k: KeyPairData) -> PublicKeyData {
    match k {
        KeyPairData::Rsa { n, e, .. } => PublicKeyData::Rsa { n, e },
        KeyPairData::Dsa { p, q, g, y, .. } => PublicKeyData::Dsa { p, q, g, y },
        KeyPairData::Ecdsa { curve, point, .. } => PublicKeyData::Ecdsa { curve, point },
        KeyPairData::Ed25519 { pk, .. } => PublicKeyData::Ed25519 { pk },
    }
}

/// Every field of the key pair is short enough for the wire formats.
pub open spec fn kp_fits(k: KeyPairData) -> bool {
    match k {
        KeyPairData::Rsa { n, e, d, iqmp, p, q } => n.len() <= MAX_FIELD_LEN && e.len()
            <= MAX_FIELD_LEN && d.len() <= MAX_FIELD_LEN && iqmp.len() <= MAX_FIELD_LEN && p.len()
            <= MAX_FIELD_LEN && q.len() <= MAX_FIELD_LEN,
        KeyPairData::Dsa { p, q, g, y, x } => p.len() <= MAX_FIELD_LEN && q.len() <= MAX_FIELD_LEN
            && g.len() <= MAX_FIELD_LEN && y.len() <= MAX_FIELD_LEN && x.len() <= MAX_FIELD_LEN,
        KeyPairData::Ecdsa { point, scalar, .. } => point.len() <= MAX_FIELD_LEN && scalar.len()
            <= MAX_FIELD_LEN,
        KeyPairData::Ed25519 { pk, sk } => pk.len() == 32 && sk.len() == 64,
    }
}

/// The corresponding bound on a public key's content.
pub open spec fn pk_fits(k: PublicKeyData) -> bool {
    match k {
        PublicKeyData::Rsa { n, e } => n.len() <= MAX_FIELD_LEN && e.len() <= MAX_FIELD_LEN,
        PublicKeyData::Dsa { p, q, g, y } => p.len() <= MAX_FIELD_LEN && q.len() <= MAX_FIELD_LEN
            && g.len() <= MAX_FIELD_LEN && y.len() <= MAX_FIELD_LEN,
        PublicKeyData::Ecdsa { point, .. } => point.len() <= MAX_FIELD_LEN,
        PublicKeyData::Ed25519 { pk } => pk.len() == 32,
    }
}

/// A fitting key pair has a fitting public part.
pub proof fn lemma_public_of_fits(k: KeyPairData)
    requires
        kp_fits(k),
    ensures
        pk_fits(public_data_of(k)),
{
}

impl KeyPair {
    /// An owned copy of the public half of this key pair.
    pub fn public_key(&self) -> (r: PublicKey)
        ensures
            r@ == public_data_of(self@),
    {
        match &self.key {
            KeyPairType::RSA(k) => PublicKey {
                key: PublicKeyType::RSA(RsaPublicKey { n: k.n.clone(), e: k.e.clone() }),
            },
            KeyPairType::DSA(k) => PublicKey {
                key: PublicKeyType::DSA(
                    DsaPublicKey { p: k.p.clone(), q: k.q.clone(), g: k.g.clone(), y: k.y.clone() },
                ),
            },
            KeyPairType::ECDSA(k) => PublicKey {
                key: PublicKeyType::ECDSA(
                    EcDsaPublicKey { curve: k.curve, point: k.point.clone() },
                ),
            },
            KeyPairType::ED25519(k) => PublicKey {
                key: PublicKeyType::ED25519(Ed25519PublicKey { pk: k.pk.clone() }),
            },
        }
    }
}

impl PartialEq for PublicKey {
    /// Two public keys are equal when their algorithm variants and all
    /// field contents coincide.
    fn eq(&self, other: &Self) -> (r: bool) {
        match (&self.key, &other.key) {
            (PublicKeyType::RSA(a), PublicKeyType::RSA(b)) => bytes_eq(a.n.as_slice(), b.n.as_slice())
                && bytes_eq(a.e.as_slice(), b.e.as_slice()),
            (PublicKeyType::DSA(a), PublicKeyType::DSA(b)) => bytes_eq(a.p.as_slice(), b.p.as_slice())
                && bytes_eq(a.q.as_slice(), b.q.as_slice())
                && bytes_eq(a.g.as_slice(), b.g.as_slice())
                && bytes_eq(a.y.as_slice(), b.y.as_slice()),
            (PublicKeyType::ECDSA(a), PublicKeyType::ECDSA(b)) => a.curve == b.curve && bytes_eq(
                a.point.as_slice(),
                b.point.as_slice(),
            ),
            (PublicKeyType::ED25519(a), PublicKeyType::ED25519(b)) => bytes_eq(
                a.pk.as_slice(),
                b.pk.as_slice(),
            ),
            _ => false,
        }
    }
}

impl vstd::std_specs::cmp::PartialEqSpecImpl for PublicKey {
    open spec fn obeys_eq_spec() -> bool {
        true
    }

    open spec fn eq_spec(&self, other: &Self) -> bool {
        self@ == other@
    }
}

impl Eq for PublicKey {

}

impl PartialEq for KeyPair {
    /// Two key pairs are equal when their algorithm variants and all field
    /// contents, private and public, coincide.
    fn eq(&self, other: &Self) -> (r: bool) {
        match (&self.key, &other.key) {
            (KeyPairType::RSA(a), KeyPairType::RSA(b)) => bytes_eq(a.n.as_slice(), b.n.as_slice())
                && bytes_eq(a.e.as_slice(), b.e.as_slice())
                && bytes_eq(a.d.as_slice(), b.d.as_slice())
                && bytes_eq(a.iqmp.as_slice(), b.iqmp.as_slice())
                && bytes_eq(a.p.as_slice(), b.p.as_slice())
                && bytes_eq(a.q.as_slice(), b.q.as_slice()),
            (KeyPairType::DSA(a), KeyPairType::DSA(b)) => bytes_eq(a.p.as_slice(), b.p.as_slice())
                && bytes_eq(a.q.as_slice(), b.q.as_slice())
                && bytes_eq(a.g.as_slice(), b.g.as_slice())
                && bytes_eq(a.y.as_slice(), b.y.as_slice())
                && bytes_eq(a.x.as_slice(), b.x.as_slice()),
            (KeyPairType::ECDSA(a), KeyPairType::ECDSA(b)) => a.curve == b.curve && bytes_eq(
                a.point.as_slice(),
                b.point.as_slice(),
            ) && bytes_eq(a.scalar.as_slice(), b.scalar.as_slice()),
            (KeyPairType::ED25519(a), KeyPairType::ED25519(b)) => bytes_eq(
                a.pk.as_slice(),
                b.pk.as_slice(),
            ) && bytes_eq(a.sk.as_slice(), b.sk.as_slice()),
            _ => false,
        }
    }
}

impl vstd::std_specs::cmp::PartialEqSpecImpl for KeyPair {
    open spec fn obeys_eq_spec() -> bool {
        true
    }

    open spec fn eq_spec(&self, other: &Self) -> bool {
        self@ == other@
    }
}

impl Eq for KeyPair {

}

} // verus!
