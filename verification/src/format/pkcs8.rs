//! The PKCS#8 writer: serialization of a private key into PKCS#8 PEM
//! armor, delegated to the OpenSSL provider.

use vstd::prelude::*;
use crate::error::{Error, ErrorKind};
use crate::format::pem::{
    bn_canon, kp_canonical, opt_bytes_view, ossl_curve_nid, ossl_ed25519_to_pkcs8, reparses_to,
    starts_with_armor,
};
use crate::keys::{DsaKeyPair, EcDsaKeyPair, KeyPair, KeyPairData, KeyPairType, RsaKeyPair};
use openssl::bn::{BigNum, BigNumContext};
use openssl::dsa::Dsa;
use openssl::ec::{EcGroup, EcKey, EcPoint};
use openssl::error::ErrorStack;
use openssl::pkey::PKey;
use openssl::rsa::Rsa;

verus! {

/// The PKCS#8 armor the provider writes for the RSA components without a
/// passphrase, if the key object can be built and written.
pub uninterp spec fn rsa_pkcs8_of(n: Seq<u8>, e: Seq<u8>, d: Seq<u8>, iqmp: Seq<u8>, p: Seq<u8>, q: Seq<u8>, dmp1: Seq<u8>, dmq1: Seq<u8>) -> Option<Seq<u8>>;

/// The PKCS#8 armor the provider writes for the DSA components without a
/// passphrase.
pub uninterp spec fn dsa_pkcs8_of(p: Seq<u8>, q: Seq<u8>, g: Seq<u8>, y: Seq<u8>, x: Seq<u8>) -> Option<Seq<u8>>;

/// The PKCS#8 armor the provider writes for an EC key without a
/// passphrase.
pub uninterp spec fn ec_pkcs8_of(curve: crate::keys::EcCurve, point: Seq<u8>, scalar: Seq<u8>) -> Option<Seq<u8>>;

/// The armor tag PKCS#8 output owes: "PRIVATE KEY" plain, "ENCRYPTED
/// PRIVATE KEY" under a passphrase.
pub open spec fn pkcs8_tag_ok(encrypted: bool, v: Seq<u8>) -> bool {
    if encrypted {
        starts_with_armor(v, crate::format::encrypted_pkcs8_tag())
    } else {
        starts_with_armor(v, crate::format::private_key_words())
    }
}

/// Relies on openssl's PKCS#8 writer after building the RSA object from
/// the full component set: without a passphrase the armor is a function
/// of the components; with one the provider salts the fixed default
/// cipher. Either way the tag is PKCS#8 and canonical components read
/// back exactly.
#[verifier::external_body]
fn ossl_rsa_to_pkcs8(k: &RsaKeyPair, dmp1: &[u8], dmq1: &[u8], pass: Option<&[u8]>) -> (r: Result<
    Vec<u8>,
    (),
>)
    ensures
        match r {
            Ok(v) => (pass is None ==> rsa_pkcs8_of(
                k.n@,
                k.e@,
                k.d@,
                k.iqmp@,
                k.p@,
                k.q@,
                dmp1@,
                dmq1@,
            ) == Some(v@)) && pkcs8_tag_ok(pass is Some, v@) && ((bn_canon(k.n@) && bn_canon(k.e@)
                && bn_canon(k.d@) && bn_canon(k.iqmp@) && bn_canon(k.p@) && bn_canon(k.q@))
                ==> reparses_to(
                KeyPairData::Rsa { n: k.n@, e: k.e@, d: k.d@, iqmp: k.iqmp@, p: k.p@, q: k.q@ },
                opt_bytes_view(pass),
                v@,
            )),
            Err(_) => pass is None ==> rsa_pkcs8_of(
                k.n@,
                k.e@,
                k.d@,
                k.iqmp@,
                k.p@,
                k.q@,
                dmp1@,
                dmq1@,
            ) is None,
        },
{
    let key = (|| -> Result<_, ErrorStack> {
        PKey::from_rsa(Rsa::from_private_components(
            BigNum::from_slice(&k.n)?, BigNum::from_slice(&k.e)?,
            BigNum::from_slice(&k.d)?, BigNum::from_slice(&k.p)?,
            BigNum::from_slice(&k.q)?, BigNum::from_slice(dmp1)?,
            BigNum::from_slice(dmq1)?, BigNum::from_slice(&k.iqmp)?,
        )?)
    })().map_err(|_| ())?;
    match pass {
        Some(pw) => key.private_key_to_pem_pkcs8_passphrase(openssl::symm::Cipher::aes_128_cbc(), pw),
        None => key.private_key_to_pem_pkcs8(),
    }.map_err(|_| ())
}

/// Relies on openssl's PKCS#8 writer over a DSA key, as for RSA;
/// canonical components read back exactly.
#[verifier::external_body]
fn ossl_dsa_to_pkcs8(k: &DsaKeyPair, pass: Option<&[u8]>) -> (r: Result<Vec<u8>, ()>)
    ensures
        match r {
            Ok(v) => (pass is None ==> dsa_pkcs8_of(k.p@, k.q@, k.g@, k.y@, k.x@) == Some(v@)) && pkcs8_tag_ok(pass is Some, v@)
                && ((bn_canon(k.p@) && bn_canon(k.q@) && bn_canon(k.g@) && bn_canon(k.y@) && bn_canon(k.x@)) ==> reparses_to(
                KeyPairData::Dsa { p: k.p@, q: k.q@, g: k.g@, y: k.y@, x: k.x@ },
                opt_bytes_view(pass),
                v@,
            )),
            Err(_) => pass is None ==> dsa_pkcs8_of(k.p@, k.q@, k.g@, k.y@, k.x@) is None,
        },
{
    let key = (|| -> Result<_, ErrorStack> {
        PKey::from_dsa(Dsa::from_private_components(
            BigNum::from_slice(&k.p)?,
            BigNum::from_slice(&k.q)?,
            BigNum::from_slice(&k.g)?,
            BigNum::from_slice(&k.x)?,
            BigNum::from_slice(&k.y)?,
        )?)
    })().map_err(|_| ())?;
    match pass {
        Some(pw) => key.private_key_to_pem_pkcs8_passphrase(openssl::symm::Cipher::aes_128_cbc(), pw),
        None => key.private_key_to_pem_pkcs8(),
    }.map_err(|_| ())
}

/// Relies on openssl's PKCS#8 writer over an EC key, as for RSA; the
/// point is validated against the curve when the key object is built, and
/// a canonical key reads back exactly.
#[verifier::external_body]
fn ossl_ec_to_pkcs8(k: &EcDsaKeyPair, pass: Option<&[u8]>) -> (r: Result<Vec<u8>, ()>)
    ensures
        match r {
            Ok(v) => (pass is None ==> ec_pkcs8_of(k.curve, k.point@, k.scalar@) == Some(v@)) && pkcs8_tag_ok(pass is Some, v@)
                && ((k.point@.len() > 0 && k.point@[0] == 4 && bn_canon(k.scalar@)) ==> reparses_to(
                KeyPairData::Ecdsa { curve: k.curve, point: k.point@, scalar: k.scalar@ },
                opt_bytes_view(pass),
                v@,
            )),
            Err(_) => pass is None ==> ec_pkcs8_of(k.curve, k.point@, k.scalar@) is None,
        },
{
    let key = (|| -> Result<_, ErrorStack> {
        let group = EcGroup::from_curve_name(ossl_curve_nid(k.curve))?;
        let mut ctx = BigNumContext::new()?;
        let point = EcPoint::from_bytes(&group, &k.point, &mut ctx)?;
        let scalar = BigNum::from_slice(&k.scalar)?;
        PKey::from_ec_key(EcKey::from_private_components(&group, &scalar, &point)?)
    })().map_err(|_| ())?;
    match pass {
        Some(pw) => key.private_key_to_pem_pkcs8_passphrase(openssl::symm::Cipher::aes_128_cbc(), pw),
        None => key.private_key_to_pem_pkcs8(),
    }.map_err(|_| ())
}

/// The PKCS#8 armor this library writes for a key when no passphrase is
/// given, if the provider can build and write it.
pub open spec fn pkcs8_pem_of(k: KeyPairData) -> Option<Seq<u8>> {
    match k {
        KeyPairData::Rsa { n, e, d, iqmp, p, q } => match crate::format::pem::rsa_crt_of(d, p, q) {
            None => None,
            Some((dmp1, dmq1)) => rsa_pkcs8_of(n, e, d, iqmp, p, q, dmp1, dmq1),
        },
        KeyPairData::Dsa { p, q, g, y, x } => dsa_pkcs8_of(p, q, g, y, x),
        KeyPairData::Ecdsa { curve, point, scalar } => ec_pkcs8_of(curve, point, scalar),
        KeyPairData::Ed25519 { sk, .. } => if sk.len() >= 32 {
            crate::format::pem::ed25519_pkcs8_of(sk.subrange(0, 32))
        } else {
            None
        },
    }
}

/// Write a private key as PKCS#8 PEM through the cryptography provider:
/// the tag is "PRIVATE KEY", or "ENCRYPTED PRIVATE KEY" under the
/// provider's fixed default cipher (AES-128-CBC) when a passphrase is
/// given. Without a passphrase the armor is the named function of the
/// key; either way the emitted armor re-parses, under the same
/// passphrase, to the key it was written from (for canonical fields, and
/// up to the recomputed RSA CRT coefficient and re-derived Ed25519 public
/// half).
pub fn stringify_pkcs8_privkey(kp: &KeyPair, passphrase: Option<&[u8]>) -> (r: Result<
    Vec<u8>,
    Error,
>)
    ensures
        match r {
            Ok(v) => pkcs8_tag_ok(passphrase is Some, v@) && (kp_canonical(kp@) ==> reparses_to(
                kp@,
                opt_bytes_view(passphrase),
                v@,
            )) && (passphrase is None ==> pkcs8_pem_of(kp@) == Some(v@)),
            Err(e) => (e.kind == ErrorKind::InvalidKey || e.kind == ErrorKind::OpenSslError) && (
            e.kind == ErrorKind::InvalidKey <==> (kp@ matches KeyPairData::Ed25519 { sk, .. }
                && sk.len() < 32)) && (passphrase is None && e.kind == ErrorKind::OpenSslError
                ==> pkcs8_pem_of(kp@) is None),
        },
{
    let out = match &kp.key {
        KeyPairType::RSA(k) => {
            match crate::format::pem::ossl_rsa_crt(
                k.d.as_slice(),
                k.p.as_slice(),
                k.q.as_slice(),
            ) {
                Ok(crt) => ossl_rsa_to_pkcs8(k, crt.0.as_slice(), crt.1.as_slice(), passphrase),
                Err(_) => Err(()),
            }
        },
        KeyPairType::DSA(k) => ossl_dsa_to_pkcs8(k, passphrase),
        KeyPairType::ECDSA(k) => ossl_ec_to_pkcs8(k, passphrase),
        KeyPairType::ED25519(k) => {
            if k.sk.len() < 32 {
                return Err(Error::from_kind(ErrorKind::InvalidKey));
            }
            ossl_ed25519_to_pkcs8(
                vstd::slice::slice_subrange(k.sk.as_slice(), 0, 32),
                passphrase,
            )
        },
    };
    match out {
        Ok(v) => Ok(v),
        Err(_) => Err(Error::from_kind(ErrorKind::OpenSslError)),
    }
}

} // verus!
