//! The PEM adapter: translation between PEM-armored PKCS#1/SEC1/PKCS#8
//! bodies and the key model, delegated to the OpenSSL provider.
//!
//! The ASN.1 work happens inside the provider; each call goes through a
//! small trusted wrapper. The parses are deterministic, so their results
//! are named as functions of the armor bytes; the key-type dispatch and
//! the size checks around them are verified. The writers promise their
//! armor tag and that the provider's own reader returns the key they were
//! given (under the same passphrase, for canonical fields); without a
//! passphrase their output is also a named function of the key, while a
//! passphrase brings a fresh salt, so nothing more holds of those bytes.

use vstd::prelude::*;
use crate::error::{Error, ErrorKind};
use crate::keys::{
    kp_fits, pk_fits, DsaKeyPair, DsaPublicKey, EcCurve, EcDsaKeyPair, EcDsaPublicKey,
    Ed25519KeyPair, Ed25519PublicKey, KeyPair, KeyPairData, KeyPairType, KeyType, PublicKey,
    PublicKeyData, PublicKeyType, RsaKeyPair, RsaPublicKey, MAX_FIELD_LEN,
};
use crate::format::ossh_privkey::pass_view;
use openssl::bn::{BigNum, BigNumContext};
use openssl::dsa::Dsa;
use openssl::ec::{EcGroup, EcKey, EcPoint, PointConversionForm};
use openssl::error::ErrorStack;
use openssl::nid::Nid;
use openssl::pkey::{Id, PKey};
use openssl::rsa::Rsa;

verus! {

/// The provider's numeric object identifier type, opaque to this library.
#[verifier::external_type_specification]
#[verifier::external_body]
pub struct ExNid(Nid);

/// The view of an optional byte-string argument.
pub open spec fn opt_bytes_view(pass: Option<&[u8]>) -> Option<Seq<u8>> {
    match pass {
        Some(pw) => Some(pw@),
        None => None,
    }
}

/// The word "PUBLIC KEY" of the public armor tags.
pub open spec fn pub_key_words() -> Seq<u8> {
    seq![80u8, 85, 66, 76, 73, 67, 32, 75, 69, 89]
}

/// The PKCS#1 armor tag "RSA PUBLIC KEY".
pub open spec fn rsa_public_tag() -> Seq<u8> {
    seq![82u8, 83, 65, 32] + pub_key_words()
}

/// The first armor line a given tag opens with: five dashes, "BEGIN ",
/// the tag and five dashes.
pub open spec fn armor_header(tag: Seq<u8>) -> Seq<u8> {
    seq![45u8, 45, 45, 45, 45, 66, 69, 71, 73, 78, 32] + tag + seq![45u8, 45, 45, 45, 45]
}

/// Whether the armor opens with the given tag's header line.
pub open spec fn starts_with_armor(v: Seq<u8>, tag: Seq<u8>) -> bool {
    v.len() >= armor_header(tag).len() && v.subrange(0, armor_header(tag).len() as int)
        == armor_header(tag)
}

/// A big-endian integer in the provider's canonical form: non-empty with
/// no leading zero byte. The provider strips leading zeros on write, so
/// only canonical fields read back bit-identically.
pub open spec fn bn_canon(s: Seq<u8>) -> bool {
    s.len() > 0 && s[0] != 0
}

/// Whether a key pair's fields are in the provider's canonical form.
pub open spec fn kp_canonical(k: KeyPairData) -> bool {
    match k {
        KeyPairData::Rsa { n, e, d, iqmp, p, q } => bn_canon(n) && bn_canon(e) && bn_canon(d)
            && bn_canon(iqmp) && bn_canon(p) && bn_canon(q),
        KeyPairData::Dsa { p, q, g, y, x } => bn_canon(p) && bn_canon(q) && bn_canon(g) && bn_canon(
            y,
        ) && bn_canon(x),
        KeyPairData::Ecdsa { point, scalar, .. } => point.len() > 0 && point[0] == 4 && bn_canon(
            scalar,
        ),
        KeyPairData::Ed25519 { .. } => true,
    }
}

/// The algorithm of the private key that the given armor and passphrase
/// parse to, or the kind of the parse failure.
pub uninterp spec fn pem_keytype_of(pem: Seq<u8>, pass: Option<Seq<u8>>) -> Result<
    KeyType,
    ErrorKind,
>;

/// The RSA private key the armor parses to, if it holds one.
pub uninterp spec fn pem_rsa_of(pem: Seq<u8>, pass: Option<Seq<u8>>) -> Option<KeyPairData>;

/// The DSA private key the armor parses to, if it holds one.
pub uninterp spec fn pem_dsa_of(pem: Seq<u8>, pass: Option<Seq<u8>>) -> Option<KeyPairData>;

/// The ECDSA private key the armor parses to, if it holds one.
pub uninterp spec fn pem_ecdsa_of(pem: Seq<u8>, pass: Option<Seq<u8>>) -> Option<KeyPairData>;

/// The Ed25519 private key the armor parses to, if it holds one.
pub uninterp spec fn pem_ed25519_of(pem: Seq<u8>, pass: Option<Seq<u8>>) -> Option<KeyPairData>;

/// The algorithm of the public key the given armor parses to, or the
/// kind of the parse failure.
pub uninterp spec fn pem_pubtype_of(pem: Seq<u8>) -> Result<KeyType, ErrorKind>;

/// The RSA public key the armor parses to, if it holds one.
pub uninterp spec fn pem_rsa_pub_of(pem: Seq<u8>) -> Option<PublicKeyData>;

/// The DSA public key the armor parses to, if it holds one.
pub uninterp spec fn pem_dsa_pub_of(pem: Seq<u8>) -> Option<PublicKeyData>;

/// The ECDSA public key the armor parses to, if it holds one.
pub uninterp spec fn pem_ecdsa_pub_of(pem: Seq<u8>) -> Option<PublicKeyData>;

/// The Ed25519 public key the armor parses to, if it holds one.
pub uninterp spec fn pem_ed25519_pub_of(pem: Seq<u8>) -> Option<PublicKeyData>;

/// Relies on openssl PKey::private_key_from_pem[_passphrase] and
/// PKey::id: whether and to which algorithm the armor parses depends on
/// the bytes and the passphrase alone.
#[verifier::external_body]
fn ossl_pem_keytype(pem: &[u8], pass: Option<&[u8]>) -> (r: Result<KeyType, Error>)
    ensures
        match r {
            Ok(t) => pem_keytype_of(pem@, opt_bytes_view(pass)) == Ok::<KeyType, ErrorKind>(t),
            Err(e) => pem_keytype_of(pem@, opt_bytes_view(pass)) == Err::<KeyType, ErrorKind>(
                e.kind,
            ) && (pass is Some ==> e.kind == ErrorKind::IncorrectPass || e.kind
                == ErrorKind::UnsupportType) && (pass is None ==> e.kind
                == ErrorKind::OpenSslError || e.kind == ErrorKind::UnsupportType),
        },
{
    let pkey = match pass {
        Some(pw) => PKey::private_key_from_pem_passphrase(pem, pw)
            .map_err(|_| Error::from_kind(ErrorKind::IncorrectPass))?,
        None => PKey::private_key_from_pem(pem)
            .map_err(|_| Error::from_kind(ErrorKind::OpenSslError))?,
    };
    match pkey.id() {
        Id::RSA => Ok(KeyType::RSA),
        Id::DSA => Ok(KeyType::DSA),
        Id::EC => Ok(KeyType::ECDSA),
        Id::ED25519 => Ok(KeyType::ED25519),
        _ => Err(Error::from_kind(ErrorKind::UnsupportType)),
    }
}

/// Relies on openssl Rsa accessors after the PEM parse: the fields are a
/// function of the armor and the passphrase alone.
#[verifier::external_body]
fn ossl_rsa_from_pem(pem: &[u8], pass: Option<&[u8]>) -> (r: Result<RsaKeyPair, ()>)
    ensures
        match r {
            Ok(k) => pem_rsa_of(pem@, opt_bytes_view(pass)) == Some(
                KeyPairData::Rsa { n: k.n@, e: k.e@, d: k.d@, iqmp: k.iqmp@, p: k.p@, q: k.q@ },
            ),
            Err(_) => pem_rsa_of(pem@, opt_bytes_view(pass)) is None,
        },
{
    let pk = match pass {
        Some(pw) => PKey::private_key_from_pem_passphrase(pem, pw).map_err(|_| ())?,
        None => PKey::private_key_from_pem(pem).map_err(|_| ())?,
    };
    let k = pk.rsa().map_err(|_| ())?;
    Ok(RsaKeyPair {
        n: k.n().to_vec(),
        e: k.e().to_vec(),
        d: k.d().to_vec(),
        iqmp: k.iqmp().map(|v| v.to_vec()).unwrap_or_default(),
        p: k.p().map(|v| v.to_vec()).unwrap_or_default(),
        q: k.q().map(|v| v.to_vec()).unwrap_or_default(),
    })
}

/// Relies on openssl Dsa accessors after the PEM parse: the fields are a
/// function of the armor and the passphrase alone.
#[verifier::external_body]
fn ossl_dsa_from_pem(pem: &[u8], pass: Option<&[u8]>) -> (r: Result<DsaKeyPair, ()>)
    ensures
        match r {
            Ok(k) => pem_dsa_of(pem@, opt_bytes_view(pass)) == Some(
                KeyPairData::Dsa { p: k.p@, q: k.q@, g: k.g@, y: k.y@, x: k.x@ },
            ),
            Err(_) => pem_dsa_of(pem@, opt_bytes_view(pass)) is None,
        },
{
    let pk = match pass {
        Some(pw) => PKey::private_key_from_pem_passphrase(pem, pw).map_err(|_| ())?,
        None => PKey::private_key_from_pem(pem).map_err(|_| ())?,
    };
    let k = pk.dsa().map_err(|_| ())?;
    Ok(DsaKeyPair {
        p: k.p().to_vec(),
        q: k.q().to_vec(),
        g: k.g().to_vec(),
        y: k.pub_key().to_vec(),
        x: k.priv_key().to_vec(),
    })
}

/// Relies on openssl EcKey accessors after the PEM parse: the curve, the
/// uncompressed point and the scalar are functions of the armor and the
/// passphrase alone.
#[verifier::external_body]
fn ossl_ec_from_pem(pem: &[u8], pass: Option<&[u8]>) -> (r: Result<EcDsaKeyPair, ()>)
    ensures
        match r {
            Ok(k) => pem_ecdsa_of(pem@, opt_bytes_view(pass)) == Some(
                KeyPairData::Ecdsa { curve: k.curve, point: k.point@, scalar: k.scalar@ },
            ),
            Err(_) => pem_ecdsa_of(pem@, opt_bytes_view(pass)) is None,
        },
{
    let pk = match pass {
        Some(pw) => PKey::private_key_from_pem_passphrase(pem, pw).map_err(|_| ())?,
        None => PKey::private_key_from_pem(pem).map_err(|_| ())?,
    };
    let k = pk.ec_key().map_err(|_| ())?;
    let curve = ossl_curve_of_nid(k.group().curve_name()).ok_or(())?;
    let mut ctx = BigNumContext::new().map_err(|_| ())?;
    let form = PointConversionForm::UNCOMPRESSED;
    let point = k.public_key().to_bytes(k.group(), form, &mut ctx).map_err(|_| ())?;
    Ok(EcDsaKeyPair { curve, point, scalar: k.private_key().to_vec() })
}

/// Relies on openssl PKey::raw_private_key and raw_public_key after the
/// PEM parse: the 32-byte halves are functions of the armor and the
/// passphrase alone.
#[verifier::external_body]
fn ossl_ed25519_from_pem(pem: &[u8], pass: Option<&[u8]>) -> (r: Result<Ed25519KeyPair, ()>)
    ensures
        match r {
            Ok(k) => k.pk@.len() == 32 && k.sk@.len() == 64 && pem_ed25519_of(
                pem@,
                opt_bytes_view(pass),
            ) == Some(KeyPairData::Ed25519 { pk: k.pk@, sk: k.sk@ }),
            Err(_) => pem_ed25519_of(pem@, opt_bytes_view(pass)) is None,
        },
{
    let pkey = match pass {
        Some(pw) => PKey::private_key_from_pem_passphrase(pem, pw).map_err(|_| ())?,
        None => PKey::private_key_from_pem(pem).map_err(|_| ())?,
    };
    let mut sk = pkey.raw_private_key().map_err(|_| ())?;
    let pk = pkey.raw_public_key().map_err(|_| ())?;
    if sk.len() != 32 || pk.len() != 32 {
        return Err(());
    }
    sk.extend_from_slice(&pk);
    Ok(Ed25519KeyPair { pk, sk })
}

/// What parsing a PEM-armored private key yields: the key of whatever
/// algorithm the armor holds, cut to the library's field-size bound.
pub open spec fn pem_privkey_result(pem: Seq<u8>, pass: Option<Seq<u8>>) -> Result<
    KeyPairData,
    ErrorKind,
> {
    match pem_keytype_of(pem, pass) {
        Err(k) => Err(k),
        Ok(t) => {
            let field = match t {
                KeyType::RSA => pem_rsa_of(pem, pass),
                KeyType::DSA => pem_dsa_of(pem, pass),
                KeyType::ECDSA => pem_ecdsa_of(pem, pass),
                KeyType::ED25519 => pem_ed25519_of(pem, pass),
            };
            match field {
                None => Err(ErrorKind::OpenSslError),
                Some(k) => {
                    if kp_fits(k) {
                        Ok(k)
                    } else {
                        Err(ErrorKind::InvalidKeySize)
                    }
                },
            }
        },
    }
}

/// Parse a PEM-armored private key (PKCS#1, SEC1 or PKCS#8) through the
/// cryptography provider.
pub fn parse_pem_privkey(pem: &[u8], passphrase: Option<&str>) -> (r: Result<KeyPair, Error>)
    ensures
        match r {
            Ok(kp) => pem_privkey_result(pem@, pass_view(passphrase)) == Ok::<
                KeyPairData,
                ErrorKind,
            >(kp@) && kp_fits(kp@),
            Err(e) => pem_privkey_result(pem@, pass_view(passphrase)) == Err::<
                KeyPairData,
                ErrorKind,
            >(e.kind),
        },
{
    let pass: Option<&[u8]> = match passphrase {
        Some(s) => Some(s.as_bytes()),
        None => None,
    };
    proof {
        assert(opt_bytes_view(pass) == pass_view(passphrase));
    }
    let kt = match ossl_pem_keytype(pem, pass) {
        Ok(t) => t,
        Err(e) => {
            return Err(e);
        },
    };
    match kt {
        KeyType::RSA => {
            let k = match ossl_rsa_from_pem(pem, pass) {
                Ok(k) => k,
                Err(_) => {
                    return Err(Error::from_kind(ErrorKind::OpenSslError));
                },
            };
            if k.n.len() > MAX_FIELD_LEN || k.e.len() > MAX_FIELD_LEN || k.d.len() > MAX_FIELD_LEN
                || k.iqmp.len() > MAX_FIELD_LEN || k.p.len() > MAX_FIELD_LEN || k.q.len()
                > MAX_FIELD_LEN {
                return Err(Error::from_kind(ErrorKind::InvalidKeySize));
            }
            Ok(KeyPair { key: KeyPairType::RSA(k) })
        },
        KeyType::DSA => {
            let k = match ossl_dsa_from_pem(pem, pass) {
                Ok(k) => k,
                Err(_) => {
                    return Err(Error::from_kind(ErrorKind::OpenSslError));
                },
            };
            if k.p.len() > MAX_FIELD_LEN || k.q.len() > MAX_FIELD_LEN || k.g.len() > MAX_FIELD_LEN
                || k.y.len() > MAX_FIELD_LEN || k.x.len() > MAX_FIELD_LEN {
                return Err(Error::from_kind(ErrorKind::InvalidKeySize));
            }
            Ok(KeyPair { key: KeyPairType::DSA(k) })
        },
        KeyType::ECDSA => {
            let k = match ossl_ec_from_pem(pem, pass) {
                Ok(k) => k,
                Err(_) => {
                    return Err(Error::from_kind(ErrorKind::OpenSslError));
                },
            };
            if k.point.len() > MAX_FIELD_LEN || k.scalar.len() > MAX_FIELD_LEN {
                return Err(Error::from_kind(ErrorKind::InvalidKeySize));
            }
            Ok(KeyPair { key: KeyPairType::ECDSA(k) })
        },
        KeyType::ED25519 => {
            let k = match ossl_ed25519_from_pem(pem, pass) {
                Ok(k) => k,
                Err(_) => {
                    return Err(Error::from_kind(ErrorKind::OpenSslError));
                },
            };
            Ok(KeyPair { key: KeyPairType::ED25519(k) })
        },
    }
}

/// Relies on openssl Rsa::public_key_from_pem_pkcs1, PKey::public_key_from_pem
/// and PKey::id: whether and to which algorithm the armor parses depends
/// on the bytes alone.
#[verifier::external_body]
fn ossl_pem_pubtype(pem: &[u8]) -> (r: Result<KeyType, Error>)
    ensures
        match r {
            Ok(t) => pem_pubtype_of(pem@) == Ok::<KeyType, ErrorKind>(t) && (starts_with_armor(
                pem@,
                rsa_public_tag(),
            ) ==> t == KeyType::RSA),
            Err(e) => pem_pubtype_of(pem@) == Err::<KeyType, ErrorKind>(e.kind)
                && !starts_with_armor(pem@, rsa_public_tag()),
        },
{
    if pem.starts_with(b"-----BEGIN RSA PUBLIC KEY-----") {
        return Ok(KeyType::RSA);
    }
    let pkey = PKey::public_key_from_pem(pem)
        .map_err(|_| Error::from_kind(ErrorKind::OpenSslError))?;
    match pkey.id() {
        Id::RSA => Ok(KeyType::RSA),
        Id::DSA => Ok(KeyType::DSA),
        Id::EC => Ok(KeyType::ECDSA),
        Id::ED25519 => Ok(KeyType::ED25519),
        _ => Err(Error::from_kind(ErrorKind::UnsupportType)),
    }
}

/// Relies on openssl's RSA public key readers (PKCS#1 or
/// SubjectPublicKeyInfo armor): the fields are a function of the bytes
/// alone.
#[verifier::external_body]
fn ossl_rsa_pub_from_pem(pem: &[u8]) -> (r: Result<RsaPublicKey, ()>)
    ensures
        match r {
            Ok(k) => pem_rsa_pub_of(pem@) == Some(PublicKeyData::Rsa { n: k.n@, e: k.e@ }),
            Err(_) => pem_rsa_pub_of(pem@) is None,
        },
{
    let k = if pem.starts_with(b"-----BEGIN RSA PUBLIC KEY-----") {
        Rsa::public_key_from_pem_pkcs1(pem).map_err(|_| ())?
    } else {
        PKey::public_key_from_pem(pem).map_err(|_| ())?.rsa().map_err(|_| ())?
    };
    Ok(RsaPublicKey { n: k.n().to_vec(), e: k.e().to_vec() })
}

/// Relies on openssl Dsa accessors after the public PEM parse: the fields
/// are a function of the bytes alone.
#[verifier::external_body]
fn ossl_dsa_pub_from_pem(pem: &[u8]) -> (r: Result<DsaPublicKey, ()>)
    ensures
        match r {
            Ok(k) => pem_dsa_pub_of(pem@) == Some(
                PublicKeyData::Dsa { p: k.p@, q: k.q@, g: k.g@, y: k.y@ },
            ),
            Err(_) => pem_dsa_pub_of(pem@) is None,
        },
{
    let k = PKey::public_key_from_pem(pem).map_err(|_| ())?.dsa().map_err(|_| ())?;
    Ok(DsaPublicKey {
        p: k.p().to_vec(),
        q: k.q().to_vec(),
        g: k.g().to_vec(),
        y: k.pub_key().to_vec(),
    })
}

/// Relies on openssl EcKey accessors after the public PEM parse: the
/// curve and the uncompressed point are functions of the bytes alone.
#[verifier::external_body]
fn ossl_ec_pub_from_pem(pem: &[u8]) -> (r: Result<EcDsaPublicKey, ()>)
    ensures
        match r {
            Ok(k) => pem_ecdsa_pub_of(pem@) == Some(
                PublicKeyData::Ecdsa { curve: k.curve, point: k.point@ },
            ),
            Err(_) => pem_ecdsa_pub_of(pem@) is None,
        },
{
    let k = PKey::public_key_from_pem(pem).map_err(|_| ())?.ec_key().map_err(|_| ())?;
    let curve = ossl_curve_of_nid(k.group().curve_name()).ok_or(())?;
    let mut ctx = BigNumContext::new().map_err(|_| ())?;
    let form = PointConversionForm::UNCOMPRESSED;
    let point = k.public_key().to_bytes(k.group(), form, &mut ctx).map_err(|_| ())?;
    Ok(EcDsaPublicKey { curve, point })
}

/// Relies on openssl PKey::raw_public_key after the public PEM parse: the
/// 32 bytes are a function of the bytes alone.
#[verifier::external_body]
fn ossl_ed25519_pub_from_pem(pem: &[u8]) -> (r: Result<Ed25519PublicKey, ()>)
    ensures
        match r {
            Ok(k) => k.pk@.len() == 32 && pem_ed25519_pub_of(pem@) == Some(
                PublicKeyData::Ed25519 { pk: k.pk@ },
            ),
            Err(_) => pem_ed25519_pub_of(pem@) is None,
        },
{
    let pkey = PKey::public_key_from_pem(pem).map_err(|_| ())?;
    let pk = pkey.raw_public_key().map_err(|_| ())?;
    if pk.len() != 32 {
        return Err(());
    }
    Ok(Ed25519PublicKey { pk })
}

/// What parsing a PEM-armored public key yields: the key of whatever
/// algorithm the armor holds, cut to the library's field-size bound.
pub open spec fn pem_pubkey_result(pem: Seq<u8>) -> Result<PublicKeyData, ErrorKind> {
    match pem_pubtype_of(pem) {
        Err(k) => Err(k),
        Ok(t) => {
            let field = match t {
                KeyType::RSA => pem_rsa_pub_of(pem),
                KeyType::DSA => pem_dsa_pub_of(pem),
                KeyType::ECDSA => pem_ecdsa_pub_of(pem),
                KeyType::ED25519 => pem_ed25519_pub_of(pem),
            };
            match field {
                None => Err(ErrorKind::OpenSslError),
                Some(k) => {
                    if pk_fits(k) {
                        Ok(k)
                    } else {
                        Err(ErrorKind::InvalidKeySize)
                    }
                },
            }
        },
    }
}

/// Parse a PEM-armored public key, distinguishing PKCS#1 RSA armor from
/// generic SubjectPublicKeyInfo armor.
pub fn parse_pem_pubkey(pem: &[u8]) -> (r: Result<PublicKey, Error>)
    ensures
        match r {
            Ok(pk) => pem_pubkey_result(pem@) == Ok::<PublicKeyData, ErrorKind>(pk@) && pk_fits(
                pk@,
            ),
            Err(e) => pem_pubkey_result(pem@) == Err::<PublicKeyData, ErrorKind>(e.kind),
        },
{
    let kt = match ossl_pem_pubtype(pem) {
        Ok(t) => t,
        Err(e) => {
            return Err(e);
        },
    };
    match kt {
        KeyType::RSA => {
            let k = match ossl_rsa_pub_from_pem(pem) {
                Ok(k) => k,
                Err(_) => {
                    return Err(Error::from_kind(ErrorKind::OpenSslError));
                },
            };
            if k.n.len() > MAX_FIELD_LEN || k.e.len() > MAX_FIELD_LEN {
                return Err(Error::from_kind(ErrorKind::InvalidKeySize));
            }
            Ok(PublicKey { key: PublicKeyType::RSA(k) })
        },
        KeyType::DSA => {
            let k = match ossl_dsa_pub_from_pem(pem) {
                Ok(k) => k,
                Err(_) => {
                    return Err(Error::from_kind(ErrorKind::OpenSslError));
                },
            };
            if k.p.len() > MAX_FIELD_LEN || k.q.len() > MAX_FIELD_LEN || k.g.len() > MAX_FIELD_LEN
                || k.y.len() > MAX_FIELD_LEN {
                return Err(Error::from_kind(ErrorKind::InvalidKeySize));
            }
            Ok(PublicKey { key: PublicKeyType::DSA(k) })
        },
        KeyType::ECDSA => {
            let k = match ossl_ec_pub_from_pem(pem) {
                Ok(k) => k,
                Err(_) => {
                    return Err(Error::from_kind(ErrorKind::OpenSslError));
                },
            };
            if k.point.len() > MAX_FIELD_LEN {
                return Err(Error::from_kind(ErrorKind::InvalidKeySize));
            }
            Ok(PublicKey { key: PublicKeyType::ECDSA(k) })
        },
        KeyType::ED25519 => {
            let k = match ossl_ed25519_pub_from_pem(pem) {
                Ok(k) => k,
                Err(_) => {
                    return Err(Error::from_kind(ErrorKind::OpenSslError));
                },
            };
            Ok(PublicKey { key: PublicKeyType::ED25519(k) })
        },
    }
}

/// The CRT exponents the provider derives from an RSA private exponent
/// and its factors: d mod (p-1) and d mod (q-1).
pub uninterp spec fn rsa_crt_of(d: Seq<u8>, p: Seq<u8>, q: Seq<u8>) -> Option<(Seq<u8>, Seq<u8>)>;

/// The PKCS#1 armor the provider writes for the RSA components without a
/// passphrase, if the key object can be built and written.
pub uninterp spec fn rsa_priv_pem_of(n: Seq<u8>, e: Seq<u8>, d: Seq<u8>, iqmp: Seq<u8>, p: Seq<u8>, q: Seq<u8>, dmp1: Seq<u8>, dmq1: Seq<u8>) -> Option<Seq<u8>>;

/// The DSA armor the provider writes without a passphrase.
pub uninterp spec fn dsa_priv_pem_of(p: Seq<u8>, q: Seq<u8>, g: Seq<u8>, y: Seq<u8>, x: Seq<u8>) -> Option<Seq<u8>>;

/// The SEC1 armor the provider writes without a passphrase.
pub uninterp spec fn ec_priv_pem_of(curve: EcCurve, point: Seq<u8>, scalar: Seq<u8>) -> Option<Seq<u8>>;

/// The PKCS#8 armor the provider writes for an Ed25519 seed without a
/// passphrase.
pub uninterp spec fn ed25519_pkcs8_of(seed: Seq<u8>) -> Option<Seq<u8>>;

/// Whether re-parsing the emitted armor under the same passphrase returns
/// the key it was written from: exactly for RSA, DSA and ECDSA, and for
/// Ed25519 up to the public half, which the provider re-derives from the
/// seed.
pub open spec fn reparses_to(k: KeyPairData, pass: Option<Seq<u8>>, v: Seq<u8>) -> bool {
    match k {
        KeyPairData::Rsa { .. } => pem_keytype_of(v, pass) == Ok::<KeyType, ErrorKind>(
            KeyType::RSA,
        ) && pem_rsa_of(v, pass) == Some(k),
        KeyPairData::Dsa { .. } => pem_keytype_of(v, pass) == Ok::<KeyType, ErrorKind>(
            KeyType::DSA,
        ) && pem_dsa_of(v, pass) == Some(k),
        KeyPairData::Ecdsa { .. } => pem_keytype_of(v, pass) == Ok::<KeyType, ErrorKind>(
            KeyType::ECDSA,
        ) && pem_ecdsa_of(v, pass) == Some(k),
        KeyPairData::Ed25519 { pk, sk } => pem_keytype_of(v, pass) == Ok::<KeyType, ErrorKind>(
            KeyType::ED25519,
        ) && exists|pk2: Seq<u8>|
            pk2.len() == 32 && #[trigger] pem_ed25519_of(v, pass) == Some(
                KeyPairData::Ed25519 { pk: pk2, sk: sk.subrange(0, 32) + pk2 },
            ),
    }
}

/// Relies on the provider's big-number arithmetic: the CRT exponents
/// d mod (p-1) and d mod (q-1) are functions of d, p and q alone; a zero
/// modulus fails cleanly.
#[verifier::external_body]
pub(crate) fn ossl_rsa_crt(d: &[u8], p: &[u8], q: &[u8]) -> (r: Result<(Vec<u8>, Vec<u8>), ()>)
    ensures
        match r {
            Ok(v) => rsa_crt_of(d@, p@, q@) == Some((v.0@, v.1@)),
            Err(_) => rsa_crt_of(d@, p@, q@) is None,
        },
{
    (|| -> Result<(Vec<u8>, Vec<u8>), ErrorStack> {
        let mut ctx = BigNumContext::new()?;
        let dn = BigNum::from_slice(d)?;
        let mut pn = BigNum::from_slice(p)?;
        pn.sub_word(1)?;
        let mut qn = BigNum::from_slice(q)?;
        qn.sub_word(1)?;
        let mut dmp1 = BigNum::new()?;
        dmp1.checked_rem(&dn, &pn, &mut ctx)?;
        let mut dmq1 = BigNum::new()?;
        dmq1.checked_rem(&dn, &qn, &mut ctx)?;
        Ok((dmp1.to_vec(), dmq1.to_vec()))
    })().map_err(|_| ())
}

/// Relies on openssl's PKCS#1 private key writer over the full component
/// set: without a passphrase the armor is a function of the components;
/// with one the provider salts the encryption. Either way the armor opens
/// with the "RSA PRIVATE KEY" tag and, for canonical components, the
/// provider's own reader returns them (its tests write and read back the
/// same key).
#[verifier::external_body]
fn ossl_rsa_priv_to_pem(k: &RsaKeyPair, dmp1: &[u8], dmq1: &[u8], pass: Option<&[u8]>) -> (r:
    Result<Vec<u8>, ()>)
    ensures
        match r {
            Ok(v) => (pass is None ==> rsa_priv_pem_of(
                k.n@,
                k.e@,
                k.d@,
                k.iqmp@,
                k.p@,
                k.q@,
                dmp1@,
                dmq1@,
            ) == Some(v@)) && starts_with_armor(v@, super::rsa_pem_tag()) && ((bn_canon(k.n@)
                && bn_canon(k.e@) && bn_canon(k.d@) && bn_canon(k.iqmp@) && bn_canon(k.p@)
                && bn_canon(k.q@)) ==> reparses_to(
                KeyPairData::Rsa { n: k.n@, e: k.e@, d: k.d@, iqmp: k.iqmp@, p: k.p@, q: k.q@ },
                opt_bytes_view(pass),
                v@,
            )),
            Err(_) => pass is None ==> rsa_priv_pem_of(
                k.n@,
                k.e@,
                k.d@,
                k.iqmp@,
                k.p@,
                k.q@,
                dmp1@,
                dmq1@,
            ) is None,
        },
{
    let key = (|| -> Result<_, ErrorStack> {
        Rsa::from_private_components(
            BigNum::from_slice(&k.n)?, BigNum::from_slice(&k.e)?,
            BigNum::from_slice(&k.d)?, BigNum::from_slice(&k.p)?,
            BigNum::from_slice(&k.q)?, BigNum::from_slice(dmp1)?,
            BigNum::from_slice(dmq1)?, BigNum::from_slice(&k.iqmp)?,
        )
    })().map_err(|_| ())?;
    match pass {
        Some(pw) => key.private_key_to_pem_passphrase(openssl::symm::Cipher::aes_128_cbc(), pw),
        None => key.private_key_to_pem(),
    }.map_err(|_| ())
}

/// Relies on openssl's DSA private key writer, as for RSA: the armor
/// opens with the "DSA PRIVATE KEY" tag and canonical components read
/// back exactly.
#[verifier::external_body]
fn ossl_dsa_priv_to_pem(k: &DsaKeyPair, pass: Option<&[u8]>) -> (r: Result<Vec<u8>, ()>)
    ensures
        match r {
            Ok(v) => (pass is None ==> dsa_priv_pem_of(k.p@, k.q@, k.g@, k.y@, k.x@) == Some(v@)) && starts_with_armor(v@, super::dsa_pem_tag()) && ((bn_canon(k.p@) && bn_canon(k.q@) && bn_canon(k.g@) && bn_canon(k.y@) && bn_canon(k.x@))
                ==> reparses_to(
                KeyPairData::Dsa { p: k.p@, q: k.q@, g: k.g@, y: k.y@, x: k.x@ },
                opt_bytes_view(pass),
                v@,
            )),
            Err(_) => pass is None ==> dsa_priv_pem_of(k.p@, k.q@, k.g@, k.y@, k.x@) is None,
        },
{
    let key = (|| -> Result<_, ErrorStack> {
        Dsa::from_private_components(
            BigNum::from_slice(&k.p)?,
            BigNum::from_slice(&k.q)?,
            BigNum::from_slice(&k.g)?,
            BigNum::from_slice(&k.x)?,
            BigNum::from_slice(&k.y)?,
        )
    })().map_err(|_| ())?;
    match pass {
        Some(pw) => key.private_key_to_pem_passphrase(openssl::symm::Cipher::aes_128_cbc(), pw),
        None => key.private_key_to_pem(),
    }.map_err(|_| ())
}

/// Relies on openssl's SEC1 private key writer, as for RSA: the armor
/// opens with the "EC PRIVATE KEY" tag; the point is validated when the
/// key object is built, and a canonical key reads back exactly.
#[verifier::external_body]
fn ossl_ec_priv_to_pem(k: &EcDsaKeyPair, pass: Option<&[u8]>) -> (r: Result<Vec<u8>, ()>)
    ensures
        match r {
            Ok(v) => (pass is None ==> ec_priv_pem_of(k.curve, k.point@, k.scalar@) == Some(v@)) && starts_with_armor(v@, super::ec_pem_tag()) && ((k.point@.len() > 0 && k.point@[0] == 4 && bn_canon(k.scalar@))
                ==> reparses_to(
                KeyPairData::Ecdsa { curve: k.curve, point: k.point@, scalar: k.scalar@ },
                opt_bytes_view(pass),
                v@,
            )),
            Err(_) => pass is None ==> ec_priv_pem_of(k.curve, k.point@, k.scalar@) is None,
        },
{
    let key = (|| -> Result<EcKey<openssl::pkey::Private>, ErrorStack> {
        let group = EcGroup::from_curve_name(ossl_curve_nid(k.curve))?;
        let mut ctx = BigNumContext::new()?;
        let point = EcPoint::from_bytes(&group, &k.point, &mut ctx)?;
        let scalar = BigNum::from_slice(&k.scalar)?;
        EcKey::from_private_components(&group, &scalar, &point)
    })().map_err(|_| ())?;
    match pass {
        Some(pw) => key.private_key_to_pem_passphrase(openssl::symm::Cipher::aes_128_cbc(), pw),
        None => key.private_key_to_pem(),
    }.map_err(|_| ())
}

/// Relies on openssl's PKCS#8 writer over a raw Ed25519 seed: without a
/// passphrase the armor is a function of the seed; the tag is "PRIVATE
/// KEY", or "ENCRYPTED PRIVATE KEY" when a passphrase selects the salted
/// default cipher; the reader re-derives the public half from the seed.
#[verifier::external_body]
pub(crate) fn ossl_ed25519_to_pkcs8(seed: &[u8], pass: Option<&[u8]>) -> (r: Result<Vec<u8>, ()>)
    requires
        seed@.len() == 32,
    ensures
        match r {
            Ok(v) => (pass is None ==> ed25519_pkcs8_of(seed@) == Some(v@)) && (match pass {
                Some(_) => starts_with_armor(v@, super::encrypted_pkcs8_tag()),
                None => starts_with_armor(v@, super::private_key_words()),
            }) && pem_keytype_of(v@, opt_bytes_view(pass)) == Ok::<KeyType, ErrorKind>(
                KeyType::ED25519,
            ) && (exists|pk2: Seq<u8>|
                pk2.len() == 32 && #[trigger] pem_ed25519_of(v@, opt_bytes_view(pass)) == Some(
                    KeyPairData::Ed25519 { pk: pk2, sk: seed@ + pk2 },
                )),
            Err(_) => pass is None ==> ed25519_pkcs8_of(seed@) is None,
        },
{
    let key = PKey::private_key_from_raw_bytes(seed, Id::ED25519).map_err(|_| ())?;
    match pass {
        Some(pw) => key.private_key_to_pem_pkcs8_passphrase(openssl::symm::Cipher::aes_128_cbc(), pw),
        None => key.private_key_to_pem_pkcs8(),
    }.map_err(|_| ())
}

/// The provider's identifier of each supported curve; used only inside
/// the trusted wrappers.
#[verifier::external_body]
pub(crate) fn ossl_curve_nid(c: EcCurve) -> Nid {
    match c {
        EcCurve::Nistp256 => Nid::X9_62_PRIME256V1,
        EcCurve::Nistp384 => Nid::SECP384R1,
        EcCurve::Nistp521 => Nid::SECP521R1,
    }
}

/// The supported curve a provider identifier stands for, if any; used
/// only inside the trusted wrappers.
#[verifier::external_body]
pub(crate) fn ossl_curve_of_nid(nid: Option<Nid>) -> Option<EcCurve> {
    match nid {
        Some(Nid::X9_62_PRIME256V1) => Some(EcCurve::Nistp256),
        Some(Nid::SECP384R1) => Some(EcCurve::Nistp384),
        Some(Nid::SECP521R1) => Some(EcCurve::Nistp521),
        _ => None,
    }
}

/// The armor this library's private PEM writer emits for a key when no
/// passphrase is given, if the provider can build and write it.
pub open spec fn priv_pem_of(k: KeyPairData) -> Option<Seq<u8>> {
    match k {
        KeyPairData::Rsa { n, e, d, iqmp, p, q } => match rsa_crt_of(d, p, q) {
            None => None,
            Some((dmp1, dmq1)) => rsa_priv_pem_of(n, e, d, iqmp, p, q, dmp1, dmq1),
        },
        KeyPairData::Dsa { p, q, g, y, x } => dsa_priv_pem_of(p, q, g, y, x),
        KeyPairData::Ecdsa { curve, point, scalar } => ec_priv_pem_of(curve, point, scalar),
        KeyPairData::Ed25519 { sk, .. } => if sk.len() >= 32 {
            ed25519_pkcs8_of(sk.subrange(0, 32))
        } else {
            None
        },
    }
}

/// The armor tag the private PEM writer owes each algorithm: the
/// OpenSSL-native tags for RSA, DSA and ECDSA, and PKCS#8 (plain or
/// encrypted by the passphrase's presence) for Ed25519.
pub open spec fn priv_armor_tag_ok(k: KeyPairData, encrypted: bool, v: Seq<u8>) -> bool {
    match k {
        KeyPairData::Rsa { .. } => starts_with_armor(v, super::rsa_pem_tag()),
        KeyPairData::Dsa { .. } => starts_with_armor(v, super::dsa_pem_tag()),
        KeyPairData::Ecdsa { .. } => starts_with_armor(v, super::ec_pem_tag()),
        KeyPairData::Ed25519 { .. } => if encrypted {
            starts_with_armor(v, super::encrypted_pkcs8_tag())
        } else {
            starts_with_armor(v, super::private_key_words())
        },
    }
}

/// Write a private key as PEM through the cryptography provider: PKCS#1,
/// DSA or SEC1 armor by algorithm, PKCS#8 for Ed25519, encrypted under
/// the provider's fixed default cipher (AES-128-CBC) when a passphrase is
/// given. Without a passphrase the armor is the named function of the
/// key; either way the emitted armor re-parses, under the same
/// passphrase, to the key it was written from (for canonical fields, and
/// up to the recomputed RSA CRT coefficient and re-derived Ed25519 public
/// half).
pub fn stringify_pem_privkey(kp: &KeyPair, passphrase: Option<&str>) -> (r: Result<Vec<u8>, Error>)
    ensures
        match r {
            Ok(v) => priv_armor_tag_ok(kp@, passphrase is Some, v@) && (kp_canonical(kp@)
                ==> reparses_to(kp@, pass_view(passphrase), v@)) && (passphrase is None
                ==> priv_pem_of(kp@) == Some(v@)),
            Err(e) => (e.kind == ErrorKind::InvalidKey || e.kind == ErrorKind::OpenSslError) && (
            e.kind == ErrorKind::InvalidKey <==> (kp@ matches KeyPairData::Ed25519 { sk, .. }
                && sk.len() < 32)) && (passphrase is None && e.kind == ErrorKind::OpenSslError
                ==> priv_pem_of(kp@) is None),
        },
{
    let pass: Option<&[u8]> = match passphrase {
        Some(s) => Some(s.as_bytes()),
        None => None,
    };
    proof {
        assert(opt_bytes_view(pass) == pass_view(passphrase));
    }
    let out = match &kp.key {
        KeyPairType::RSA(k) => {
            match ossl_rsa_crt(k.d.as_slice(), k.p.as_slice(), k.q.as_slice()) {
                Ok(crt) => ossl_rsa_priv_to_pem(k, crt.0.as_slice(), crt.1.as_slice(), pass),
                Err(_) => Err(()),
            }
        },
        KeyPairType::DSA(k) => ossl_dsa_priv_to_pem(k, pass),
        KeyPairType::ECDSA(k) => ossl_ec_priv_to_pem(k, pass),
        KeyPairType::ED25519(k) => {
            if k.sk.len() < 32 {
                return Err(Error::from_kind(ErrorKind::InvalidKey));
            }
            ossl_ed25519_to_pkcs8(vstd::slice::slice_subrange(k.sk.as_slice(), 0, 32), pass)
        },
    };
    match out {
        Ok(v) => Ok(v),
        Err(_) => Err(Error::from_kind(ErrorKind::OpenSslError)),
    }
}

/// The PKCS#1 armor the provider writes for the RSA public components,
/// if the key object can be built and written.
pub uninterp spec fn rsa_pub_pem_of(n: Seq<u8>, e: Seq<u8>) -> Option<Seq<u8>>;

/// The SubjectPublicKeyInfo armor the provider writes for the DSA public
/// components.
pub uninterp spec fn dsa_pub_pem_of(p: Seq<u8>, q: Seq<u8>, g: Seq<u8>, y: Seq<u8>) -> Option<Seq<u8>>;

/// The SubjectPublicKeyInfo armor the provider writes for an EC point.
pub uninterp spec fn ec_pub_pem_of(curve: EcCurve, point: Seq<u8>) -> Option<Seq<u8>>;

/// The SubjectPublicKeyInfo armor the provider writes for a raw Ed25519
/// public key.
pub uninterp spec fn ed25519_pub_pem_of(pk: Seq<u8>) -> Option<Seq<u8>>;

/// Relies on openssl's PKCS#1 public key writer: the armor is a function
/// of the components alone, opens with the "RSA PUBLIC KEY" tag, and the
/// provider's reader returns the same components when they are canonical
/// (BN_bn2bin strips leading zeros on write).
#[verifier::external_body]
fn ossl_rsa_pub_to_pem(k: &RsaPublicKey) -> (r: Result<Vec<u8>, ()>)
    ensures
        match r {
            Ok(v) => rsa_pub_pem_of(k.n@, k.e@) == Some(v@) && starts_with_armor(
                v@,
                rsa_public_tag(),
            ) && ((bn_canon(k.n@) && bn_canon(k.e@)) ==> (pem_pubtype_of(v@) == Ok::<
                KeyType,
                ErrorKind,
            >(KeyType::RSA) && pem_rsa_pub_of(v@) == Some(
                PublicKeyData::Rsa { n: k.n@, e: k.e@ },
            ))),
            Err(_) => rsa_pub_pem_of(k.n@, k.e@) is None,
        },
{
    let key = (|| -> Result<_, ErrorStack> {
        Rsa::from_public_components(BigNum::from_slice(&k.n)?, BigNum::from_slice(&k.e)?)
    })().map_err(|_| ())?;
    key.public_key_to_pem_pkcs1().map_err(|_| ())
}

/// Relies on openssl's SubjectPublicKeyInfo writer for DSA: the armor is
/// a function of the components alone, opens with the "PUBLIC KEY" tag,
/// and canonical components read back exactly.
#[verifier::external_body]
fn ossl_dsa_pub_to_pem(k: &DsaPublicKey) -> (r: Result<Vec<u8>, ()>)
    ensures
        match r {
            Ok(v) => dsa_pub_pem_of(k.p@, k.q@, k.g@, k.y@) == Some(v@) && starts_with_armor(
                v@,
                pub_key_words(),
            ) && ((bn_canon(k.p@) && bn_canon(k.q@) && bn_canon(k.g@) && bn_canon(k.y@)) ==> (
            pem_pubtype_of(v@) == Ok::<KeyType, ErrorKind>(KeyType::DSA) && pem_dsa_pub_of(v@)
                == Some(PublicKeyData::Dsa { p: k.p@, q: k.q@, g: k.g@, y: k.y@ }))),
            Err(_) => dsa_pub_pem_of(k.p@, k.q@, k.g@, k.y@) is None,
        },
{
    let key = (|| -> Result<_, ErrorStack> {
        Dsa::from_public_components(
            BigNum::from_slice(&k.p)?,
            BigNum::from_slice(&k.q)?,
            BigNum::from_slice(&k.g)?,
            BigNum::from_slice(&k.y)?,
        )
    })().map_err(|_| ())?;
    (|| -> Result<Vec<u8>, ErrorStack> { PKey::from_dsa(key)?.public_key_to_pem() })().map_err(
        |_| (),
    )
}

/// Relies on openssl's SubjectPublicKeyInfo writer for EC keys: the armor
/// is a function of curve and point alone, opens with the "PUBLIC KEY"
/// tag, and an uncompressed on-curve point reads back bit-identically.
#[verifier::external_body]
fn ossl_ec_pub_to_pem(k: &EcDsaPublicKey) -> (r: Result<Vec<u8>, ()>)
    ensures
        match r {
            Ok(v) => ec_pub_pem_of(k.curve, k.point@) == Some(v@) && starts_with_armor(
                v@,
                pub_key_words(),
            ) && ((k.point@.len() > 0 && k.point@[0] == 4) ==> (pem_pubtype_of(v@) == Ok::<
                KeyType,
                ErrorKind,
            >(KeyType::ECDSA) && pem_ecdsa_pub_of(v@) == Some(
                PublicKeyData::Ecdsa { curve: k.curve, point: k.point@ },
            ))),
            Err(_) => ec_pub_pem_of(k.curve, k.point@) is None,
        },
{
    (|| -> Result<Vec<u8>, ErrorStack> {
        let group = EcGroup::from_curve_name(ossl_curve_nid(k.curve))?;
        let mut ctx = BigNumContext::new()?;
        let point = EcPoint::from_bytes(&group, &k.point, &mut ctx)?;
        PKey::from_ec_key(EcKey::from_public_key(&group, &point)?)?.public_key_to_pem()
    })().map_err(|_| ())
}

/// Relies on openssl's SubjectPublicKeyInfo writer for raw Ed25519 keys:
/// the armor is a function of the 32 bytes alone, opens with the "PUBLIC
/// KEY" tag, and always reads back bit-identically.
#[verifier::external_body]
fn ossl_ed25519_pub_to_pem(k: &Ed25519PublicKey) -> (r: Result<Vec<u8>, ()>)
    ensures
        match r {
            Ok(v) => ed25519_pub_pem_of(k.pk@) == Some(v@) && starts_with_armor(
                v@,
                pub_key_words(),
            ) && pem_pubtype_of(v@) == Ok::<KeyType, ErrorKind>(KeyType::ED25519)
                && pem_ed25519_pub_of(v@) == Some(PublicKeyData::Ed25519 { pk: k.pk@ }),
            Err(_) => ed25519_pub_pem_of(k.pk@) is None,
        },
{
    (|| -> Result<Vec<u8>, ErrorStack> {
        PKey::public_key_from_raw_bytes(&k.pk, Id::ED25519)?.public_key_to_pem()
    })().map_err(|_| ())
}

/// The armor this library's public PEM writer emits for a key, if the
/// provider can build and write it.
pub open spec fn pub_pem_of(k: PublicKeyData) -> Option<Seq<u8>> {
    match k {
        PublicKeyData::Rsa { n, e } => rsa_pub_pem_of(n, e),
        PublicKeyData::Dsa { p, q, g, y } => dsa_pub_pem_of(p, q, g, y),
        PublicKeyData::Ecdsa { curve, point } => ec_pub_pem_of(curve, point),
        PublicKeyData::Ed25519 { pk } => ed25519_pub_pem_of(pk),
    }
}

/// Whether a public key's fields are in the provider's canonical form:
/// big-endian integers without leading zero bytes, and an uncompressed
/// curve point. The provider re-normalizes on write, so only canonical
/// keys read back bit-identically.
pub open spec fn pk_canonical(k: PublicKeyData) -> bool {
    match k {
        PublicKeyData::Rsa { n, e } => n.len() > 0 && n[0] != 0 && e.len() > 0 && e[0] != 0,
        PublicKeyData::Dsa { p, q, g, y } => p.len() > 0 && p[0] != 0 && q.len() > 0 && q[0] != 0
            && g.len() > 0 && g[0] != 0 && y.len() > 0 && y[0] != 0,
        PublicKeyData::Ecdsa { point, .. } => point.len() > 0 && point[0] == 4,
        PublicKeyData::Ed25519 { .. } => true,
    }
}

/// Write a public key as PEM through the cryptography provider: PKCS#1
/// "RSA PUBLIC KEY" armor for RSA, SubjectPublicKeyInfo "PUBLIC KEY"
/// armor otherwise; the writer is a function of the key, so success is
/// too.
///
/// Public derivation is idempotent through the PEM form: parsing the
/// emitted armor returns the same public key whenever its fields are
/// canonical (no leading zero bytes, uncompressed point) and fit the
/// library's size bound.
pub fn stringify_pem_pubkey(pk: &PublicKey) -> (r: Result<Vec<u8>, Error>)
    ensures
        match r {
            Ok(v) => pub_pem_of(pk@) == Some(v@) && (match pk@ {
                PublicKeyData::Rsa { .. } => starts_with_armor(v@, rsa_public_tag()),
                _ => starts_with_armor(v@, pub_key_words()),
            }) && ((pk_fits(pk@) && pk_canonical(pk@)) ==> pem_pubkey_result(v@) == Ok::<
                PublicKeyData,
                ErrorKind,
            >(pk@)),
            Err(e) => e.kind == ErrorKind::OpenSslError && pub_pem_of(pk@) is None,
        },
{
    let out = match &pk.key {
        PublicKeyType::RSA(k) => ossl_rsa_pub_to_pem(k),
        PublicKeyType::DSA(k) => ossl_dsa_pub_to_pem(k),
        PublicKeyType::ECDSA(k) => ossl_ec_pub_to_pem(k),
        PublicKeyType::ED25519(k) => ossl_ed25519_pub_to_pem(k),
    };
    match out {
        Ok(v) => Ok(v),
        Err(_) => Err(Error::from_kind(ErrorKind::OpenSslError)),
    }
}

} // verus!