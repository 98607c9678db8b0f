//! The algorithm-tagged public key blob of the native container: a key
//! type name followed by the algorithm's public fields, every piece
//! length-prefixed.

use vstd::prelude::*;
use crate::error::{Error, ErrorKind};
use crate::keys::{
    EcCurve, EcDsaPublicKey, DsaPublicKey, Ed25519PublicKey, PublicKey, PublicKeyData,
    PublicKeyType, RsaPublicKey, pk_fits, MAX_FIELD_LEN,
};
use crate::sshbuf::{bytes_eq, put_string, read_string, string_at, string_spec};

verus! {

broadcast use crate::sshbuf::lemma_string_spec_len;


/// The key type name "ssh-rsa".
pub open spec fn ssh_rsa_name() -> Seq<u8> {
    seq![115u8, 115, 104, 45, 114, 115, 97]
}

/// The key type name "ssh-dss".
pub open spec fn ssh_dss_name() -> Seq<u8> {
    seq![115u8, 115, 104, 45, 100, 115, 115]
}

/// The key type name "ssh-ed25519".
pub open spec fn ssh_ed25519_name() -> Seq<u8> {
    seq![115u8, 115, 104, 45, 101, 100, 50, 53, 53, 49, 57]
}

/// The curve identifier carried inside an ECDSA blob: "nistp256",
/// "nistp384" or "nistp521".
pub open spec fn curve_name_spec(c: EcCurve) -> Seq<u8> {
    match c {
        EcCurve::Nistp256 => seq![110u8, 105, 115, 116, 112, 50, 53, 54],
        EcCurve::Nistp384 => seq![110u8, 105, 115, 116, 112, 51, 56, 52],
        EcCurve::Nistp521 => seq![110u8, 105, 115, 116, 112, 53, 50, 49],
    }
}

/// The key type name of an ECDSA key: "ecdsa-sha2-" followed by the curve
/// identifier.
pub open spec fn ecdsa_name_spec(c: EcCurve) -> Seq<u8> {
    seq![101u8, 99, 100, 115, 97, 45, 115, 104, 97, 50, 45] + curve_name_spec(c)
}

/// The key type name of a public key's algorithm.
pub open spec fn keyname_spec(k: PublicKeyData) -> Seq<u8> {
    match k {
        PublicKeyData::Rsa { .. } => ssh_rsa_name(),
        PublicKeyData::Dsa { .. } => ssh_dss_name(),
        PublicKeyData::Ecdsa { curve, .. } => ecdsa_name_spec(curve),
        PublicKeyData::Ed25519 { .. } => ssh_ed25519_name(),
    }
}

/// The curve identifier as bytes.
pub fn curve_name_bytes(c: EcCurve) -> (r: Vec<u8>)
    ensures
        r@ == curve_name_spec(c),
{
    let mut v: Vec<u8> = Vec::new();
    v.push(110);
    v.push(105);
    v.push(115);
    v.push(116);
    v.push(112);
    match c {
        EcCurve::Nistp256 => {
            v.push(50);
            v.push(53);
            v.push(54);
        },
        EcCurve::Nistp384 => {
            v.push(51);
            v.push(56);
            v.push(52);
        },
        EcCurve::Nistp521 => {
            v.push(53);
            v.push(50);
            v.push(49);
        },
    }
    proof {
        assert(v@ =~= curve_name_spec(c));
    }
    v
}

/// The key type name of an ECDSA key as bytes.
pub fn ecdsa_name_bytes(c: EcCurve) -> (r: Vec<u8>)
    ensures
        r@ == ecdsa_name_spec(c),
{
    let mut v: Vec<u8> = Vec::new();
    v.push(101);
    v.push(99);
    v.push(100);
    v.push(115);
    v.push(97);
    v.push(45);
    v.push(115);
    v.push(104);
    v.push(97);
    v.push(50);
    v.push(45);
    let cn = curve_name_bytes(c);
    let mut i: usize = 0;
    while i < cn.len()
        invariant
            i <= cn@.len(),
            v@ == seq![101u8, 99, 100, 115, 97, 45, 115, 104, 97, 50, 45] + cn@.subrange(
                0,
                i as int,
            ),
        decreases cn@.len() - i,
    {
        v.push(cn[i]);
        i = i + 1;
        assert(v@ =~= seq![101u8, 99, 100, 115, 97, 45, 115, 104, 97, 50, 45] + cn@.subrange(
            0,
            i as int,
        ));
    }
    proof {
        assert(cn@.subrange(0, cn@.len() as int) =~= cn@);
        assert(v@ =~= ecdsa_name_spec(c));
    }
    v
}

/// The key type name of the given public key as bytes.
pub fn keyname_bytes(pk: &PublicKey) -> (r: Vec<u8>)
    ensures
        r@ == keyname_spec(pk@),
{
    let mut v: Vec<u8> = Vec::new();
    match &pk.key {
        PublicKeyType::RSA(_) => {
            v.push(115);
            v.push(115);
            v.push(104);
            v.push(45);
            v.push(114);
            v.push(115);
            v.push(97);
        },
        PublicKeyType::DSA(_) => {
            v.push(115);
            v.push(115);
            v.push(104);
            v.push(45);
            v.push(100);
            v.push(115);
            v.push(115);
        },
        PublicKeyType::ECDSA(k) => {
            return ecdsa_name_bytes(k.curve);
        },
        PublicKeyType::ED25519(_) => {
            v.push(115);
            v.push(115);
            v.push(104);
            v.push(45);
            v.push(101);
            v.push(100);
            v.push(50);
            v.push(53);
            v.push(53);
            v.push(49);
            v.push(57);
        },
    }
    proof {
        assert(v@ =~= keyname_spec(pk@));
    }
    v
}

/// The wire form of the algorithm-tagged public key blob.
pub open spec fn pubkey_blob_spec(k: PublicKeyData) -> Seq<u8> {
    match k {
        PublicKeyData::Rsa { n, e } => string_spec(ssh_rsa_name()) + string_spec(e) + string_spec(
            n,
        ),
        PublicKeyData::Dsa { p, q, g, y } => string_spec(ssh_dss_name()) + string_spec(p)
            + string_spec(q) + string_spec(g) + string_spec(y),
        PublicKeyData::Ecdsa { curve, point } => string_spec(ecdsa_name_spec(curve)) + string_spec(
            curve_name_spec(curve),
        ) + string_spec(point),
        PublicKeyData::Ed25519 { pk } => string_spec(ssh_ed25519_name()) + string_spec(pk),
    }
}

/// Decoding the fields that follow an "ssh-rsa" type name.
#[verifier::opaque]
pub open spec fn decode_rsa_tail(b: Seq<u8>, p0: int) -> Result<PublicKeyData, ErrorKind> {
    match string_at(b, p0) {
        None => Err(ErrorKind::IOError),
        Some((e, p1)) => match string_at(b, p1) {
            None => Err(ErrorKind::IOError),
            Some((n, p2)) => {
                if p2 != b.len() {
                    Err(ErrorKind::InvalidKeyFormat)
                } else if n.len() > MAX_FIELD_LEN || e.len() > MAX_FIELD_LEN {
                    Err(ErrorKind::InvalidKeySize)
                } else {
                    Ok(PublicKeyData::Rsa { n, e })
                }
            },
        },
    }
}

/// Decoding the fields that follow an "ssh-dss" type name.
#[verifier::opaque]
pub open spec fn decode_dsa_tail(b: Seq<u8>, p0: int) -> Result<PublicKeyData, ErrorKind> {
    match string_at(b, p0) {
        None => Err(ErrorKind::IOError),
        Some((p, p1)) => match string_at(b, p1) {
            None => Err(ErrorKind::IOError),
            Some((q, p2)) => match string_at(b, p2) {
                None => Err(ErrorKind::IOError),
                Some((g, p3)) => match string_at(b, p3) {
                    None => Err(ErrorKind::IOError),
                    Some((y, p4)) => {
                        if p4 != b.len() {
                            Err(ErrorKind::InvalidKeyFormat)
                        } else if p.len() > MAX_FIELD_LEN || q.len() > MAX_FIELD_LEN || g.len()
                            > MAX_FIELD_LEN || y.len() > MAX_FIELD_LEN {
                            Err(ErrorKind::InvalidKeySize)
                        } else {
                            Ok(PublicKeyData::Dsa { p, q, g, y })
                        }
                    },
                },
            },
        },
    }
}

/// Decoding the fields that follow an "ecdsa-sha2-*" type name.
#[verifier::opaque]
pub open spec fn decode_ecdsa_tail(b: Seq<u8>, p0: int, curve: EcCurve) -> Result<
    PublicKeyData,
    ErrorKind,
> {
    match string_at(b, p0) {
        None => Err(ErrorKind::IOError),
        Some((cname, p1)) => {
            if cname != curve_name_spec(curve) {
                Err(ErrorKind::UnsupportCurve)
            } else {
                match string_at(b, p1) {
                    None => Err(ErrorKind::IOError),
                    Some((point, p2)) => {
                        if p2 != b.len() {
                            Err(ErrorKind::InvalidKeyFormat)
                        } else if point.len() > MAX_FIELD_LEN {
                            Err(ErrorKind::InvalidKeySize)
                        } else {
                            Ok(PublicKeyData::Ecdsa { curve, point })
                        }
                    },
                }
            }
        },
    }
}

/// Decoding the fields that follow an "ssh-ed25519" type name.
#[verifier::opaque]
pub open spec fn decode_ed25519_tail(b: Seq<u8>, p0: int) -> Result<PublicKeyData, ErrorKind> {
    match string_at(b, p0) {
        None => Err(ErrorKind::IOError),
        Some((pk, p1)) => {
            if p1 != b.len() {
                Err(ErrorKind::InvalidKeyFormat)
            } else if pk.len() != 32 {
                Err(ErrorKind::InvalidKey)
            } else {
                Ok(PublicKeyData::Ed25519 { pk })
            }
        },
    }
}

/// What decoding a public key blob yields: the key's content, or the kind
/// of the failure.
pub open spec fn decode_pubkey_result(b: Seq<u8>) -> Result<PublicKeyData, ErrorKind> {
    match string_at(b, 0) {
        None => Err(ErrorKind::IOError),
        Some((name, p0)) => {
            if name == ssh_rsa_name() {
                decode_rsa_tail(b, p0)
            } else if name == ssh_dss_name() {
                decode_dsa_tail(b, p0)
            } else if name == ecdsa_name_spec(EcCurve::Nistp256) {
                decode_ecdsa_tail(b, p0, EcCurve::Nistp256)
            } else if name == ecdsa_name_spec(EcCurve::Nistp384) {
                decode_ecdsa_tail(b, p0, EcCurve::Nistp384)
            } else if name == ecdsa_name_spec(EcCurve::Nistp521) {
                decode_ecdsa_tail(b, p0, EcCurve::Nistp521)
            } else if name == ssh_ed25519_name() {
                decode_ed25519_tail(b, p0)
            } else {
                Err(ErrorKind::UnsupportType)
            }
        },
    }
}

/// Encode the algorithm-tagged public key blob.
pub fn encode_ossh_pubkey(pk: &PublicKey) -> (r: Vec<u8>)
    requires
        pk_fits(pk@),
    ensures
        r@ == pubkey_blob_spec(pk@),
{
    let mut buf: Vec<u8> = Vec::new();
    let name = keyname_bytes(pk);
    put_string(&mut buf, name.as_slice());
    match &pk.key {
        PublicKeyType::RSA(k) => {
            put_string(&mut buf, k.e.as_slice());
            put_string(&mut buf, k.n.as_slice());
        },
        PublicKeyType::DSA(k) => {
            put_string(&mut buf, k.p.as_slice());
            put_string(&mut buf, k.q.as_slice());
            put_string(&mut buf, k.g.as_slice());
            put_string(&mut buf, k.y.as_slice());
        },
        PublicKeyType::ECDSA(k) => {
            let cname = curve_name_bytes(k.curve);
            put_string(&mut buf, cname.as_slice());
            put_string(&mut buf, k.point.as_slice());
        },
        PublicKeyType::ED25519(k) => {
            put_string(&mut buf, k.pk.as_slice());
        },
    }
    proof {
        assert(buf@ =~= pubkey_blob_spec(pk@));
    }
    buf
}

/// Decode an algorithm-tagged public key blob.
pub fn decode_ossh_pubkey(b: &[u8]) -> (r: Result<PublicKey, Error>)
    ensures
        match r {
            Ok(pk) => decode_pubkey_result(b@) == Ok::<PublicKeyData, ErrorKind>(pk@) && pk_fits(
                pk@,
            ),
            Err(e) => decode_pubkey_result(b@) == Err::<PublicKeyData, ErrorKind>(e.kind),
        },
{
    proof {
        reveal(decode_rsa_tail);
        reveal(decode_dsa_tail);
        reveal(decode_ecdsa_tail);
        reveal(decode_ed25519_tail);
    }
    let (name, p0) = match read_string(b, 0) {
        Some(v) => v,
        None => {
            return Err(Error::from_kind(ErrorKind::IOError));
        },
    };
    let rsa_name = {
        let pkref = PublicKey {
            key: PublicKeyType::RSA(RsaPublicKey { n: Vec::new(), e: Vec::new() }),
        };
        keyname_bytes(&pkref)
    };
    let dss_name = {
        let pkref = PublicKey {
            key: PublicKeyType::DSA(
                DsaPublicKey { p: Vec::new(), q: Vec::new(), g: Vec::new(), y: Vec::new() },
            ),
        };
        keyname_bytes(&pkref)
    };
    let ed_name = {
        let pkref = PublicKey { key: PublicKeyType::ED25519(Ed25519PublicKey { pk: Vec::new() }) };
        keyname_bytes(&pkref)
    };
    if bytes_eq(name.as_slice(), rsa_name.as_slice()) {
        let (e, p1) = match read_string(b, p0) {
            Some(v) => v,
            None => {
                return Err(Error::from_kind(ErrorKind::IOError));
            },
        };
        let (n, p2) = match read_string(b, p1) {
            Some(v) => v,
            None => {
                return Err(Error::from_kind(ErrorKind::IOError));
            },
        };
        if p2 != b.len() {
            return Err(Error::from_kind(ErrorKind::InvalidKeyFormat));
        }
        if n.len() > MAX_FIELD_LEN || e.len() > MAX_FIELD_LEN {
            return Err(Error::from_kind(ErrorKind::InvalidKeySize));
        }
        Ok(PublicKey { key: PublicKeyType::RSA(RsaPublicKey { n, e }) })
    } else if bytes_eq(name.as_slice(), dss_name.as_slice()) {
        let (p, p1) = match read_string(b, p0) {
            Some(v) => v,
            None => {
                return Err(Error::from_kind(ErrorKind::IOError));
            },
        };
        let (q, p2) = match read_string(b, p1) {
            Some(v) => v,
            None => {
                return Err(Error::from_kind(ErrorKind::IOError));
            },
        };
        let (g, p3) = match read_string(b, p2) {
            Some(v) => v,
            None => {
                return Err(Error::from_kind(ErrorKind::IOError));
            },
        };
        let (y, p4) = match read_string(b, p3) {
            Some(v) => v,
            None => {
                return Err(Error::from_kind(ErrorKind::IOError));
            },
        };
        if p4 != b.len() {
            return Err(Error::from_kind(ErrorKind::InvalidKeyFormat));
        }
        if p.len() > MAX_FIELD_LEN || q.len() > MAX_FIELD_LEN || g.len() > MAX_FIELD_LEN || y.len()
            > MAX_FIELD_LEN {
            return Err(Error::from_kind(ErrorKind::InvalidKeySize));
        }
        Ok(PublicKey { key: PublicKeyType::DSA(DsaPublicKey { p, q, g, y }) })
    } else if bytes_eq(name.as_slice(), ecdsa_name_bytes(EcCurve::Nistp256).as_slice()) {
        decode_ecdsa_pubkey_tail(b, p0, EcCurve::Nistp256)
    } else if bytes_eq(name.as_slice(), ecdsa_name_bytes(EcCurve::Nistp384).as_slice()) {
        decode_ecdsa_pubkey_tail(b, p0, EcCurve::Nistp384)
    } else if bytes_eq(name.as_slice(), ecdsa_name_bytes(EcCurve::Nistp521).as_slice()) {
        decode_ecdsa_pubkey_tail(b, p0, EcCurve::Nistp521)
    } else if bytes_eq(name.as_slice(), ed_name.as_slice()) {
        let (pk, p1) = match read_string(b, p0) {
            Some(v) => v,
            None => {
                return Err(Error::from_kind(ErrorKind::IOError));
            },
        };
        if p1 != b.len() {
            return Err(Error::from_kind(ErrorKind::InvalidKeyFormat));
        }
        if pk.len() != 32 {
            return Err(Error::from_kind(ErrorKind::InvalidKey));
        }
        Ok(PublicKey { key: PublicKeyType::ED25519(Ed25519PublicKey { pk }) })
    } else {
        Err(Error::from_kind(ErrorKind::UnsupportType))
    }
}

/// Decode the curve identifier and point that follow an ECDSA type name.
fn decode_ecdsa_pubkey_tail(b: &[u8], p0: usize, curve: EcCurve) -> (r: Result<PublicKey, Error>)
    ensures
        match r {
            Ok(pk) => decode_ecdsa_tail(b@, p0 as int, curve) == Ok::<PublicKeyData, ErrorKind>(
                pk@,
            ) && pk_fits(pk@),
            Err(e) => decode_ecdsa_tail(b@, p0 as int, curve) == Err::<PublicKeyData, ErrorKind>(
                e.kind,
            ),
        },
{
    proof {
        reveal(decode_ecdsa_tail);
    }
    let (cname, p1) = match read_string(b, p0) {
        Some(v) => v,
        None => {
            return Err(Error::from_kind(ErrorKind::IOError));
        },
    };
    if !bytes_eq(cname.as_slice(), curve_name_bytes(curve).as_slice()) {
        return Err(Error::from_kind(ErrorKind::UnsupportCurve));
    }
    let (point, p2) = match read_string(b, p1) {
        Some(v) => v,
        None => {
            return Err(Error::from_kind(ErrorKind::IOError));
        },
    };
    if p2 != b.len() {
        return Err(Error::from_kind(ErrorKind::InvalidKeyFormat));
    }
    if point.len() > MAX_FIELD_LEN {
        return Err(Error::from_kind(ErrorKind::InvalidKeySize));
    }
    Ok(PublicKey { key: PublicKeyType::ECDSA(EcDsaPublicKey { curve, point }) })
}

/// Decoding an RSA public key blob undoes encoding it.
#[verifier::rlimit(100)]
#[verifier::spinoff_prover]
proof fn lemma_pubkey_round_trip_rsa(n: Seq<u8>, e: Seq<u8>)
    requires
        n.len() <= MAX_FIELD_LEN,
        e.len() <= MAX_FIELD_LEN,
    ensures
        decode_pubkey_result(pubkey_blob_spec(PublicKeyData::Rsa { n, e })) == Ok::<
            PublicKeyData,
            ErrorKind,
        >(PublicKeyData::Rsa { n, e }),
{
    reveal(decode_rsa_tail);
    let k = PublicKeyData::Rsa { n, e };
    let b = pubkey_blob_spec(k);
    let empty = Seq::<u8>::empty();
    let name = ssh_rsa_name();
    let s0 = string_spec(name);
    let s1 = string_spec(e);
    let s2 = string_spec(n);
    assert(string_at(b, 0) == Some((name, s0.len() as int))) by {
        crate::sshbuf::lemma_string_at_concat(empty, name, s1 + s2);
        assert(empty + s0 + (s1 + s2) =~= b);
    }
    assert(string_at(b, s0.len() as int) == Some((e, (s0.len() + s1.len()) as int))) by {
        crate::sshbuf::lemma_string_at_concat(s0, e, s2);
        assert(s0 + s1 + s2 =~= b);
    }
    assert(string_at(b, (s0.len() + s1.len()) as int) == Some((n, b.len() as int))) by {
        crate::sshbuf::lemma_string_at_concat(s0 + s1, n, empty);
        assert(s0 + s1 + s2 + empty =~= b);
        assert((s0 + s1).len() + 4 + n.len() == b.len());
    }
}

/// Where the type name of a DSA public key blob lies.
#[verifier::rlimit(100)]
proof fn lemma_dsa_blob_field0(p: Seq<u8>, q: Seq<u8>, g: Seq<u8>, y: Seq<u8>)
    requires
        p.len() <= MAX_FIELD_LEN,
        q.len() <= MAX_FIELD_LEN,
        g.len() <= MAX_FIELD_LEN,
        y.len() <= MAX_FIELD_LEN,
    ensures
        string_at(pubkey_blob_spec(PublicKeyData::Dsa { p, q, g, y }), 0) == Some(
            (ssh_dss_name(), string_spec(ssh_dss_name()).len() as int),
        ),
{
    let b = pubkey_blob_spec(PublicKeyData::Dsa { p, q, g, y });
    let empty = Seq::<u8>::empty();
    let name = ssh_dss_name();
    let s0 = string_spec(name);
    let rest = string_spec(p) + string_spec(q) + string_spec(g) + string_spec(y);
    crate::sshbuf::lemma_string_at_concat(empty, name, rest);
    assert(empty + s0 + rest =~= b);
}

/// Where the first field of a DSA public key blob lies.
#[verifier::rlimit(100)]
#[verifier::spinoff_prover]
proof fn lemma_dsa_blob_field1(p: Seq<u8>, q: Seq<u8>, g: Seq<u8>, y: Seq<u8>)
    requires
        p.len() <= MAX_FIELD_LEN,
        q.len() <= MAX_FIELD_LEN,
        g.len() <= MAX_FIELD_LEN,
        y.len() <= MAX_FIELD_LEN,
    ensures
        ({
            let s0 = string_spec(ssh_dss_name());
            string_at(pubkey_blob_spec(PublicKeyData::Dsa { p, q, g, y }), s0.len() as int)
                == Some((p, (s0.len() + 4 + p.len()) as int))
        }),
{
    let b = pubkey_blob_spec(PublicKeyData::Dsa { p, q, g, y });
    let s0 = string_spec(ssh_dss_name());
    let rest = string_spec(q) + string_spec(g) + string_spec(y);
    crate::sshbuf::lemma_string_at_concat(s0, p, rest);
    assert(s0 + string_spec(p) + rest =~= b);
}

/// Where the second field of a DSA public key blob lies.
#[verifier::rlimit(100)]
#[verifier::spinoff_prover]
proof fn lemma_dsa_blob_field2(p: Seq<u8>, q: Seq<u8>, g: Seq<u8>, y: Seq<u8>)
    requires
        p.len() <= MAX_FIELD_LEN,
        q.len() <= MAX_FIELD_LEN,
        g.len() <= MAX_FIELD_LEN,
        y.len() <= MAX_FIELD_LEN,
    ensures
        ({
            let pre = string_spec(ssh_dss_name()) + string_spec(p);
            string_at(pubkey_blob_spec(PublicKeyData::Dsa { p, q, g, y }), pre.len() as int)
                == Some((q, (pre.len() + 4 + q.len()) as int))
        }),
{
    let b = pubkey_blob_spec(PublicKeyData::Dsa { p, q, g, y });
    let pre = string_spec(ssh_dss_name()) + string_spec(p);
    let rest = string_spec(g) + string_spec(y);
    crate::sshbuf::lemma_string_at_concat(pre, q, rest);
    assert(pre + string_spec(q) + rest =~= b);
}

/// Where the third field of a DSA public key blob lies.
#[verifier::rlimit(100)]
#[verifier::spinoff_prover]
proof fn lemma_dsa_blob_field3(p: Seq<u8>, q: Seq<u8>, g: Seq<u8>, y: Seq<u8>)
    requires
        p.len() <= MAX_FIELD_LEN,
        q.len() <= MAX_FIELD_LEN,
        g.len() <= MAX_FIELD_LEN,
        y.len() <= MAX_FIELD_LEN,
    ensures
        ({
            let pre = string_spec(ssh_dss_name()) + string_spec(p) + string_spec(q);
            string_at(pubkey_blob_spec(PublicKeyData::Dsa { p, q, g, y }), pre.len() as int)
                == Some((g, (pre.len() + 4 + g.len()) as int))
        }),
{
    let b = pubkey_blob_spec(PublicKeyData::Dsa { p, q, g, y });
    let pre = string_spec(ssh_dss_name()) + string_spec(p) + string_spec(q);
    let rest = string_spec(y);
    crate::sshbuf::lemma_string_at_concat(pre, g, rest);
    assert(pre + string_spec(g) + rest =~= b);
}

/// Where the fourth field of a DSA public key blob lies.
#[verifier::rlimit(100)]
#[verifier::spinoff_prover]
proof fn lemma_dsa_blob_field4(p: Seq<u8>, q: Seq<u8>, g: Seq<u8>, y: Seq<u8>)
    requires
        p.len() <= MAX_FIELD_LEN,
        q.len() <= MAX_FIELD_LEN,
        g.len() <= MAX_FIELD_LEN,
        y.len() <= MAX_FIELD_LEN,
    ensures
        ({
            let b = pubkey_blob_spec(PublicKeyData::Dsa { p, q, g, y });
            let pre = string_spec(ssh_dss_name()) + string_spec(p) + string_spec(q) + string_spec(
                g,
            );
            string_at(b, pre.len() as int) == Some((y, b.len() as int))
        }),
{
    let b = pubkey_blob_spec(PublicKeyData::Dsa { p, q, g, y });
    let empty = Seq::<u8>::empty();
    let pre = string_spec(ssh_dss_name()) + string_spec(p) + string_spec(q) + string_spec(g);
    crate::sshbuf::lemma_string_at_concat(pre, y, empty);
    assert(pre + string_spec(y) + empty =~= b);
    assert(pre.len() + 4 + y.len() == b.len());
}

/// Decoding a DSA public key blob undoes encoding it.
#[verifier::rlimit(100)]
proof fn lemma_pubkey_round_trip_dsa(p: Seq<u8>, q: Seq<u8>, g: Seq<u8>, y: Seq<u8>)
    requires
        p.len() <= MAX_FIELD_LEN,
        q.len() <= MAX_FIELD_LEN,
        g.len() <= MAX_FIELD_LEN,
        y.len() <= MAX_FIELD_LEN,
    ensures
        decode_pubkey_result(pubkey_blob_spec(PublicKeyData::Dsa { p, q, g, y })) == Ok::<
            PublicKeyData,
            ErrorKind,
        >(PublicKeyData::Dsa { p, q, g, y }),
{
    let b = pubkey_blob_spec(PublicKeyData::Dsa { p, q, g, y });
    let l0 = string_spec(ssh_dss_name()).len() as int;
    assert(decode_dsa_tail(b, l0) == Ok::<PublicKeyData, ErrorKind>(
        PublicKeyData::Dsa { p, q, g, y },
    )) by {
        reveal(decode_dsa_tail);
        lemma_dsa_blob_field1(p, q, g, y);
        lemma_dsa_blob_field2(p, q, g, y);
        lemma_dsa_blob_field3(p, q, g, y);
        lemma_dsa_blob_field4(p, q, g, y);
        assert((string_spec(ssh_dss_name()) + string_spec(p)).len() == string_spec(
            ssh_dss_name(),
        ).len() + 4 + p.len());
        assert((string_spec(ssh_dss_name()) + string_spec(p) + string_spec(q)).len() == (
        string_spec(ssh_dss_name()) + string_spec(p)).len() + 4 + q.len());
        assert((string_spec(ssh_dss_name()) + string_spec(p) + string_spec(q) + string_spec(
            g,
        )).len() == (string_spec(ssh_dss_name()) + string_spec(p) + string_spec(q)).len() + 4
            + g.len());
    }
    assert(decode_pubkey_result(b) == decode_dsa_tail(b, l0)) by {
        lemma_dsa_blob_field0(p, q, g, y);
        assert(ssh_dss_name() != ssh_rsa_name()) by {
            assert(ssh_dss_name()[4] != ssh_rsa_name()[4]);
        }
    }
}

/// Decoding an ECDSA public key blob undoes encoding it.
#[verifier::rlimit(100)]
proof fn lemma_pubkey_round_trip_ecdsa(curve: EcCurve, point: Seq<u8>)
    requires
        point.len() <= MAX_FIELD_LEN,
    ensures
        decode_pubkey_result(pubkey_blob_spec(PublicKeyData::Ecdsa { curve, point })) == Ok::<
            PublicKeyData,
            ErrorKind,
        >(PublicKeyData::Ecdsa { curve, point }),
{
    reveal(decode_ecdsa_tail);
    let k = PublicKeyData::Ecdsa { curve, point };
    let b = pubkey_blob_spec(k);
    let empty = Seq::<u8>::empty();
    let name = ecdsa_name_spec(curve);
    assert(name != ssh_rsa_name() && name != ssh_dss_name()) by {
        assert(ecdsa_name_spec(curve).len() == 19);
    }
    crate::sshbuf::lemma_string_at_concat(
        empty,
        name,
        string_spec(curve_name_spec(curve)) + string_spec(point),
    );
    assert(empty + string_spec(name) + (string_spec(curve_name_spec(curve)) + string_spec(point))
        =~= b);
    crate::sshbuf::lemma_string_at_concat(
        string_spec(name),
        curve_name_spec(curve),
        string_spec(point),
    );
    assert(string_spec(name) + string_spec(curve_name_spec(curve)) + string_spec(point) =~= b);
    crate::sshbuf::lemma_string_at_concat(
        string_spec(name) + string_spec(curve_name_spec(curve)),
        point,
        empty,
    );
    assert(string_spec(name) + string_spec(curve_name_spec(curve)) + string_spec(point) + empty
        =~= b);
    match curve {
        EcCurve::Nistp256 => {
            assert(name != ecdsa_name_spec(EcCurve::Nistp384) && name != ecdsa_name_spec(
                EcCurve::Nistp521,
            )) by {
                assert(ecdsa_name_spec(EcCurve::Nistp256)[16] != ecdsa_name_spec(
                    EcCurve::Nistp384,
                )[16]);
                assert(ecdsa_name_spec(EcCurve::Nistp256)[16] != ecdsa_name_spec(
                    EcCurve::Nistp521,
                )[16]);
            }
        },
        EcCurve::Nistp384 => {
            assert(name != ecdsa_name_spec(EcCurve::Nistp256) && name != ecdsa_name_spec(
                EcCurve::Nistp521,
            )) by {
                assert(ecdsa_name_spec(EcCurve::Nistp384)[16] != ecdsa_name_spec(
                    EcCurve::Nistp256,
                )[16]);
                assert(ecdsa_name_spec(EcCurve::Nistp384)[17] != ecdsa_name_spec(
                    EcCurve::Nistp521,
                )[17]);
            }
        },
        EcCurve::Nistp521 => {
            assert(name != ecdsa_name_spec(EcCurve::Nistp256) && name != ecdsa_name_spec(
                EcCurve::Nistp384,
            )) by {
                assert(ecdsa_name_spec(EcCurve::Nistp521)[16] != ecdsa_name_spec(
                    EcCurve::Nistp256,
                )[16]);
                assert(ecdsa_name_spec(EcCurve::Nistp521)[17] != ecdsa_name_spec(
                    EcCurve::Nistp384,
                )[17]);
            }
        },
    }
}

/// Decoding an Ed25519 public key blob undoes encoding it.
#[verifier::rlimit(100)]
#[verifier::spinoff_prover]
proof fn lemma_pubkey_round_trip_ed25519(pk: Seq<u8>)
    requires
        pk.len() == 32,
    ensures
        decode_pubkey_result(pubkey_blob_spec(PublicKeyData::Ed25519 { pk })) == Ok::<
            PublicKeyData,
            ErrorKind,
        >(PublicKeyData::Ed25519 { pk }),
{
    reveal(decode_ed25519_tail);
    let k = PublicKeyData::Ed25519 { pk };
    let b = pubkey_blob_spec(k);
    let empty = Seq::<u8>::empty();
    let name = ssh_ed25519_name();
    assert(name != ssh_rsa_name() && name != ssh_dss_name()) by {
        assert(ssh_ed25519_name().len() == 11);
    }
    assert(name != ecdsa_name_spec(EcCurve::Nistp256) && name != ecdsa_name_spec(EcCurve::Nistp384)
        && name != ecdsa_name_spec(EcCurve::Nistp521)) by {
        assert(ssh_ed25519_name().len() == 11);
        assert(ecdsa_name_spec(EcCurve::Nistp256).len() == 19);
        assert(ecdsa_name_spec(EcCurve::Nistp384).len() == 19);
        assert(ecdsa_name_spec(EcCurve::Nistp521).len() == 19);
    }
    crate::sshbuf::lemma_string_at_concat(empty, name, string_spec(pk));
    assert(empty + string_spec(name) + string_spec(pk) =~= b);
    crate::sshbuf::lemma_string_at_concat(string_spec(name), pk, empty);
    assert(string_spec(name) + string_spec(pk) + empty =~= b);
}

/// Decoding a public key blob undoes encoding it.
pub proof fn lemma_pubkey_round_trip(k: PublicKeyData)
    requires
        pk_fits(k),
    ensures
        decode_pubkey_result(pubkey_blob_spec(k)) == Ok::<PublicKeyData, ErrorKind>(k),
{
    match k {
        PublicKeyData::Rsa { n, e } => lemma_pubkey_round_trip_rsa(n, e),
        PublicKeyData::Dsa { p, q, g, y } => lemma_pubkey_round_trip_dsa(p, q, g, y),
        PublicKeyData::Ecdsa { curve, point } => lemma_pubkey_round_trip_ecdsa(curve, point),
        PublicKeyData::Ed25519 { pk } => lemma_pubkey_round_trip_ed25519(pk),
    }
}

} // verus!
