//! The native OpenSSH private key container: magic header, cipher and KDF
//! negotiation, an embedded public key blob, and a checksum-guarded,
//! optionally encrypted payload holding the private fields and padding.

use vstd::prelude::*;
use crate::cipher::{
    bcrypt_hash, bcrypt_derive, block_size_spec, cipher_from_name, cipher_name_spec, decrypt_spec,
    encrypt_spec, iv_len_spec, key_len_spec, lemma_cipher_from_name, lemma_stream_round_trip,
    wipe, Cipher,
};
use crate::error::{Error, ErrorKind};
use crate::keys::{
    kp_fits, public_data_of, DsaKeyPair, EcDsaKeyPair, Ed25519KeyPair, KeyPair, KeyPairData,
    KeyPairType, PublicKey, PublicKeyData, PublicKeyType, RsaKeyPair, MAX_FIELD_LEN,
};
use crate::format::ossh_pubkey::{
    curve_name_bytes, curve_name_spec, decode_ossh_pubkey, decode_pubkey_result, encode_ossh_pubkey,
    keyname_bytes, keyname_spec, lemma_pubkey_round_trip, pubkey_blob_spec,
};
use crate::sshbuf::{
    all_fit, bytes_eq, be32_bytes, cat_strings, put_string, put_u32, read_string, read_strings,
    read_u32, string_at, string_spec, strings_at, u32_at,
};
use vstd::slice::slice_subrange;
use vstd::string::StringSliceAdditionalSpecFns;

verus! {

broadcast use crate::sshbuf::lemma_string_spec_len;


/// The magic preamble "openssh-key-v1" with its terminating NUL.
pub open spec fn magic_spec() -> Seq<u8> {
    seq![111u8, 112, 101, 110, 115, 115, 104, 45, 107, 101, 121, 45, 118, 49, 0]
}

/// The KDF name "bcrypt".
pub open spec fn bcrypt_name() -> Seq<u8> {
    seq![98u8, 99, 114, 121, 112, 116]
}

/// The KDF name "none", equal to the null cipher's name.
pub open spec fn none_name() -> Seq<u8> {
    cipher_name_spec(Cipher::Null)
}

/// The round count used when this library encrypts a container.
pub const DEFAULT_ROUNDS: u32 = 16;

/// The salt length used when this library encrypts a container.
pub const SALT_LEN: usize = 16;

/// The padding the payload ends with: the bytes 1, 2, ..., n.
pub open spec fn padding_spec(n: nat) -> Seq<u8> {
    Seq::new(n, |i: int| (i + 1) as u8)
}

/// A passphrase argument counts only when it is present and non-empty.
pub open spec fn pass_present(pass: Option<Seq<u8>>) -> bool {
    match pass {
        Some(pw) => pw.len() > 0,
        None => false,
    }
}

/// The private fields of a key, as the row of length-prefixed strings the
/// payload carries after the key type name.
pub open spec fn privfields_of(k: KeyPairData) -> Seq<Seq<u8>> {
    match k {
        KeyPairData::Rsa { n, e, d, iqmp, p, q } => seq![n, e, d, iqmp, p, q],
        KeyPairData::Dsa { p, q, g, y, x } => seq![p, q, g, y, x],
        KeyPairData::Ecdsa { curve, point, scalar } => seq![
            curve_name_spec(curve),
            point,
            scalar,
        ],
        KeyPairData::Ed25519 { pk, sk } => seq![pk, sk],
    }
}

/// The key type name, private fields and comment of the payload, as one
/// row of length-prefixed strings.
pub open spec fn payload_strings(k: KeyPairData, comment: Seq<u8>) -> Seq<Seq<u8>> {
    seq![keyname_spec(public_data_of(k))] + privfields_of(k) + seq![comment]
}

/// The decrypted payload: the repeated checksum, the key material and the
/// padding.
pub open spec fn payload_spec(k: KeyPairData, check: u32, comment: Seq<u8>, padlen: nat) -> Seq<
    u8,
> {
    be32_bytes(check) + be32_bytes(check) + cat_strings(payload_strings(k, comment))
        + padding_spec(padlen)
}

/// The assembled container around an already-encrypted payload.
pub open spec fn container_spec(
    ciphername: Seq<u8>,
    kdfname: Seq<u8>,
    kdfopts: Seq<u8>,
    pubblob: Seq<u8>,
    payload: Seq<u8>,
) -> Seq<u8> {
    magic_spec() + cat_strings(seq![ciphername, kdfname, kdfopts]) + be32_bytes(1) + cat_strings(
        seq![pubblob, payload],
    )
}

/// The KDF options blob bcrypt uses: a salt and a round count.
pub open spec fn kdfopts_spec(salt: Seq<u8>, rounds: u32) -> Seq<u8> {
    string_spec(salt) + be32_bytes(rounds)
}

/// What splitting a container into its fields yields: cipher name, KDF
/// name, KDF options, public key blob and payload, or the failure's kind.
#[verifier::opaque]
pub open spec fn parse_container(b: Seq<u8>) -> Result<
    (Seq<u8>, Seq<u8>, Seq<u8>, Seq<u8>, Seq<u8>),
    ErrorKind,
> {
    if b.len() < 15 || b.subrange(0, 15) != magic_spec() {
        Err(ErrorKind::InvalidKeyFormat)
    } else {
        match strings_at(b, 15, 3) {
            None => Err(ErrorKind::IOError),
            Some((hdr, p)) => match u32_at(b, p) {
                None => Err(ErrorKind::IOError),
                Some((nkeys, p2)) => {
                    if nkeys != 1 {
                        Err(ErrorKind::InvalidFormat)
                    } else {
                        match strings_at(b, p2, 2) {
                            None => Err(ErrorKind::IOError),
                            Some((body, q)) => {
                                if q != b.len() {
                                    Err(ErrorKind::InvalidKeyFormat)
                                } else {
                                    Ok((hdr[0], hdr[1], hdr[2], body[0], body[1]))
                                }
                            },
                        }
                    }
                },
            },
        }
    }
}

/// What parsing the bcrypt KDF options yields: the salt and round count.
#[verifier::opaque]
pub open spec fn parse_kdfopts(o: Seq<u8>) -> Result<(Seq<u8>, u32), ErrorKind> {
    match string_at(o, 0) {
        None => Err(ErrorKind::InvalidKeyFormat),
        Some((salt, p)) => match u32_at(o, p) {
            None => Err(ErrorKind::InvalidKeyFormat),
            Some((rounds, q)) => {
                if q != o.len() || salt.len() == 0 || rounds == 0 {
                    Err(ErrorKind::InvalidKeyFormat)
                } else {
                    Ok((salt, rounds))
                }
            },
        },
    }
}

/// Whether the bytes from `pos` to the end are the exact padding sequence
/// 1, 2, 3, ... and shorter than the block size.
pub open spec fn padding_ok(pl: Seq<u8>, pos: int, block: nat) -> bool {
    &&& 0 <= pos <= pl.len()
    &&& pl.len() - pos < block
    &&& forall|i: int| 0 <= i < pl.len() - pos ==> #[trigger] pl[pos + i] == (i + 1) as u8
}

/// Whether the 64 bytes form a consistent Ed25519 keypair: the public
/// half derives from the seed half.
pub uninterp spec fn ed25519_consistent(sk: Seq<u8>) -> bool;

/// Relies on ed25519_dalek::SigningKey::from_keypair_bytes: whether the 64
/// bytes are accepted depends on the bytes alone; it checks that the
/// public half matches the seed.
#[verifier::external_body]
fn ed25519_keypair_ok(sk: &[u8]) -> (r: bool)
    requires
        sk@.len() == 64,
    ensures
        r == ed25519_consistent(sk@),
{
    match <&[u8; 64]>::try_from(sk) {
        Ok(a) => ed25519_dalek::SigningKey::from_keypair_bytes(a).is_ok(),
        Err(_) => false,
    }
}

/// Relies on openssl::rand::rand_bytes: it fills the buffer with random
/// bytes; nothing is promised of the values. Lengths above `c_int::MAX`
/// are excluded, since the call asserts on them.
#[verifier::external_body]
fn random_bytes(n: usize) -> (r: Result<Vec<u8>, ()>)
    requires
        n <= 0x7fff_ffff,
    ensures
        match r {
            Ok(v) => v@.len() == n,
            Err(_) => true,
        },
{
    let mut b = vec![0u8; n];
    match openssl::rand::rand_bytes(&mut b) {
        Ok(_) => Ok(b),
        Err(_) => Err(()),
    }
}

/// The provider-level consistency a key pair must satisfy beyond its
/// field lengths; only Ed25519 carries such a condition.
pub open spec fn provider_ok(k: KeyPairData) -> bool {
    match k {
        KeyPairData::Ed25519 { pk, sk } => sk.len() == 64 && pk == sk.subrange(32, 64)
            && ed25519_consistent(sk),
        _ => true,
    }
}

/// What parsing a decrypted payload against the embedded public key's
/// algorithm yields: the key pair's content, or the failure's kind.
#[verifier::opaque]
pub open spec fn parse_plain(pl: Seq<u8>, pkd: PublicKeyData, block: nat) -> Result<
    KeyPairData,
    ErrorKind,
> {
    match u32_at(pl, 0) {
        None => Err(ErrorKind::IOError),
        Some((c1, _)) => match u32_at(pl, 4) {
            None => Err(ErrorKind::IOError),
            Some((c2, _)) => {
                if c1 != c2 {
                    Err(ErrorKind::IncorrectPass)
                } else {
                    let count: nat = match pkd {
                        PublicKeyData::Rsa { .. } => 8,
                        PublicKeyData::Dsa { .. } => 7,
                        PublicKeyData::Ecdsa { .. } => 5,
                        PublicKeyData::Ed25519 { .. } => 4,
                    };
                    match strings_at(pl, 8, count) {
                        None => Err(ErrorKind::IOError),
                        Some((ss, pos)) => {
                            if ss[0] != keyname_spec(pkd) {
                                Err(ErrorKind::InvalidKeyFormat)
                            } else if !padding_ok(pl, pos, block) {
                                Err(ErrorKind::InvalidKeyFormat)
                            } else {
                                parse_plain_fields(ss, pkd)
                            }
                        },
                    }
                }
            },
        },
    }
}

/// The key pair built from the payload's string row, after the row's
/// shape was accepted.
pub open spec fn parse_plain_fields(ss: Seq<Seq<u8>>, pkd: PublicKeyData) -> Result<
    KeyPairData,
    ErrorKind,
> {
    match pkd {
        PublicKeyData::Rsa { .. } => {
            if ss[1].len() > MAX_FIELD_LEN || ss[2].len() > MAX_FIELD_LEN || ss[3].len()
                > MAX_FIELD_LEN || ss[4].len() > MAX_FIELD_LEN || ss[5].len() > MAX_FIELD_LEN
                || ss[6].len() > MAX_FIELD_LEN {
                Err(ErrorKind::InvalidKeySize)
            } else {
                Ok(KeyPairData::Rsa {
                    n: ss[1],
                    e: ss[2],
                    d: ss[3],
                    iqmp: ss[4],
                    p: ss[5],
                    q: ss[6],
                })
            }
        },
        PublicKeyData::Dsa { .. } => {
            if ss[1].len() > MAX_FIELD_LEN || ss[2].len() > MAX_FIELD_LEN || ss[3].len()
                > MAX_FIELD_LEN || ss[4].len() > MAX_FIELD_LEN || ss[5].len() > MAX_FIELD_LEN {
                Err(ErrorKind::InvalidKeySize)
            } else {
                Ok(KeyPairData::Dsa { p: ss[1], q: ss[2], g: ss[3], y: ss[4], x: ss[5] })
            }
        },
        PublicKeyData::Ecdsa { curve, .. } => {
            if ss[1] != curve_name_spec(curve) {
                Err(ErrorKind::UnsupportCurve)
            } else if ss[2].len() > MAX_FIELD_LEN || ss[3].len() > MAX_FIELD_LEN {
                Err(ErrorKind::InvalidKeySize)
            } else {
                Ok(KeyPairData::Ecdsa { curve, point: ss[2], scalar: ss[3] })
            }
        },
        PublicKeyData::Ed25519 { .. } => {
            if ss[1].len() != 32 || ss[2].len() != 64 || ss[1] != ss[2].subrange(32, 64) {
                Err(ErrorKind::InvalidKey)
            } else if !ed25519_consistent(ss[2]) {
                Err(ErrorKind::InvalidKey)
            } else {
                Ok(KeyPairData::Ed25519 { pk: ss[1], sk: ss[2] })
            }
        },
    }
}

/// What decoding a native container with an optional passphrase yields:
/// the key pair's content, or the kind of the failure. An empty
/// passphrase counts as absent.
pub open spec fn decode_ossh_result(b: Seq<u8>, pass: Option<Seq<u8>>) -> Result<
    KeyPairData,
    ErrorKind,
> {
    match parse_container(b) {
        Err(k) => Err(k),
        Ok((ciphername, kdfname, kdfopts, pubblob, payload)) => match decode_pubkey_result(
            pubblob,
        ) {
            Err(k) => Err(k),
            Ok(pkd) => match cipher_from_name(ciphername) {
                None => Err(ErrorKind::UnsupportCipher),
                Some(c) => {
                    if c is Null {
                        if kdfname != none_name() || kdfopts.len() != 0 {
                            Err(ErrorKind::InvalidKeyFormat)
                        } else if pass_present(pass) {
                            Err(ErrorKind::IncorrectPass)
                        } else {
                            parse_plain(payload, pkd, 8)
                        }
                    } else {
                        if kdfname == none_name() {
                            Err(ErrorKind::InvalidKeyFormat)
                        } else if kdfname != bcrypt_name() {
                            Err(ErrorKind::UnsupportCipher)
                        } else if !pass_present(pass) {
                            Err(ErrorKind::InvalidArgument)
                        } else {
                            match parse_kdfopts(kdfopts) {
                                Err(k) => Err(k),
                                Ok((salt, rounds)) => {
                                    let klen = key_len_spec(c);
                                    let ivlen = iv_len_spec(c);
                                    let dk = bcrypt_hash(
                                        pass.unwrap(),
                                        salt,
                                        rounds,
                                        klen + ivlen,
                                    );
                                    let key = dk.subrange(0, klen as int);
                                    let iv = dk.subrange(klen as int, (klen + ivlen) as int);
                                    match decrypt_spec(c, key, iv, payload) {
                                        None => Err(ErrorKind::IncorrectPass),
                                        Some(plain) => parse_plain(
                                            plain,
                                            pkd,
                                            block_size_spec(c),
                                        ),
                                    }
                                },
                            }
                        }
                    }
                },
            },
        },
    }
}

/// The magic preamble as bytes.
fn magic_bytes() -> (r: Vec<u8>)
    ensures
        r@ == magic_spec(),
{
    let mut v: Vec<u8> = Vec::new();
    v.push(111);
    v.push(112);
    v.push(101);
    v.push(110);
    v.push(115);
    v.push(115);
    v.push(104);
    v.push(45);
    v.push(107);
    v.push(101);
    v.push(121);
    v.push(45);
    v.push(118);
    v.push(49);
    v.push(0);
    proof {
        assert(v@ =~= magic_spec());
    }
    v
}

/// The KDF name "bcrypt" as bytes.
fn bcrypt_name_bytes() -> (r: Vec<u8>)
    ensures
        r@ == bcrypt_name(),
{
    let mut v: Vec<u8> = Vec::new();
    v.push(98);
    v.push(99);
    v.push(114);
    v.push(121);
    v.push(112);
    v.push(116);
    proof {
        assert(v@ =~= bcrypt_name());
    }
    v
}

/// The view of an optional passphrase's bytes.
pub open spec fn pass_view(passphrase: Option<&str>) -> Option<Seq<u8>> {
    match passphrase {
        Some(s) => Some(s.spec_bytes()),
        None => None,
    }
}

/// Decode a native OpenSSH private key container.
///
/// The byte buffer is the container after the PEM armor was removed. A
/// checksum mismatch after decryption is reported as an incorrect
/// passphrase; a wrong passphrase and corrupted data cannot be told
/// apart. An unencrypted container rejects a non-empty passphrase, and an
/// encrypted one demands it.
pub fn decode_ossh_priv(data: &[u8], passphrase: Option<&str>) -> (r: Result<KeyPair, Error>)
    ensures
        match r {
            Ok(kp) => decode_ossh_result(data@, pass_view(passphrase)) == Ok::<
                KeyPairData,
                ErrorKind,
            >(kp@) && kp_fits(kp@) && provider_ok(kp@),
            Err(e) => decode_ossh_result(data@, pass_view(passphrase)) == Err::<
                KeyPairData,
                ErrorKind,
            >(e.kind),
        },
{
    proof {
        reveal(parse_container);
        reveal(parse_kdfopts);
    }
    let pass: Option<&[u8]> = match passphrase {
        Some(s) => Some(s.as_bytes()),
        None => None,
    };
    let magic = magic_bytes();
    if data.len() < 15 || !bytes_eq(slice_subrange(data, 0, 15), magic.as_slice()) {
        return Err(Error::from_kind(ErrorKind::InvalidKeyFormat));
    }
    let (hdr, p) = match read_strings(data, 15, 3) {
        Some(v) => v,
        None => {
            return Err(Error::from_kind(ErrorKind::IOError));
        },
    };
    let (nkeys, p2) = match read_u32(data, p) {
        Some(v) => v,
        None => {
            return Err(Error::from_kind(ErrorKind::IOError));
        },
    };
    if nkeys != 1 {
        return Err(Error::from_kind(ErrorKind::InvalidFormat));
    }
    let (body, q) = match read_strings(data, p2, 2) {
        Some(v) => v,
        None => {
            return Err(Error::from_kind(ErrorKind::IOError));
        },
    };
    if q != data.len() {
        return Err(Error::from_kind(ErrorKind::InvalidKeyFormat));
    }
    let ciphername = &hdr[0];
    let kdfname = &hdr[1];
    let kdfopts = &hdr[2];
    let pubblob = &body[0];
    let payload = &body[1];
    proof {
        assert(hdr@.map_values(|v: Vec<u8>| v@)[0] == hdr@[0]@);
        assert(hdr@.map_values(|v: Vec<u8>| v@)[1] == hdr@[1]@);
        assert(hdr@.map_values(|v: Vec<u8>| v@)[2] == hdr@[2]@);
        assert(body@.map_values(|v: Vec<u8>| v@)[0] == body@[0]@);
        assert(body@.map_values(|v: Vec<u8>| v@)[1] == body@[1]@);
    }
    let pk = match decode_ossh_pubkey(pubblob.as_slice()) {
        Ok(v) => v,
        Err(e) => {
            return Err(e);
        },
    };
    let cipher = match Cipher::from_name(ciphername.as_slice()) {
        Ok(c) => c,
        Err(e) => {
            return Err(e);
        },
    };
    let none_nm = Cipher::Null.name_bytes();
    let bcrypt_nm = bcrypt_name_bytes();
    let pass_given = match pass {
        Some(pw) => pw.len() > 0,
        None => false,
    };
    if cipher.is_null() {
        if !bytes_eq(kdfname.as_slice(), none_nm.as_slice()) || kdfopts.len() != 0 {
            return Err(Error::from_kind(ErrorKind::InvalidKeyFormat));
        }
        if pass_given {
            return Err(Error::from_kind(ErrorKind::IncorrectPass));
        }
        decode_payload(payload.as_slice(), &pk, 8)
    } else {
        if bytes_eq(kdfname.as_slice(), none_nm.as_slice()) {
            return Err(Error::from_kind(ErrorKind::InvalidKeyFormat));
        }
        if !bytes_eq(kdfname.as_slice(), bcrypt_nm.as_slice()) {
            return Err(Error::from_kind(ErrorKind::UnsupportCipher));
        }
        let pw: &[u8] = match pass {
            Some(pw) => {
                if pw.len() == 0 {
                    return Err(Error::from_kind(ErrorKind::InvalidArgument));
                }
                pw
            },
            None => {
                return Err(Error::from_kind(ErrorKind::InvalidArgument));
            },
        };
        let (salt, sp) = match read_string(kdfopts.as_slice(), 0) {
            Some(v) => v,
            None => {
                return Err(Error::from_kind(ErrorKind::InvalidKeyFormat));
            },
        };
        let (rounds, sq) = match read_u32(kdfopts.as_slice(), sp) {
            Some(v) => v,
            None => {
                return Err(Error::from_kind(ErrorKind::InvalidKeyFormat));
            },
        };
        if sq != kdfopts.len() || salt.len() == 0 || rounds == 0 {
            return Err(Error::from_kind(ErrorKind::InvalidKeyFormat));
        }
        let klen = cipher.key_len();
        let ivlen = cipher.iv_len();
        let mut dk = bcrypt_derive(pw, salt.as_slice(), rounds, klen + ivlen);
        let r = {
            let key = slice_subrange(dk.as_slice(), 0, klen);
            let iv = slice_subrange(dk.as_slice(), klen, klen + ivlen);
            cipher.decrypt(payload.as_slice(), key, iv)
        };
        wipe(&mut dk);
        match r {
            Ok(mut plain) => {
                let out = decode_payload(plain.as_slice(), &pk, cipher.block_size());
                wipe(&mut plain);
                out
            },
            Err(_) => Err(Error::from_kind(ErrorKind::IncorrectPass)),
        }
    }
}

/// Parse a decrypted payload against the embedded public key's algorithm.
#[verifier::loop_isolation(false)]
fn decode_payload(pl: &[u8], pk: &PublicKey, block: usize) -> (r: Result<KeyPair, Error>)
    requires
        block > 0,
    ensures
        match r {
            Ok(kp) => parse_plain(pl@, pk@, block as nat) == Ok::<KeyPairData, ErrorKind>(kp@)
                && kp_fits(kp@) && provider_ok(kp@),
            Err(e) => parse_plain(pl@, pk@, block as nat) == Err::<KeyPairData, ErrorKind>(e.kind),
        },
{
    proof {
        reveal(parse_plain);
    }
    let (c1, _) = match read_u32(pl, 0) {
        Some(v) => v,
        None => {
            return Err(Error::from_kind(ErrorKind::IOError));
        },
    };
    let (c2, _) = match read_u32(pl, 4) {
        Some(v) => v,
        None => {
            return Err(Error::from_kind(ErrorKind::IOError));
        },
    };
    if c1 != c2 {
        return Err(Error::from_kind(ErrorKind::IncorrectPass));
    }
    let count: usize = match &pk.key {
        PublicKeyType::RSA(_) => 8,
        PublicKeyType::DSA(_) => 7,
        PublicKeyType::ECDSA(_) => 5,
        PublicKeyType::ED25519(_) => 4,
    };
    let (ss, pos) = match read_strings(pl, 8, count) {
        Some(v) => v,
        None => {
            return Err(Error::from_kind(ErrorKind::IOError));
        },
    };
    proof {
        let f = |v: Vec<u8>| v@;
        assert forall|j: int| 0 <= j < ss@.len() implies #[trigger] ss@.map_values(f)[j]
            == ss@[j]@ by {}
    }
    let kname = keyname_bytes(pk);
    if !bytes_eq(ss[0].as_slice(), kname.as_slice()) {
        return Err(Error::from_kind(ErrorKind::InvalidKeyFormat));
    }
    // the padding must be the exact sequence 1, 2, 3, ... and shorter
    // than a block
    if pos > pl.len() || pl.len() - pos >= block {
        return Err(Error::from_kind(ErrorKind::InvalidKeyFormat));
    }
    let n = pl.len();
    let rem = n - pos;
    let mut i: usize = 0;
    while i < rem
        invariant
            pos + rem == n,
            n == pl@.len(),
            rem < block,
            i <= rem,
            forall|j: int| 0 <= j < i ==> #[trigger] pl@[pos + j] == (j + 1) as u8,
        decreases rem - i,
    {
        if pl[pos + i] != ((i + 1) as u8) {
            proof {
                assert(!padding_ok(pl@, pos as int, block as nat)) by {
                    assert(pl@[pos + i] != (i + 1) as u8);
                }
            }
            return Err(Error::from_kind(ErrorKind::InvalidKeyFormat));
        }
        i = i + 1;
    }
    proof {
        assert(padding_ok(pl@, pos as int, block as nat));
    }
    match &pk.key {
        PublicKeyType::RSA(_) => {
            if ss[1].len() > MAX_FIELD_LEN || ss[2].len() > MAX_FIELD_LEN || ss[3].len()
                > MAX_FIELD_LEN || ss[4].len() > MAX_FIELD_LEN || ss[5].len() > MAX_FIELD_LEN
                || ss[6].len() > MAX_FIELD_LEN {
                return Err(Error::from_kind(ErrorKind::InvalidKeySize));
            }
            let n = ss[1].clone();
            let e = ss[2].clone();
            let d = ss[3].clone();
            let iqmp = ss[4].clone();
            let p = ss[5].clone();
            let q = ss[6].clone();
            Ok(KeyPair { key: KeyPairType::RSA(RsaKeyPair { n, e, d, iqmp, p, q }) })
        },
        PublicKeyType::DSA(_) => {
            if ss[1].len() > MAX_FIELD_LEN || ss[2].len() > MAX_FIELD_LEN || ss[3].len()
                > MAX_FIELD_LEN || ss[4].len() > MAX_FIELD_LEN || ss[5].len() > MAX_FIELD_LEN {
                return Err(Error::from_kind(ErrorKind::InvalidKeySize));
            }
            let p = ss[1].clone();
            let q = ss[2].clone();
            let g = ss[3].clone();
            let y = ss[4].clone();
            let x = ss[5].clone();
            Ok(KeyPair { key: KeyPairType::DSA(DsaKeyPair { p, q, g, y, x }) })
        },
        PublicKeyType::ECDSA(ec) => {
            let cname = curve_name_bytes(ec.curve);
            if !bytes_eq(ss[1].as_slice(), cname.as_slice()) {
                return Err(Error::from_kind(ErrorKind::UnsupportCurve));
            }
            if ss[2].len() > MAX_FIELD_LEN || ss[3].len() > MAX_FIELD_LEN {
                return Err(Error::from_kind(ErrorKind::InvalidKeySize));
            }
            let point = ss[2].clone();
            let scalar = ss[3].clone();
            Ok(KeyPair {
                key: KeyPairType::ECDSA(EcDsaKeyPair { curve: ec.curve, point, scalar }),
            })
        },
        PublicKeyType::ED25519(_) => {
            if ss[1].len() != 32 || ss[2].len() != 64 {
                return Err(Error::from_kind(ErrorKind::InvalidKey));
            }
            {
                let skref = &ss[2];
                let pkref = &ss[1];
                if !bytes_eq(slice_subrange(skref.as_slice(), 32, 64), pkref.as_slice()) {
                    return Err(Error::from_kind(ErrorKind::InvalidKey));
                }
                if !ed25519_keypair_ok(skref.as_slice()) {
                    return Err(Error::from_kind(ErrorKind::InvalidKey));
                }
            }
            let pk2 = ss[1].clone();
            let sk = ss[2].clone();
            Ok(KeyPair { key: KeyPairType::ED25519(Ed25519KeyPair { pk: pk2, sk }) })
        },
    }
}

/// A row of two strings, written out.
pub proof fn lemma_cat2(a: Seq<u8>, b: Seq<u8>)
    ensures
        cat_strings(seq![a, b]) == string_spec(a) + string_spec(b),
{
    let xs = seq![a, b];
    assert(xs.drop_first() =~= seq![b]);
    assert(seq![b].drop_first() =~= Seq::<Seq<u8>>::empty());
    assert(cat_strings(seq![b]) == string_spec(b) + cat_strings(Seq::<Seq<u8>>::empty()));
    assert(string_spec(b) + Seq::<u8>::empty() =~= string_spec(b));
    assert(cat_strings(xs) == string_spec(a) + string_spec(b));
}

/// A row of three strings, written out.
pub proof fn lemma_cat3(a: Seq<u8>, b: Seq<u8>, c: Seq<u8>)
    ensures
        cat_strings(seq![a, b, c]) == string_spec(a) + (string_spec(b) + string_spec(c)),
{
    let xs = seq![a, b, c];
    assert(xs.drop_first() =~= seq![b, c]);
    lemma_cat2(b, c);
    assert(cat_strings(xs) == string_spec(a) + (string_spec(b) + string_spec(c)));
}

/// The payload's string row, written out per algorithm.
pub proof fn lemma_payload_strings_cat(k: KeyPairData, comment: Seq<u8>)
    ensures
        cat_strings(payload_strings(k, comment)) == match k {
            KeyPairData::Rsa { n, e, d, iqmp, p, q } => string_spec(
                keyname_spec(public_data_of(k)),
            ) + (string_spec(n) + (string_spec(e) + (string_spec(d) + (string_spec(iqmp) + (
            string_spec(p) + (string_spec(q) + string_spec(comment))))))),
            KeyPairData::Dsa { p, q, g, y, x } => string_spec(keyname_spec(public_data_of(k))) + (
            string_spec(p) + (string_spec(q) + (string_spec(g) + (string_spec(y) + (string_spec(x)
                + string_spec(comment)))))),
            KeyPairData::Ecdsa { curve, point, scalar } => string_spec(
                keyname_spec(public_data_of(k)),
            ) + (string_spec(curve_name_spec(curve)) + (string_spec(point) + (string_spec(scalar)
                + string_spec(comment)))),
            KeyPairData::Ed25519 { pk, sk } => string_spec(keyname_spec(public_data_of(k))) + (
            string_spec(pk) + (string_spec(sk) + string_spec(comment))),
        },
{
    reveal_with_fuel(cat_strings, 10);
    let kname = keyname_spec(public_data_of(k));
    let xs = payload_strings(k, comment);
    match k {
        KeyPairData::Rsa { n, e, d, iqmp, p, q } => {
            assert(xs =~= seq![kname, n, e, d, iqmp, p, q, comment]);
            assert(xs.drop_first() =~= seq![n, e, d, iqmp, p, q, comment]);
            assert(seq![n, e, d, iqmp, p, q, comment].drop_first() =~= seq![
                e,
                d,
                iqmp,
                p,
                q,
                comment,
            ]);
            assert(seq![e, d, iqmp, p, q, comment].drop_first() =~= seq![d, iqmp, p, q, comment]);
            assert(seq![d, iqmp, p, q, comment].drop_first() =~= seq![iqmp, p, q, comment]);
            assert(seq![iqmp, p, q, comment].drop_first() =~= seq![p, q, comment]);
            assert(seq![p, q, comment].drop_first() =~= seq![q, comment]);
            lemma_cat2(q, comment);
        },
        KeyPairData::Dsa { p, q, g, y, x } => {
            assert(xs =~= seq![kname, p, q, g, y, x, comment]);
            assert(xs.drop_first() =~= seq![p, q, g, y, x, comment]);
            assert(seq![p, q, g, y, x, comment].drop_first() =~= seq![q, g, y, x, comment]);
            assert(seq![q, g, y, x, comment].drop_first() =~= seq![g, y, x, comment]);
            assert(seq![g, y, x, comment].drop_first() =~= seq![y, x, comment]);
            assert(seq![y, x, comment].drop_first() =~= seq![x, comment]);
            lemma_cat2(x, comment);
        },
        KeyPairData::Ecdsa { curve, point, scalar } => {
            let cn = curve_name_spec(curve);
            assert(xs =~= seq![kname, cn, point, scalar, comment]);
            assert(xs.drop_first() =~= seq![cn, point, scalar, comment]);
            assert(seq![cn, point, scalar, comment].drop_first() =~= seq![point, scalar, comment]);
            lemma_cat3(point, scalar, comment);
        },
        KeyPairData::Ed25519 { pk, sk } => {
            assert(xs =~= seq![kname, pk, sk, comment]);
            assert(xs.drop_first() =~= seq![pk, sk, comment]);
            lemma_cat3(pk, sk, comment);
        },
    }
}

/// The payload of a fitting key stays far below the length prefix limit.
pub proof fn lemma_payload_len(k: KeyPairData, chk: u32, comment: Seq<u8>, padlen: nat)
    requires
        kp_fits(k),
        comment.len() <= 1024,
        padlen <= 16,
    ensures
        payload_spec(k, chk, comment, padlen).len() <= 0x0700_0000,
{
    crate::sshbuf::lemma_be32_roundtrip(chk);
    lemma_payload_strings_cat(k, comment);
    match k {
        KeyPairData::Rsa { .. } => {
            assert(keyname_spec(public_data_of(k)).len() == 7);
        },
        KeyPairData::Dsa { .. } => {
            assert(keyname_spec(public_data_of(k)).len() == 7);
        },
        KeyPairData::Ecdsa { .. } => {
            assert(keyname_spec(public_data_of(k)).len() == 19);
        },
        KeyPairData::Ed25519 { .. } => {
            assert(keyname_spec(public_data_of(k)).len() == 11);
        },
    }
}

/// How a passphrase argument is taken: an empty one counts as absent.
pub open spec fn normalize_pass(pass: Option<Seq<u8>>) -> Option<Seq<u8>> {
    if pass_present(pass) {
        pass
    } else {
        None
    }
}

/// The padding length that brings the payload to a whole number of
/// blocks.
pub open spec fn pad_len(k: KeyPairData, comment: Seq<u8>, block: nat) -> nat
    recommends
        block > 0,
{
    let plen = (8 + cat_strings(payload_strings(k, comment)).len()) as int;
    (((block as int) - plen % (block as int)) % (block as int)) as nat
}

/// The container this library encodes for a key, a normalized passphrase,
/// a fresh checksum and a fresh salt. Without a passphrase the cipher and
/// KDF are "none"; with one they are AES-256-CTR and bcrypt.
pub open spec fn encode_ossh_spec(
    k: KeyPairData,
    pass: Option<Seq<u8>>,
    chk: u32,
    salt: Seq<u8>,
) -> Seq<u8> {
    let pubblob = pubkey_blob_spec(public_data_of(k));
    let comment = Seq::<u8>::empty();
    match pass {
        None => {
            let payload = payload_spec(k, chk, comment, pad_len(k, comment, 8));
            container_spec(none_name(), none_name(), Seq::empty(), pubblob, payload)
        },
        Some(pw) => {
            let c = Cipher::Aes256Ctr;
            let payload = payload_spec(k, chk, comment, pad_len(k, comment, 16));
            let dk = bcrypt_hash(pw, salt, DEFAULT_ROUNDS, 48);
            let enc = encrypt_spec(c, dk.subrange(0, 32), dk.subrange(32, 48), payload);
            container_spec(
                cipher_name_spec(c),
                bcrypt_name(),
                kdfopts_spec(salt, DEFAULT_ROUNDS),
                pubblob,
                enc,
            )
        },
    }
}

/// Encode a key pair into the native OpenSSH container.
///
/// Without a passphrase (or with an empty one) the payload is stored
/// plain under cipher and KDF "none"; with one it is encrypted with
/// AES-256-CTR under a bcrypt-derived key with a fresh random salt. The
/// checksum pair is freshly randomized on every call.
/// Build the plaintext payload: the checksum written twice, the key type
/// name, the private fields, an empty comment, and the 1, 2, 3, ...
/// padding that brings the length to a whole number of blocks.
#[verifier::rlimit(100)]
#[verifier::loop_isolation(false)]
fn build_payload(kp: &KeyPair, chk: u32, block: usize) -> (r: Vec<u8>)
    requires
        kp_fits(kp@),
        0 < block <= 16,
    ensures
        r@ == payload_spec(kp@, chk, Seq::<u8>::empty(), pad_len(kp@, Seq::<u8>::empty(), block as nat)),
{
    let pk = kp.public_key();
    let comment: Vec<u8> = Vec::new();
    let mut payload: Vec<u8> = Vec::new();
    put_u32(&mut payload, chk);
    put_u32(&mut payload, chk);
    let kname = keyname_bytes(&pk);
    put_string(&mut payload, kname.as_slice());
    match &kp.key {
        KeyPairType::RSA(k) => {
            put_string(&mut payload, k.n.as_slice());
            put_string(&mut payload, k.e.as_slice());
            put_string(&mut payload, k.d.as_slice());
            put_string(&mut payload, k.iqmp.as_slice());
            put_string(&mut payload, k.p.as_slice());
            put_string(&mut payload, k.q.as_slice());
        },
        KeyPairType::DSA(k) => {
            put_string(&mut payload, k.p.as_slice());
            put_string(&mut payload, k.q.as_slice());
            put_string(&mut payload, k.g.as_slice());
            put_string(&mut payload, k.y.as_slice());
            put_string(&mut payload, k.x.as_slice());
        },
        KeyPairType::ECDSA(k) => {
            let cn = curve_name_bytes(k.curve);
            put_string(&mut payload, cn.as_slice());
            put_string(&mut payload, k.point.as_slice());
            put_string(&mut payload, k.scalar.as_slice());
        },
        KeyPairType::ED25519(k) => {
            put_string(&mut payload, k.pk.as_slice());
            put_string(&mut payload, k.sk.as_slice());
        },
    }
    put_string(&mut payload, comment.as_slice());
    proof {
        lemma_payload_strings_cat(kp@, comment@);
        assert(payload@ =~= be32_bytes(chk) + be32_bytes(chk) + cat_strings(
            payload_strings(kp@, comment@),
        ));
    }
    let plen = payload.len();
    let padlen = (block - plen % block) % block;
    proof {
        crate::sshbuf::lemma_be32_roundtrip(chk);
        assert(plen == 8 + cat_strings(payload_strings(kp@, comment@)).len());
        assert(padlen as nat == pad_len(kp@, comment@, block as nat));
    }
    let mut i: usize = 0;
    while i < padlen
        invariant
            i <= padlen,
            padlen < block <= 16,
            payload@ == be32_bytes(chk) + be32_bytes(chk) + cat_strings(
                payload_strings(kp@, comment@),
            ) + padding_spec(i as nat),
        decreases padlen - i,
    {
        payload.push((i + 1) as u8);
        i = i + 1;
        assert(payload@ =~= be32_bytes(chk) + be32_bytes(chk) + cat_strings(
            payload_strings(kp@, comment@),
        ) + padding_spec(i as nat));
    }
    proof {
        assert(payload@ == payload_spec(kp@, chk, comment@, padlen as nat));
        assert(comment@ =~= Seq::<u8>::empty());
    }
    payload
}

/// Encode a key pair into the native OpenSSH container.
///
/// Without a passphrase (or with an empty one) the payload is stored
/// plain under cipher and KDF "none"; with one it is encrypted with
/// AES-256-CTR under a bcrypt-derived key with a fresh random salt. The
/// checksum pair is freshly randomized on every call.
#[verifier::rlimit(100)]
pub fn encode_ossh_priv(kp: &KeyPair, passphrase: Option<&str>) -> (r: Result<Vec<u8>, Error>)
    requires
        kp_fits(kp@),
    ensures
        match r {
            Ok(v) => exists|chk: u32, salt: Seq<u8>|
                salt.len() == SALT_LEN && v@ == encode_ossh_spec(
                    kp@,
                    normalize_pass(pass_view(passphrase)),
                    chk,
                    salt,
                ),
            Err(e) => e.kind == ErrorKind::OpenSslError,
        },
{
    let pass: Option<&[u8]> = match passphrase {
        Some(s) => {
            if s.as_bytes().len() > 0 {
                Some(s.as_bytes())
            } else {
                None
            }
        },
        None => None,
    };
    let pk = kp.public_key();
    proof {
        crate::keys::lemma_public_of_fits(kp@);
    }
    let pubblob = encode_ossh_pubkey(&pk);
    let chk = match random_bytes(4) {
        Ok(v) => match read_u32(v.as_slice(), 0) {
            Some((c, _)) => c,
            None => {
                return Err(Error::from_kind(ErrorKind::OpenSslError));
            },
        },
        Err(_) => {
            return Err(Error::from_kind(ErrorKind::OpenSslError));
        },
    };
    let block: usize = match pass {
        Some(_) => 16,
        None => 8,
    };
    let mut payload = build_payload(kp, chk, block);
    proof {
        lemma_payload_len(
            kp@,
            chk,
            Seq::<u8>::empty(),
            pad_len(kp@, Seq::<u8>::empty(), block as nat),
        );
    }
    let mut buf = magic_bytes();
    match pass {
        None => {
            let none_nm = Cipher::Null.name_bytes();
            put_string(&mut buf, none_nm.as_slice());
            put_string(&mut buf, none_nm.as_slice());
            let empty: Vec<u8> = Vec::new();
            put_string(&mut buf, empty.as_slice());
            put_u32(&mut buf, 1);
            put_string(&mut buf, pubblob.as_slice());
            put_string(&mut buf, payload.as_slice());
            proof {
                lemma_cat3(none_name(), none_name(), Seq::<u8>::empty());
                lemma_cat2(pubblob@, payload@);
                assert(buf@ =~= encode_ossh_spec(kp@, None, chk, Seq::empty()));
                let witness_salt = Seq::<u8>::new(SALT_LEN as nat, |i: int| 0u8);
                assert(encode_ossh_spec(kp@, None, chk, witness_salt) == encode_ossh_spec(
                    kp@,
                    None,
                    chk,
                    Seq::empty(),
                ));
                assert(witness_salt.len() == SALT_LEN);
            }
            Ok(buf)
        },
        Some(pw) => {
            let salt = match random_bytes(SALT_LEN) {
                Ok(v) => v,
                Err(_) => {
                    return Err(Error::from_kind(ErrorKind::OpenSslError));
                },
            };
            let cipher = Cipher::Aes256Ctr;
            let mut dk = bcrypt_derive(pw, salt.as_slice(), DEFAULT_ROUNDS, 48);
            let enc = {
                let key = slice_subrange(dk.as_slice(), 0, 32);
                let iv = slice_subrange(dk.as_slice(), 32, 48);
                match cipher.encrypt(payload.as_slice(), key, iv) {
                    Ok(v) => v,
                    Err(_) => {
                        return Err(Error::from_kind(ErrorKind::OpenSslError));
                    },
                }
            };
            wipe(&mut dk);
            wipe(&mut payload);
            let mut kdfopts: Vec<u8> = Vec::new();
            put_string(&mut kdfopts, salt.as_slice());
            put_u32(&mut kdfopts, DEFAULT_ROUNDS);
            proof {
                assert(kdfopts@ =~= kdfopts_spec(salt@, DEFAULT_ROUNDS));
            }
            let cipher_nm = cipher.name_bytes();
            let bcrypt_nm = bcrypt_name_bytes();
            put_string(&mut buf, cipher_nm.as_slice());
            put_string(&mut buf, bcrypt_nm.as_slice());
            put_string(&mut buf, kdfopts.as_slice());
            put_u32(&mut buf, 1);
            put_string(&mut buf, pubblob.as_slice());
            put_string(&mut buf, enc.as_slice());
            proof {
                lemma_cat3(
                    cipher_name_spec(Cipher::Aes256Ctr),
                    bcrypt_name(),
                    kdfopts_spec(salt@, DEFAULT_ROUNDS),
                );
                lemma_cat2(pubblob@, enc@);
                assert(buf@ =~= encode_ossh_spec(kp@, Some(pw@), chk, salt@));
                assert(salt@.len() == SALT_LEN);
            }
            Ok(buf)
        },
    }
}

/// The public key blob of a fitting key stays far below the length
/// prefix limit.
pub proof fn lemma_pubblob_len(k: KeyPairData)
    requires
        kp_fits(k),
    ensures
        pubkey_blob_spec(public_data_of(k)).len() <= 0x0700_0000,
{
    match public_data_of(k) {
        PublicKeyData::Rsa { .. } => {
            assert(crate::format::ossh_pubkey::ssh_rsa_name().len() == 7);
        },
        PublicKeyData::Dsa { .. } => {
            assert(crate::format::ossh_pubkey::ssh_dss_name().len() == 7);
        },
        PublicKeyData::Ecdsa { curve, .. } => {
            assert(crate::format::ossh_pubkey::ecdsa_name_spec(curve).len() == 19);
            assert(curve_name_spec(curve).len() == 8);
        },
        PublicKeyData::Ed25519 { .. } => {
            assert(crate::format::ossh_pubkey::ssh_ed25519_name().len() == 11);
        },
    }
}

/// The payload's string row has the field count its algorithm prescribes,
/// every entry short enough for its length prefix, and the expected
/// entries.
proof fn lemma_payload_strings_shape(k: KeyPairData, comment: Seq<u8>)
    requires
        kp_fits(k),
        comment.len() < 0x1_0000_0000,
    ensures
        all_fit(payload_strings(k, comment)),
        payload_strings(k, comment)[0] == keyname_spec(public_data_of(k)),
        payload_strings(k, comment).len() == match public_data_of(k) {
            PublicKeyData::Rsa { .. } => 8int,
            PublicKeyData::Dsa { .. } => 7int,
            PublicKeyData::Ecdsa { .. } => 5int,
            PublicKeyData::Ed25519 { .. } => 4int,
        },
{
    let kname = keyname_spec(public_data_of(k));
    let xs = payload_strings(k, comment);
    match k {
        KeyPairData::Rsa { n, e, d, iqmp, p, q } => {
            assert(xs =~= seq![kname, n, e, d, iqmp, p, q, comment]);
            assert(kname.len() == 7);
            assert forall|i: int| 0 <= i < xs.len() implies #[trigger] xs[i].len()
                < 0x1_0000_0000 by {}
        },
        KeyPairData::Dsa { p, q, g, y, x } => {
            assert(xs =~= seq![kname, p, q, g, y, x, comment]);
            assert(kname.len() == 7);
            assert forall|i: int| 0 <= i < xs.len() implies #[trigger] xs[i].len()
                < 0x1_0000_0000 by {}
        },
        KeyPairData::Ecdsa { curve, point, scalar } => {
            assert(xs =~= seq![kname, curve_name_spec(curve), point, scalar, comment]);
            assert(kname.len() == 19);
            assert(curve_name_spec(curve).len() == 8);
            assert forall|i: int| 0 <= i < xs.len() implies #[trigger] xs[i].len()
                < 0x1_0000_0000 by {}
        },
        KeyPairData::Ed25519 { pk, sk } => {
            assert(xs =~= seq![kname, pk, sk, comment]);
            assert(kname.len() == 11);
            assert forall|i: int| 0 <= i < xs.len() implies #[trigger] xs[i].len()
                < 0x1_0000_0000 by {}
        },
    }
}

/// Parsing a payload built for a key recovers that key: the checksums
/// agree, the fields read back, and the padding is accepted.
#[verifier::rlimit(100)]
pub proof fn lemma_payload_round_trip(
    k: KeyPairData,
    chk: u32,
    comment: Seq<u8>,
    padlen: nat,
    block: nat,
)
    requires
        kp_fits(k),
        provider_ok(k),
        comment.len() < 0x1_0000_0000,
        padlen < block,
    ensures
        parse_plain(payload_spec(k, chk, comment, padlen), public_data_of(k), block) == Ok::<
            KeyPairData,
            ErrorKind,
        >(k),
{
    reveal(parse_plain);
    broadcast use vstd::seq::Seq::add_empty_left, vstd::seq::Seq::add_empty_right;

    crate::sshbuf::lemma_be32_roundtrip(chk);
    let pkd = public_data_of(k);
    let xs = payload_strings(k, comment);
    let cat = cat_strings(xs);
    let pad = padding_spec(padlen);
    let pl = payload_spec(k, chk, comment, padlen);
    let b1 = be32_bytes(chk);
    lemma_payload_strings_shape(k, comment);
    // the two checksum fields
    vstd::seq_lib::lemma_concat_associative(b1 + b1, cat, pad);
    vstd::seq_lib::lemma_concat_associative(b1, b1, cat + pad);
    assert(pl == b1 + (b1 + (cat + pad)));
    crate::sshbuf::lemma_u32_at_concat(Seq::empty(), chk, b1 + (cat + pad));
    assert(Seq::<u8>::empty() + b1 + (b1 + (cat + pad)) == pl);
    assert(u32_at(pl, 0) == Some((chk, 4int)));
    crate::sshbuf::lemma_u32_at_concat(b1, chk, cat + pad);
    assert(b1 + b1 + (cat + pad) == pl);
    assert(u32_at(pl, 4) == Some((chk, 8int)));
    // the string row
    crate::sshbuf::lemma_strings_at_cat(b1 + b1, xs, pad);
    assert(b1 + b1 + cat + pad == pl);
    assert((b1 + b1).len() == 8);
    let pos = 8 + cat.len() as int;
    assert(strings_at(pl, 8, xs.len()) == Some((xs, pos)));
    // the padding
    assert(pl.len() - pos == padlen);
    assert forall|i: int| 0 <= i < pl.len() - pos implies #[trigger] pl[pos + i] == (i + 1) as u8 by {
        assert(pl[pos + i] == pad[i]);
    }
    assert(padding_ok(pl, pos, block));
    // the fields
    lemma_parse_plain_fields(k, comment);
}

/// The field extraction returns exactly the key the row was built from.
proof fn lemma_parse_plain_fields(k: KeyPairData, comment: Seq<u8>)
    requires
        kp_fits(k),
        provider_ok(k),
    ensures
        parse_plain_fields(payload_strings(k, comment), public_data_of(k)) == Ok::<
            KeyPairData,
            ErrorKind,
        >(k),
{
    let kname = keyname_spec(public_data_of(k));
    let xs = payload_strings(k, comment);
    match k {
        KeyPairData::Rsa { n, e, d, iqmp, p, q } => {
            assert(xs =~= seq![kname, n, e, d, iqmp, p, q, comment]);
        },
        KeyPairData::Dsa { p, q, g, y, x } => {
            assert(xs =~= seq![kname, p, q, g, y, x, comment]);
        },
        KeyPairData::Ecdsa { curve, point, scalar } => {
            assert(xs =~= seq![kname, curve_name_spec(curve), point, scalar, comment]);
        },
        KeyPairData::Ed25519 { pk, sk } => {
            assert(xs =~= seq![kname, pk, sk, comment]);
        },
    }
}

/// Splitting a container recovers the five fields it was assembled from.
#[verifier::rlimit(100)]
pub proof fn lemma_container_fields(
    cn: Seq<u8>,
    kn: Seq<u8>,
    ko: Seq<u8>,
    pb: Seq<u8>,
    pl: Seq<u8>,
)
    requires
        cn.len() < 0x1_0000_0000,
        kn.len() < 0x1_0000_0000,
        ko.len() < 0x1_0000_0000,
        pb.len() < 0x1_0000_0000,
        pl.len() < 0x1_0000_0000,
    ensures
        parse_container(container_spec(cn, kn, ko, pb, pl)) == Ok::<
            (Seq<u8>, Seq<u8>, Seq<u8>, Seq<u8>, Seq<u8>),
            ErrorKind,
        >((cn, kn, ko, pb, pl)),
{
    reveal(parse_container);
    broadcast use vstd::seq::Seq::add_empty_right;

    let b = container_spec(cn, kn, ko, pb, pl);
    let hdr = seq![cn, kn, ko];
    let body = seq![pb, pl];
    let cat3 = cat_strings(hdr);
    let cat2 = cat_strings(body);
    let magic = magic_spec();
    assert(magic.len() == 15);
    crate::sshbuf::lemma_be32_roundtrip(1);
    // the shape of the whole container
    vstd::seq_lib::lemma_concat_associative(magic + cat3, be32_bytes(1), cat2);
    assert(b == (magic + cat3) + (be32_bytes(1) + cat2));
    vstd::seq_lib::lemma_concat_associative(magic, cat3, be32_bytes(1) + cat2);
    assert(b == magic + cat3 + (be32_bytes(1) + cat2));
    // magic
    assert(b.subrange(0, 15) =~= magic);
    // header strings
    assert(all_fit(hdr)) by {
        assert forall|i: int| 0 <= i < hdr.len() implies #[trigger] hdr[i].len()
            < 0x1_0000_0000 by {}
    }
    crate::sshbuf::lemma_strings_at_cat(magic, hdr, be32_bytes(1) + cat2);
    let p = 15 + cat3.len() as int;
    assert(strings_at(b, 15, 3) == Some((hdr, p)));
    // the key count
    crate::sshbuf::lemma_u32_at_concat(magic + cat3, 1, cat2);
    assert(magic + cat3 + be32_bytes(1) + cat2 == b) by {
        vstd::seq_lib::lemma_concat_associative(magic + cat3, be32_bytes(1), cat2);
    }
    assert(u32_at(b, p) == Some((1u32, p + 4)));
    // the two body strings
    assert(all_fit(body)) by {
        assert forall|i: int| 0 <= i < body.len() implies #[trigger] body[i].len()
            < 0x1_0000_0000 by {}
    }
    crate::sshbuf::lemma_strings_at_cat(magic + cat3 + be32_bytes(1), body, Seq::empty());
    assert(magic + cat3 + be32_bytes(1) + cat2 + Seq::<u8>::empty() == b);
    assert((magic + cat3 + be32_bytes(1)).len() == p + 4);
    assert(strings_at(b, p + 4, 2) == Some((body, b.len() as int)));
    assert(hdr[0] == cn && hdr[1] == kn && hdr[2] == ko && body[0] == pb && body[1] == pl);
}

/// The KDF options this library writes parse back to the same salt and
/// round count.
pub proof fn lemma_kdfopts_round_trip(salt: Seq<u8>, rounds: u32)
    requires
        0 < salt.len() < 0x1_0000_0000,
        rounds > 0,
    ensures
        parse_kdfopts(kdfopts_spec(salt, rounds)) == Ok::<(Seq<u8>, u32), ErrorKind>(
            (salt, rounds),
        ),
{
    reveal(parse_kdfopts);
    broadcast use vstd::seq::Seq::add_empty_left, vstd::seq::Seq::add_empty_right;

    let o = kdfopts_spec(salt, rounds);
    crate::sshbuf::lemma_string_at_concat(Seq::empty(), salt, be32_bytes(rounds));
    assert(Seq::<u8>::empty() + string_spec(salt) + be32_bytes(rounds) == o);
    assert(string_at(o, 0) == Some((salt, 4 + salt.len() as int)));
    crate::sshbuf::lemma_u32_at_concat(string_spec(salt), rounds, Seq::empty());
    assert(string_spec(salt) + be32_bytes(rounds) + Seq::<u8>::empty() == o);
    crate::sshbuf::lemma_be32_roundtrip(rounds);
    assert(u32_at(o, 4 + salt.len() as int) == Some((rounds, o.len() as int)));
}

/// Round trip: decoding an encoded container with the passphrase it was
/// encoded under returns the key it was encoded from, for every algorithm
/// variant and for the encrypted and the unencrypted form alike.
#[verifier::rlimit(100)]
pub proof fn lemma_ossh_round_trip(k: KeyPairData, pass: Option<Seq<u8>>, chk: u32, salt: Seq<u8>)
    requires
        kp_fits(k),
        provider_ok(k),
        match pass {
            None => true,
            Some(pw) => 0 < pw.len() && salt.len() == SALT_LEN,
        },
    ensures
        decode_ossh_result(encode_ossh_spec(k, pass, chk, salt), pass) == Ok::<
            KeyPairData,
            ErrorKind,
        >(k),
{
    let pkd = public_data_of(k);
    let pubblob = pubkey_blob_spec(pkd);
    let comment = Seq::<u8>::empty();
    crate::keys::lemma_public_of_fits(k);
    lemma_pubblob_len(k);
    lemma_pubkey_round_trip(pkd);
    match pass {
        None => {
            let padlen = pad_len(k, comment, 8);
            let payload = payload_spec(k, chk, comment, padlen);
            assert(padlen < 8);
            lemma_payload_len(k, chk, comment, padlen);
            lemma_container_fields(none_name(), none_name(), Seq::empty(), pubblob, payload);
            lemma_cipher_from_name(Cipher::Null);
            lemma_payload_round_trip(k, chk, comment, padlen, 8);
        },
        Some(pw) => {
            let c = Cipher::Aes256Ctr;
            let padlen = pad_len(k, comment, 16);
            let payload = payload_spec(k, chk, comment, padlen);
            assert(padlen < 16);
            lemma_payload_len(k, chk, comment, padlen);
            let dk = bcrypt_hash(pw, salt, DEFAULT_ROUNDS, 48);
            let key = dk.subrange(0, 32);
            let iv = dk.subrange(32, 48);
            let enc = encrypt_spec(c, key, iv, payload);
            assert(enc.len() == payload.len());
            lemma_container_fields(
                cipher_name_spec(c),
                bcrypt_name(),
                kdfopts_spec(salt, DEFAULT_ROUNDS),
                pubblob,
                enc,
            );
            lemma_cipher_from_name(c);
            assert(cipher_name_spec(c) != none_name()) by {
                assert(cipher_name_spec(c).len() == 10 && none_name().len() == 4);
            }
            assert(bcrypt_name() != none_name()) by {
                assert(bcrypt_name().len() == 6 && none_name().len() == 4);
            }
            lemma_kdfopts_round_trip(salt, DEFAULT_ROUNDS);
            lemma_stream_round_trip(c, key, iv, payload);
            lemma_payload_round_trip(k, chk, comment, padlen, 16);
            assert(block_size_spec(c) == 16);
        },
    }
}

/// An unencrypted container refuses a non-empty passphrase: decoding it
/// with one supplied fails as an incorrect passphrase, deterministically,
/// and never silently ignores the passphrase.
pub proof fn lemma_plain_container_rejects_passphrase(
    k: KeyPairData,
    pw: Seq<u8>,
    chk: u32,
    salt: Seq<u8>,
)
    requires
        kp_fits(k),
        pw.len() > 0,
    ensures
        decode_ossh_result(encode_ossh_spec(k, None, chk, salt), Some(pw)) == Err::<
            KeyPairData,
            ErrorKind,
        >(ErrorKind::IncorrectPass),
{
    let pkd = public_data_of(k);
    let pubblob = pubkey_blob_spec(pkd);
    let comment = Seq::<u8>::empty();
    let padlen = pad_len(k, comment, 8);
    let payload = payload_spec(k, chk, comment, padlen);
    crate::keys::lemma_public_of_fits(k);
    lemma_pubblob_len(k);
    lemma_pubkey_round_trip(pkd);
    assert(padlen < 8);
    lemma_payload_len(k, chk, comment, padlen);
    lemma_container_fields(none_name(), none_name(), Seq::empty(), pubblob, payload);
    lemma_cipher_from_name(Cipher::Null);
    assert(pass_present(Some(pw)));
}

/// Flipping the last padding byte of an otherwise-valid decrypted
/// payload makes parsing fail with a format error: any deviation from the
/// 1, 2, 3, ... sequence is caught.
#[verifier::rlimit(100)]
pub proof fn lemma_padding_tamper(
    k: KeyPairData,
    chk: u32,
    comment: Seq<u8>,
    padlen: nat,
    block: nat,
    b: u8,
)
    requires
        kp_fits(k),
        comment.len() < 0x1_0000_0000,
        0 < padlen < block <= 16,
        b != padlen as u8,
    ensures
        ({
            let pl = payload_spec(k, chk, comment, padlen);
            parse_plain(pl.update(pl.len() - 1, b), public_data_of(k), block) == Err::<
                KeyPairData,
                ErrorKind,
            >(ErrorKind::InvalidKeyFormat)
        }),
{
    reveal(parse_plain);
    broadcast use vstd::seq::Seq::add_empty_left, vstd::seq::Seq::add_empty_right;

    crate::sshbuf::lemma_be32_roundtrip(chk);
    let xs = payload_strings(k, comment);
    let cat = cat_strings(xs);
    let pad = padding_spec(padlen);
    let pl = payload_spec(k, chk, comment, padlen);
    let b1 = be32_bytes(chk);
    lemma_payload_strings_shape(k, comment);
    vstd::seq_lib::lemma_concat_associative(b1 + b1, cat, pad);
    vstd::seq_lib::lemma_concat_associative(b1, b1, cat + pad);
    assert(pl == b1 + (b1 + (cat + pad)));
    crate::sshbuf::lemma_u32_at_concat(Seq::empty(), chk, b1 + (cat + pad));
    assert(Seq::<u8>::empty() + b1 + (b1 + (cat + pad)) == pl);
    assert(u32_at(pl, 0) == Some((chk, 4int)));
    crate::sshbuf::lemma_u32_at_concat(b1, chk, cat + pad);
    assert(b1 + b1 + (cat + pad) == pl);
    assert(u32_at(pl, 4) == Some((chk, 8int)));
    crate::sshbuf::lemma_strings_at_cat(b1 + b1, xs, pad);
    assert(b1 + b1 + cat + pad == pl);
    assert((b1 + b1).len() == 8);
    let pos = 8 + cat.len() as int;
    assert(strings_at(pl, 8, xs.len()) == Some((xs, pos)));
    // the tampered payload agrees with the original everywhere but the
    // last byte, which lies in the padding
    let last = pl.len() - 1;
    let pl2 = pl.update(last, b);
    assert(pl2.len() == pl.len());
    assert(last == pos + padlen - 1);
    assert(last >= pos >= 8);
    assert(forall|i: int| 0 <= i < last ==> pl[i] == #[trigger] pl2[i]);
    crate::sshbuf::lemma_u32_at_agree(pl, pl2, 0);
    crate::sshbuf::lemma_u32_at_agree(pl, pl2, 4);
    crate::sshbuf::lemma_strings_at_agree(pl, pl2, 8, xs.len());
    assert(strings_at(pl2, 8, xs.len()) == Some((xs, pos)));
    // the padding check fails at the changed byte
    assert(!padding_ok(pl2, pos, block)) by {
        assert(pl2[pos + (padlen - 1)] == b);
        assert(b != ((padlen - 1) + 1) as u8);
    }
}

/// Truncating a well-formed container anywhere yields an I/O or format
/// error, never a key and never a panic: every length prefix that would
/// read past the new end is caught.
#[verifier::rlimit(100)]
pub proof fn lemma_truncation(b: Seq<u8>, pass: Option<Seq<u8>>, n: int)
    requires
        parse_container(b) is Ok,
        0 <= n < b.len(),
    ensures
        match decode_ossh_result(b.subrange(0, n), pass) {
            Ok(_) => false,
            Err(k) => k == ErrorKind::IOError || k == ErrorKind::InvalidKeyFormat || k
                == ErrorKind::InvalidFormat,
        },
{
    reveal(parse_container);
    let t = b.subrange(0, n);
    assert(t == b.subrange(0, t.len() as int));
    if n < 15 {
        assert(parse_container(t) == Err::<
            (Seq<u8>, Seq<u8>, Seq<u8>, Seq<u8>, Seq<u8>),
            ErrorKind,
        >(ErrorKind::InvalidKeyFormat));
    } else {
        assert(t.subrange(0, 15) =~= b.subrange(0, 15));
        match strings_at(t, 15, 3) {
            None => {},
            Some((hdr, p)) => {
                crate::sshbuf::lemma_strings_at_extend(t, b, 15, 3);
                match u32_at(t, p) {
                    None => {},
                    Some((nkeys, p2)) => {
                        crate::sshbuf::lemma_u32_at_extend(t, b, p);
                        match strings_at(t, p2, 2) {
                            None => {},
                            Some((body, q)) => {
                                crate::sshbuf::lemma_strings_at_extend(t, b, p2, 2);
                                crate::sshbuf::lemma_strings_at_end(t, p2, 2);
                                // the whole container parses, so its last
                                // read ends at its full length, past the cut
                                assert(strings_at(b, p2, 2) == Some((body, b.len() as int)));
                                assert(q == b.len());
                                assert(q <= t.len() < b.len());
                                assert(false);
                            },
                        }
                    },
                }
            },
        }
    }
}

} // verus!