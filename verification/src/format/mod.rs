//! The on-disk formats: the native OpenSSH container codec, the PEM and
//! PKCS#8 adapters, and the dispatcher that routes PEM-armored input by
//! its tag.

pub mod ossh_privkey;
pub mod ossh_pubkey;
pub mod pem;
pub mod pkcs8;

use vstd::prelude::*;
use crate::error::{Error, ErrorKind};
use crate::keys::{kp_fits, KeyPair, KeyPairData};
use crate::sshbuf::{bytes_eq, put_bytes};
use self::ossh_privkey::{decode_ossh_result, decode_ossh_priv, pass_view};
use self::pem::{parse_pem_privkey, pem_privkey_result};

verus! {

/// The tag and the decoded body that PEM armor parses to, or nothing
/// when the armor is invalid.
pub uninterp spec fn pem_parse_of(b: Seq<u8>) -> Option<(Seq<u8>, Seq<u8>)>;

/// Relies on pem::parse: whether the armor parses, and the tag and
/// base64-decoded contents it parses to, depend on the input bytes alone.
#[verifier::external_body]
fn pem_parse(b: &[u8]) -> (r: Result<(Vec<u8>, Vec<u8>), ()>)
    ensures
        match r {
            Ok((t, c)) => pem_parse_of(b@) == Some((t@, c@)),
            Err(_) => pem_parse_of(b@) is None,
        },
{
    match ::pem::parse(b) {
        Ok(p) => Ok((p.tag().as_bytes().to_vec(), p.contents().to_vec())),
        Err(_) => Err(()),
    }
}

/// The tag suffix " PRIVATE KEY" without its leading space: the word
/// "PRIVATE KEY".
pub open spec fn private_key_words() -> Seq<u8> {
    seq![80u8, 82, 73, 86, 65, 84, 69, 32, 75, 69, 89]
}

/// The armor tag of the native container: "OPENSSH PRIVATE KEY".
pub open spec fn openssh_tag() -> Seq<u8> {
    seq![79u8, 80, 69, 78, 83, 83, 72, 32] + private_key_words()
}

/// The word "PRIVATE KEY" as bytes.
fn private_key_words_bytes() -> (r: Vec<u8>)
    ensures
        r@ == private_key_words(),
{
    let mut v: Vec<u8> = Vec::new();
    v.push(80);
    v.push(82);
    v.push(73);
    v.push(86);
    v.push(65);
    v.push(84);
    v.push(69);
    v.push(32);
    v.push(75);
    v.push(69);
    v.push(89);
    proof {
        assert(v@ =~= private_key_words());
    }
    v
}

/// The armor tag "OPENSSH PRIVATE KEY" as bytes.
fn openssh_tag_bytes() -> (r: Vec<u8>)
    ensures
        r@ == openssh_tag(),
{
    let mut v: Vec<u8> = Vec::new();
    v.push(79);
    v.push(80);
    v.push(69);
    v.push(78);
    v.push(83);
    v.push(83);
    v.push(72);
    v.push(32);
    let words = private_key_words_bytes();
    let mut i: usize = 0;
    while i < words.len()
        invariant
            i <= words@.len(),
            words@ == private_key_words(),
            v@ == seq![79u8, 80, 69, 78, 83, 83, 72, 32] + words@.subrange(0, i as int),
        decreases words@.len() - i,
    {
        v.push(words[i]);
        i = i + 1;
        assert(v@ =~= seq![79u8, 80, 69, 78, 83, 83, 72, 32] + words@.subrange(0, i as int));
    }
    proof {
        assert(words@.subrange(0, words@.len() as int) =~= words@);
        assert(v@ =~= openssh_tag());
    }
    v
}

/// The armor tag "ENCRYPTED PRIVATE KEY".
pub open spec fn encrypted_pkcs8_tag() -> Seq<u8> {
    seq![69u8, 78, 67, 82, 89, 80, 84, 69, 68, 32] + private_key_words()
}

/// The armor tag "DSA PRIVATE KEY".
pub open spec fn dsa_pem_tag() -> Seq<u8> {
    seq![68u8, 83, 65, 32] + private_key_words()
}

/// The armor tag "RSA PRIVATE KEY".
pub open spec fn rsa_pem_tag() -> Seq<u8> {
    seq![82u8, 83, 65, 32] + private_key_words()
}

/// The armor tag "EC PRIVATE KEY".
pub open spec fn ec_pem_tag() -> Seq<u8> {
    seq![69u8, 67, 32] + private_key_words()
}

/// The armor tag "BEGIN PRIVATE KEY".
pub open spec fn begin_pem_tag() -> Seq<u8> {
    seq![66u8, 69, 71, 73, 78, 32] + private_key_words()
}

/// The armor tag "ENCRYPTED PRIVATE KEY" as bytes.
fn encrypted_pkcs8_tag_bytes() -> (r: Vec<u8>)
    ensures
        r@ == encrypted_pkcs8_tag(),
{
    let mut v: Vec<u8> = Vec::new();
    v.push(69);
    v.push(78);
    v.push(67);
    v.push(82);
    v.push(89);
    v.push(80);
    v.push(84);
    v.push(69);
    v.push(68);
    v.push(32);
    let words = private_key_words_bytes();
    put_bytes(&mut v, words.as_slice());
    proof {
        assert(v@ =~= encrypted_pkcs8_tag());
    }
    v
}

/// The armor tag "DSA PRIVATE KEY" as bytes.
fn dsa_pem_tag_bytes() -> (r: Vec<u8>)
    ensures
        r@ == dsa_pem_tag(),
{
    let mut v: Vec<u8> = Vec::new();
    v.push(68);
    v.push(83);
    v.push(65);
    v.push(32);
    let words = private_key_words_bytes();
    put_bytes(&mut v, words.as_slice());
    proof {
        assert(v@ =~= dsa_pem_tag());
    }
    v
}

/// The armor tag "RSA PRIVATE KEY" as bytes.
fn rsa_pem_tag_bytes() -> (r: Vec<u8>)
    ensures
        r@ == rsa_pem_tag(),
{
    let mut v: Vec<u8> = Vec::new();
    v.push(82);
    v.push(83);
    v.push(65);
    v.push(32);
    let words = private_key_words_bytes();
    put_bytes(&mut v, words.as_slice());
    proof {
        assert(v@ =~= rsa_pem_tag());
    }
    v
}

/// The armor tag "EC PRIVATE KEY" as bytes.
fn ec_pem_tag_bytes() -> (r: Vec<u8>)
    ensures
        r@ == ec_pem_tag(),
{
    let mut v: Vec<u8> = Vec::new();
    v.push(69);
    v.push(67);
    v.push(32);
    let words = private_key_words_bytes();
    put_bytes(&mut v, words.as_slice());
    proof {
        assert(v@ =~= ec_pem_tag());
    }
    v
}

/// The armor tag "BEGIN PRIVATE KEY" as bytes.
fn begin_pem_tag_bytes() -> (r: Vec<u8>)
    ensures
        r@ == begin_pem_tag(),
{
    let mut v: Vec<u8> = Vec::new();
    v.push(66);
    v.push(69);
    v.push(71);
    v.push(73);
    v.push(78);
    v.push(32);
    let words = private_key_words_bytes();
    put_bytes(&mut v, words.as_slice());
    proof {
        assert(v@ =~= begin_pem_tag());
    }
    v
}

/// Whether the armor tag routes to the PEM/PKCS#8 adapter: "PRIVATE
/// KEY", "ENCRYPTED PRIVATE KEY", "DSA/RSA/EC PRIVATE KEY", and "BEGIN
/// PRIVATE KEY".
pub open spec fn is_pem_adapter_tag(tag: Seq<u8>) -> bool {
    ||| tag == private_key_words()
    ||| tag == encrypted_pkcs8_tag()
    ||| tag == dsa_pem_tag()
    ||| tag == rsa_pem_tag()
    ||| tag == ec_pem_tag()
    ||| tag == begin_pem_tag()
}

/// What parsing PEM-armored private key input yields: the native
/// container's result under the tag "OPENSSH PRIVATE KEY", the PEM
/// adapter's result (on the whole armor) under the PKCS#8 and
/// OpenSSL-native tags, and an unsupported-type failure for every other
/// tag.
pub open spec fn parse_keystr_result(b: Seq<u8>, pass: Option<Seq<u8>>) -> Result<
    KeyPairData,
    ErrorKind,
> {
    match pem_parse_of(b) {
        None => Err(ErrorKind::InvalidPemFormat),
        Some((tag, body)) => {
            if tag == openssh_tag() {
                decode_ossh_result(body, pass)
            } else if is_pem_adapter_tag(tag) {
                pem_privkey_result(b, pass)
            } else {
                Err(ErrorKind::UnsupportType)
            }
        },
    }
}

/// Parse PEM-armored private key input, routing on the armor tag.
///
/// The tag "OPENSSH PRIVATE KEY" selects the native container codec; the
/// PKCS#8 and OpenSSL-native tags select the PEM adapter; any other tag
/// is reported as an unsupported key type.
pub fn parse_keystr(pem: &[u8], passphrase: Option<&str>) -> (r: Result<KeyPair, Error>)
    ensures
        match r {
            Ok(kp) => parse_keystr_result(pem@, pass_view(passphrase)) == Ok::<
                KeyPairData,
                ErrorKind,
            >(kp@) && kp_fits(kp@),
            Err(e) => parse_keystr_result(pem@, pass_view(passphrase)) == Err::<
                KeyPairData,
                ErrorKind,
            >(e.kind),
        },
{
    let (tag, body) = match pem_parse(pem) {
        Ok(v) => v,
        Err(_) => {
            return Err(Error::from_kind(ErrorKind::InvalidPemFormat));
        },
    };
    let openssh = openssh_tag_bytes();
    if bytes_eq(tag.as_slice(), openssh.as_slice()) {
        decode_ossh_priv(body.as_slice(), passphrase)
    } else if bytes_eq(tag.as_slice(), private_key_words_bytes().as_slice()) || bytes_eq(
        tag.as_slice(),
        encrypted_pkcs8_tag_bytes().as_slice(),
    ) || bytes_eq(tag.as_slice(), dsa_pem_tag_bytes().as_slice()) || bytes_eq(
        tag.as_slice(),
        rsa_pem_tag_bytes().as_slice(),
    ) || bytes_eq(tag.as_slice(), ec_pem_tag_bytes().as_slice()) || bytes_eq(
        tag.as_slice(),
        begin_pem_tag_bytes().as_slice(),
    ) {
        let _ = body;
        parse_pem_privkey(pem, passphrase)
    } else {
        Err(Error::from_kind(ErrorKind::UnsupportType))
    }
}

} // verus!
