//! The symmetric ciphers and the key-derivation function that protect
//! container payloads, selected by canonical name.
//!
//! The block and stream cipher implementations and the bcrypt KDF are
//! outside providers; each call goes through a trusted wrapper whose
//! contract states what the provider's source shows. The dispatch, the
//! length rules and the stream-cipher round trip are verified here.

use vstd::prelude::*;
use crate::error::{Error, ErrorKind};
use cipher::{BlockModeDecrypt, BlockModeEncrypt, KeyIvInit, StreamCipher};
use cipher::block_padding::Pkcs7;

verus! {

/// The ciphers a container payload can be protected with; `Null` stands
/// for the canonical name "none", an unencrypted payload.
#[derive(Debug, Clone, Copy, PartialEq, Eq, Structural)]
pub enum Cipher {
    Aes128Ctr,
    Aes192Ctr,
    Aes256Ctr,
    Aes128Cbc,
    Aes192Cbc,
    Aes256Cbc,
    TDesCbc,
    Null,
}

/// The canonical name of each cipher, as the container carries it.
pub open spec fn cipher_name_spec(c: Cipher) -> Seq<u8> {
    match c {
        // "aes128-ctr"
        Cipher::Aes128Ctr => seq![97u8, 101, 115, 49, 50, 56, 45, 99, 116, 114],
        // "aes192-ctr"
        Cipher::Aes192Ctr => seq![97u8, 101, 115, 49, 57, 50, 45, 99, 116, 114],
        // "aes256-ctr"
        Cipher::Aes256Ctr => seq![97u8, 101, 115, 50, 53, 54, 45, 99, 116, 114],
        // "aes128-cbc"
        Cipher::Aes128Cbc => seq![97u8, 101, 115, 49, 50, 56, 45, 99, 98, 99],
        // "aes192-cbc"
        Cipher::Aes192Cbc => seq![97u8, 101, 115, 49, 57, 50, 45, 99, 98, 99],
        // "aes256-cbc"
        Cipher::Aes256Cbc => seq![97u8, 101, 115, 50, 53, 54, 45, 99, 98, 99],
        // "3des-cbc"
        Cipher::TDesCbc => seq![51u8, 100, 101, 115, 45, 99, 98, 99],
        // "none"
        Cipher::Null => seq![110u8, 111, 110, 101],
    }
}

/// The key length each cipher requires.
pub open spec fn key_len_spec(c: Cipher) -> nat {
    match c {
        Cipher::Aes128Ctr => 16,
        Cipher::Aes192Ctr => 24,
        Cipher::Aes256Ctr => 32,
        Cipher::Aes128Cbc => 16,
        Cipher::Aes192Cbc => 24,
        Cipher::Aes256Cbc => 32,
        Cipher::TDesCbc => 24,
        Cipher::Null => 0,
    }
}

/// The IV length each cipher requires.
pub open spec fn iv_len_spec(c: Cipher) -> nat {
    match c {
        Cipher::TDesCbc => 8,
        Cipher::Null => 0,
        _ => 16,
    }
}

/// The block size a payload is padded to; the unencrypted container
/// uses eight.
pub open spec fn block_size_spec(c: Cipher) -> nat {
    match c {
        Cipher::TDesCbc => 8,
        Cipher::Null => 8,
        _ => 16,
    }
}

/// Whether the cipher's encryption keeps the data's length (the stream
/// ciphers and "none"); the block ciphers pad instead.
pub open spec fn keeps_len(c: Cipher) -> bool {
    match c {
        Cipher::Aes128Ctr | Cipher::Aes192Ctr | Cipher::Aes256Ctr | Cipher::Null => true,
        _ => false,
    }
}

/// The byte the AES-128-CTR keystream holds at position `i` for the given
/// key and IV.
pub uninterp spec fn aes128_ctr_ks(key: Seq<u8>, iv: Seq<u8>, i: nat) -> u8;

/// The byte the AES-192-CTR keystream holds at position `i` for the given
/// key and IV.
pub uninterp spec fn aes192_ctr_ks(key: Seq<u8>, iv: Seq<u8>, i: nat) -> u8;

/// The byte the AES-256-CTR keystream holds at position `i` for the given
/// key and IV.
pub uninterp spec fn aes256_ctr_ks(key: Seq<u8>, iv: Seq<u8>, i: nat) -> u8;

/// What AES-128-CBC with PKCS#7 padding encrypts the data to.
pub uninterp spec fn aes128_cbc_enc(key: Seq<u8>, iv: Seq<u8>, data: Seq<u8>) -> Seq<u8>;

/// What AES-128-CBC decryption with PKCS#7 unpadding returns, or `None`
/// when the padding of the decrypted data is invalid.
pub uninterp spec fn aes128_cbc_dec(key: Seq<u8>, iv: Seq<u8>, data: Seq<u8>) -> Option<Seq<u8>>;

/// What AES-192-CBC with PKCS#7 padding encrypts the data to.
pub uninterp spec fn aes192_cbc_enc(key: Seq<u8>, iv: Seq<u8>, data: Seq<u8>) -> Seq<u8>;

/// What AES-192-CBC decryption with PKCS#7 unpadding returns.
pub uninterp spec fn aes192_cbc_dec(key: Seq<u8>, iv: Seq<u8>, data: Seq<u8>) -> Option<Seq<u8>>;

/// What AES-256-CBC with PKCS#7 padding encrypts the data to.
pub uninterp spec fn aes256_cbc_enc(key: Seq<u8>, iv: Seq<u8>, data: Seq<u8>) -> Seq<u8>;

/// What AES-256-CBC decryption with PKCS#7 unpadding returns.
pub uninterp spec fn aes256_cbc_dec(key: Seq<u8>, iv: Seq<u8>, data: Seq<u8>) -> Option<Seq<u8>>;

/// What triple-DES-CBC with PKCS#7 padding encrypts the data to.
pub uninterp spec fn tdes_cbc_enc(key: Seq<u8>, iv: Seq<u8>, data: Seq<u8>) -> Seq<u8>;

/// What triple-DES-CBC decryption with PKCS#7 unpadding returns.
pub uninterp spec fn tdes_cbc_dec(key: Seq<u8>, iv: Seq<u8>, data: Seq<u8>) -> Option<Seq<u8>>;

/// Relies on ctr::Ctr128BE<aes::Aes128>::apply_keystream: it XORs the data
/// with a keystream that depends on the key, the IV and the position alone.
#[verifier::external_body]
fn aes128_ctr_apply(key: &[u8], iv: &[u8], data: &[u8]) -> (r: Vec<u8>)
    requires
        key@.len() == 16,
        iv@.len() == 16,
    ensures
        r@.len() == data@.len(),
        forall|i: int|
            0 <= i < data@.len() ==> r@[i] == (data@[i] ^ aes128_ctr_ks(key@, iv@, i as nat)),
{
    let mut c = ctr::Ctr128BE::<aes::Aes128>::new_from_slices(key, iv).unwrap();
    let mut buf = data.to_vec();
    c.apply_keystream(&mut buf);
    buf
}

/// Relies on ctr::Ctr128BE<aes::Aes192>::apply_keystream: it XORs the data
/// with a keystream that depends on the key, the IV and the position alone.
#[verifier::external_body]
fn aes192_ctr_apply(key: &[u8], iv: &[u8], data: &[u8]) -> (r: Vec<u8>)
    requires
        key@.len() == 24,
        iv@.len() == 16,
    ensures
        r@.len() == data@.len(),
        forall|i: int|
            0 <= i < data@.len() ==> r@[i] == (data@[i] ^ aes192_ctr_ks(key@, iv@, i as nat)),
{
    let mut c = ctr::Ctr128BE::<aes::Aes192>::new_from_slices(key, iv).unwrap();
    let mut buf = data.to_vec();
    c.apply_keystream(&mut buf);
    buf
}

/// Relies on ctr::Ctr128BE<aes::Aes256>::apply_keystream: it XORs the data
/// with a keystream that depends on the key, the IV and the position alone.
#[verifier::external_body]
fn aes256_ctr_apply(key: &[u8], iv: &[u8], data: &[u8]) -> (r: Vec<u8>)
    requires
        key@.len() == 32,
        iv@.len() == 16,
    ensures
        r@.len() == data@.len(),
        forall|i: int|
            0 <= i < data@.len() ==> r@[i] == (data@[i] ^ aes256_ctr_ks(key@, iv@, i as nat)),
{
    let mut c = ctr::Ctr128BE::<aes::Aes256>::new_from_slices(key, iv).unwrap();
    let mut buf = data.to_vec();
    c.apply_keystream(&mut buf);
    buf
}

/// Relies on cbc::Encryptor<aes::Aes128>::encrypt_padded_vec with PKCS#7:
/// the result is a function of key, IV and data, one padded block longer
/// than the data rounded down.
#[verifier::external_body]
fn aes128_cbc_encrypt(key: &[u8], iv: &[u8], data: &[u8]) -> (r: Vec<u8>)
    requires
        key@.len() == 16,
        iv@.len() == 16,
    ensures
        r@ == aes128_cbc_enc(key@, iv@, data@),
        r@.len() == data@.len() + 16 - (data@.len() % 16),
{
    cbc::Encryptor::<aes::Aes128>::new_from_slices(key, iv).unwrap().encrypt_padded_vec::<Pkcs7>(
        data,
    )
}

/// Relies on cbc::Decryptor<aes::Aes128>::decrypt_padded_vec with PKCS#7:
/// the result is a function of key, IV and data; invalid padding fails.
#[verifier::external_body]
fn aes128_cbc_decrypt(key: &[u8], iv: &[u8], data: &[u8]) -> (r: Result<Vec<u8>, ()>)
    requires
        key@.len() == 16,
        iv@.len() == 16,
    ensures
        match r {
            Ok(v) => aes128_cbc_dec(key@, iv@, data@) == Some(v@),
            Err(_) => aes128_cbc_dec(key@, iv@, data@) is None,
        },
{
    match cbc::Decryptor::<aes::Aes128>::new_from_slices(key, iv).unwrap().decrypt_padded_vec::<
        Pkcs7,
    >(data) {
        Ok(v) => Ok(v),
        Err(_) => Err(()),
    }
}

/// Relies on cbc::Encryptor<aes::Aes192>::encrypt_padded_vec with PKCS#7,
/// as for AES-128-CBC.
#[verifier::external_body]
fn aes192_cbc_encrypt(key: &[u8], iv: &[u8], data: &[u8]) -> (r: Vec<u8>)
    requires
        key@.len() == 24,
        iv@.len() == 16,
    ensures
        r@ == aes192_cbc_enc(key@, iv@, data@),
        r@.len() == data@.len() + 16 - (data@.len() % 16),
{
    cbc::Encryptor::<aes::Aes192>::new_from_slices(key, iv).unwrap().encrypt_padded_vec::<Pkcs7>(
        data,
    )
}

/// Relies on cbc::Decryptor<aes::Aes192>::decrypt_padded_vec with PKCS#7,
/// as for AES-128-CBC.
#[verifier::external_body]
fn aes192_cbc_decrypt(key: &[u8], iv: &[u8], data: &[u8]) -> (r: Result<Vec<u8>, ()>)
    requires
        key@.len() == 24,
        iv@.len() == 16,
    ensures
        match r {
            Ok(v) => aes192_cbc_dec(key@, iv@, data@) == Some(v@),
            Err(_) => aes192_cbc_dec(key@, iv@, data@) is None,
        },
{
    match cbc::Decryptor::<aes::Aes192>::new_from_slices(key, iv).unwrap().decrypt_padded_vec::<
        Pkcs7,
    >(data) {
        Ok(v) => Ok(v),
        Err(_) => Err(()),
    }
}

/// Relies on cbc::Encryptor<aes::Aes256>::encrypt_padded_vec with PKCS#7,
/// as for AES-128-CBC.
#[verifier::external_body]
fn aes256_cbc_encrypt(key: &[u8], iv: &[u8], data: &[u8]) -> (r: Vec<u8>)
    requires
        key@.len() == 32,
        iv@.len() == 16,
    ensures
        r@ == aes256_cbc_enc(key@, iv@, data@),
        r@.len() == data@.len() + 16 - (data@.len() % 16),
{
    cbc::Encryptor::<aes::Aes256>::new_from_slices(key, iv).unwrap().encrypt_padded_vec::<Pkcs7>(
        data,
    )
}

/// Relies on cbc::Decryptor<aes::Aes256>::decrypt_padded_vec with PKCS#7,
/// as for AES-128-CBC.
#[verifier::external_body]
fn aes256_cbc_decrypt(key: &[u8], iv: &[u8], data: &[u8]) -> (r: Result<Vec<u8>, ()>)
    requires
        key@.len() == 32,
        iv@.len() == 16,
    ensures
        match r {
            Ok(v) => aes256_cbc_dec(key@, iv@, data@) == Some(v@),
            Err(_) => aes256_cbc_dec(key@, iv@, data@) is None,
        },
{
    match cbc::Decryptor::<aes::Aes256>::new_from_slices(key, iv).unwrap().decrypt_padded_vec::<
        Pkcs7,
    >(data) {
        Ok(v) => Ok(v),
        Err(_) => Err(()),
    }
}

/// Relies on cbc::Encryptor<des::TdesEde3>::encrypt_padded_vec with PKCS#7:
/// the result is a function of key, IV and data, padded to eight-byte
/// blocks.
#[verifier::external_body]
fn tdes_cbc_encrypt(key: &[u8], iv: &[u8], data: &[u8]) -> (r: Vec<u8>)
    requires
        key@.len() == 24,
        iv@.len() == 8,
    ensures
        r@ == tdes_cbc_enc(key@, iv@, data@),
        r@.len() == data@.len() + 8 - (data@.len() % 8),
{
    cbc::Encryptor::<des::TdesEde3>::new_from_slices(key, iv).unwrap().encrypt_padded_vec::<Pkcs7>(
        data,
    )
}

/// Relies on cbc::Decryptor<des::TdesEde3>::decrypt_padded_vec with PKCS#7,
/// as for the AES-CBC variants.
#[verifier::external_body]
fn tdes_cbc_decrypt(key: &[u8], iv: &[u8], data: &[u8]) -> (r: Result<Vec<u8>, ()>)
    requires
        key@.len() == 24,
        iv@.len() == 8,
    ensures
        match r {
            Ok(v) => tdes_cbc_dec(key@, iv@, data@) == Some(v@),
            Err(_) => tdes_cbc_dec(key@, iv@, data@) is None,
        },
{
    match cbc::Decryptor::<des::TdesEde3>::new_from_slices(key, iv).unwrap().decrypt_padded_vec::<
        Pkcs7,
    >(data) {
        Ok(v) => Ok(v),
        Err(_) => Err(()),
    }
}

/// What encrypting `data` under cipher `c` yields when the key and IV have
/// the required lengths.
pub open spec fn encrypt_spec(c: Cipher, key: Seq<u8>, iv: Seq<u8>, data: Seq<u8>) -> Seq<u8> {
    match c {
        Cipher::Aes128Ctr => Seq::new(data.len(), |i: int| data[i] ^ aes128_ctr_ks(key, iv, i as nat)),
        Cipher::Aes192Ctr => Seq::new(data.len(), |i: int| data[i] ^ aes192_ctr_ks(key, iv, i as nat)),
        Cipher::Aes256Ctr => Seq::new(data.len(), |i: int| data[i] ^ aes256_ctr_ks(key, iv, i as nat)),
        Cipher::Aes128Cbc => aes128_cbc_enc(key, iv, data),
        Cipher::Aes192Cbc => aes192_cbc_enc(key, iv, data),
        Cipher::Aes256Cbc => aes256_cbc_enc(key, iv, data),
        Cipher::TDesCbc => tdes_cbc_enc(key, iv, data),
        Cipher::Null => data,
    }
}

/// What decrypting `data` under cipher `c` yields; `None` when a block
/// cipher's padding turns out invalid.
pub open spec fn decrypt_spec(c: Cipher, key: Seq<u8>, iv: Seq<u8>, data: Seq<u8>) -> Option<
    Seq<u8>,
> {
    match c {
        Cipher::Aes128Ctr => Some(
            Seq::new(data.len(), |i: int| data[i] ^ aes128_ctr_ks(key, iv, i as nat)),
        ),
        Cipher::Aes192Ctr => Some(
            Seq::new(data.len(), |i: int| data[i] ^ aes192_ctr_ks(key, iv, i as nat)),
        ),
        Cipher::Aes256Ctr => Some(
            Seq::new(data.len(), |i: int| data[i] ^ aes256_ctr_ks(key, iv, i as nat)),
        ),
        Cipher::Aes128Cbc => aes128_cbc_dec(key, iv, data),
        Cipher::Aes192Cbc => aes192_cbc_dec(key, iv, data),
        Cipher::Aes256Cbc => aes256_cbc_dec(key, iv, data),
        Cipher::TDesCbc => tdes_cbc_dec(key, iv, data),
        Cipher::Null => Some(data),
    }
}

/// For the length-keeping ciphers, decryption undoes encryption.
pub proof fn lemma_stream_round_trip(c: Cipher, key: Seq<u8>, iv: Seq<u8>, data: Seq<u8>)
    requires
        keeps_len(c),
    ensures
        decrypt_spec(c, key, iv, encrypt_spec(c, key, iv, data)) == Some(data),
{
    assert forall|a: u8, b: u8| #[trigger] ((a ^ b) ^ b) == a by {
        assert(forall|x: u8, y: u8| #[trigger] ((x ^ y) ^ y) == x) by (bit_vector);
    }
    match c {
        Cipher::Aes128Ctr => {
            assert(decrypt_spec(c, key, iv, encrypt_spec(c, key, iv, data)).unwrap() =~= data);
        },
        Cipher::Aes192Ctr => {
            assert(decrypt_spec(c, key, iv, encrypt_spec(c, key, iv, data)).unwrap() =~= data);
        },
        Cipher::Aes256Ctr => {
            assert(decrypt_spec(c, key, iv, encrypt_spec(c, key, iv, data)).unwrap() =~= data);
        },
        _ => {},
    }
}

/// Which cipher a canonical name selects.
pub open spec fn cipher_from_name(name: Seq<u8>) -> Option<Cipher> {
    if name == cipher_name_spec(Cipher::Aes128Ctr) {
        Some(Cipher::Aes128Ctr)
    } else if name == cipher_name_spec(Cipher::Aes192Ctr) {
        Some(Cipher::Aes192Ctr)
    } else if name == cipher_name_spec(Cipher::Aes256Ctr) {
        Some(Cipher::Aes256Ctr)
    } else if name == cipher_name_spec(Cipher::Aes128Cbc) {
        Some(Cipher::Aes128Cbc)
    } else if name == cipher_name_spec(Cipher::Aes192Cbc) {
        Some(Cipher::Aes192Cbc)
    } else if name == cipher_name_spec(Cipher::Aes256Cbc) {
        Some(Cipher::Aes256Cbc)
    } else if name == cipher_name_spec(Cipher::TDesCbc) {
        Some(Cipher::TDesCbc)
    } else if name == cipher_name_spec(Cipher::Null) {
        Some(Cipher::Null)
    } else {
        None
    }
}

/// Each cipher's canonical name selects that cipher.
pub proof fn lemma_cipher_from_name(c: Cipher)
    ensures
        cipher_from_name(cipher_name_spec(c)) == Some(c),
{
    let name = cipher_name_spec(c);
    match c {
        Cipher::Aes128Ctr => {},
        Cipher::Aes192Ctr => {
            assert(name[4] != cipher_name_spec(Cipher::Aes128Ctr)[4]);
        },
        Cipher::Aes256Ctr => {
            assert(name[4] != cipher_name_spec(Cipher::Aes128Ctr)[4]);
            assert(name[4] != cipher_name_spec(Cipher::Aes192Ctr)[4]);
        },
        Cipher::Aes128Cbc => {
            assert(name[8] != cipher_name_spec(Cipher::Aes128Ctr)[8]);
            assert(name[4] != cipher_name_spec(Cipher::Aes192Ctr)[4]);
            assert(name[4] != cipher_name_spec(Cipher::Aes256Ctr)[4]);
        },
        Cipher::Aes192Cbc => {
            assert(name[4] != cipher_name_spec(Cipher::Aes128Ctr)[4]);
            assert(name[8] != cipher_name_spec(Cipher::Aes192Ctr)[8]);
            assert(name[4] != cipher_name_spec(Cipher::Aes256Ctr)[4]);
            assert(name[4] != cipher_name_spec(Cipher::Aes128Cbc)[4]);
        },
        Cipher::Aes256Cbc => {
            assert(name[4] != cipher_name_spec(Cipher::Aes128Ctr)[4]);
            assert(name[4] != cipher_name_spec(Cipher::Aes192Ctr)[4]);
            assert(name[8] != cipher_name_spec(Cipher::Aes256Ctr)[8]);
            assert(name[4] != cipher_name_spec(Cipher::Aes128Cbc)[4]);
            assert(name[4] != cipher_name_spec(Cipher::Aes192Cbc)[4]);
        },
        Cipher::TDesCbc => {
            assert(name.len() != cipher_name_spec(Cipher::Aes128Ctr).len());
        },
        Cipher::Null => {
            assert(name.len() != cipher_name_spec(Cipher::Aes128Ctr).len());
            assert(name.len() != cipher_name_spec(Cipher::TDesCbc).len());
        },
    }
}

impl Cipher {
    /// Select the cipher named by `name`; exactly the canonical names are
    /// recognized.
    pub fn from_name(name: &[u8]) -> (r: Result<Cipher, Error>)
        ensures
            match r {
                Ok(c) => cipher_from_name(name@) == Some(c),
                Err(e) => e.kind == ErrorKind::UnsupportCipher && cipher_from_name(name@) is None,
            },
    {
        if crate::sshbuf::bytes_eq(name, Cipher::Aes128Ctr.name_bytes().as_slice()) {
            Ok(Cipher::Aes128Ctr)
        } else if crate::sshbuf::bytes_eq(name, Cipher::Aes192Ctr.name_bytes().as_slice()) {
            Ok(Cipher::Aes192Ctr)
        } else if crate::sshbuf::bytes_eq(name, Cipher::Aes256Ctr.name_bytes().as_slice()) {
            Ok(Cipher::Aes256Ctr)
        } else if crate::sshbuf::bytes_eq(name, Cipher::Aes128Cbc.name_bytes().as_slice()) {
            Ok(Cipher::Aes128Cbc)
        } else if crate::sshbuf::bytes_eq(name, Cipher::Aes192Cbc.name_bytes().as_slice()) {
            Ok(Cipher::Aes192Cbc)
        } else if crate::sshbuf::bytes_eq(name, Cipher::Aes256Cbc.name_bytes().as_slice()) {
            Ok(Cipher::Aes256Cbc)
        } else if crate::sshbuf::bytes_eq(name, Cipher::TDesCbc.name_bytes().as_slice()) {
            Ok(Cipher::TDesCbc)
        } else if crate::sshbuf::bytes_eq(name, Cipher::Null.name_bytes().as_slice()) {
            Ok(Cipher::Null)
        } else {
            Err(Error::from_kind(ErrorKind::UnsupportCipher))
        }
    }

    /// The canonical name of this cipher.
    pub fn name_bytes(&self) -> (r: Vec<u8>)
        ensures
            r@ == cipher_name_spec(*self),
    {
        let mut v: Vec<u8> = Vec::new();
        match self {
            Cipher::Aes128Ctr | Cipher::Aes192Ctr | Cipher::Aes256Ctr | Cipher::Aes128Cbc
                | Cipher::Aes192Cbc | Cipher::Aes256Cbc => {
                v.push(97);
                v.push(101);
                v.push(115);
                match self {
                    Cipher::Aes128Ctr | Cipher::Aes128Cbc => {
                        v.push(49);
                        v.push(50);
                        v.push(56);
                    },
                    Cipher::Aes192Ctr | Cipher::Aes192Cbc => {
                        v.push(49);
                        v.push(57);
                        v.push(50);
                    },
                    _ => {
                        v.push(50);
                        v.push(53);
                        v.push(54);
                    },
                }
                v.push(45);
                match self {
                    Cipher::Aes128Ctr | Cipher::Aes192Ctr | Cipher::Aes256Ctr => {
                        v.push(99);
                        v.push(116);
                        v.push(114);
                    },
                    _ => {
                        v.push(99);
                        v.push(98);
                        v.push(99);
                    },
                }
            },
            Cipher::TDesCbc => {
                v.push(51);
                v.push(100);
                v.push(101);
                v.push(115);
                v.push(45);
                v.push(99);
                v.push(98);
                v.push(99);
            },
            Cipher::Null => {
                v.push(110);
                v.push(111);
                v.push(110);
                v.push(101);
            },
        }
        proof {
            assert(v@ =~= cipher_name_spec(*self));
        }
        v
    }

    /// The key length this cipher requires.
    pub fn key_len(&self) -> (r: usize)
        ensures
            r == key_len_spec(*self),
    {
        match self {
            Cipher::Aes128Ctr | Cipher::Aes128Cbc => 16,
            Cipher::Aes192Ctr | Cipher::Aes192Cbc => 24,
            Cipher::Aes256Ctr | Cipher::Aes256Cbc => 32,
            Cipher::TDesCbc => 24,
            Cipher::Null => 0,
        }
    }

    /// The IV length this cipher requires.
    pub fn iv_len(&self) -> (r: usize)
        ensures
            r == iv_len_spec(*self),
    {
        match self {
            Cipher::TDesCbc => 8,
            Cipher::Null => 0,
            _ => 16,
        }
    }

    /// The block size a payload is padded to under this cipher.
    pub fn block_size(&self) -> (r: usize)
        ensures
            r == block_size_spec(*self),
    {
        match self {
            Cipher::TDesCbc | Cipher::Null => 8,
            _ => 16,
        }
    }

    /// True for the canonical name "none".
    pub fn is_null(&self) -> (r: bool)
        ensures
            r == (*self is Null),
    {
        match self {
            Cipher::Null => true,
            _ => false,
        }
    }

    /// Encrypt `data` with the given key and IV, whose lengths must be the
    /// ones this cipher requires.
    pub fn encrypt(&self, data: &[u8], key: &[u8], iv: &[u8]) -> (r: Result<Vec<u8>, Error>)
        ensures
            match r {
                Ok(v) => key@.len() == key_len_spec(*self) && iv@.len() == iv_len_spec(*self) && v@
                    == encrypt_spec(*self, key@, iv@, data@),
                Err(e) => e.kind == ErrorKind::InvalidKeyIvLength && !(key@.len() == key_len_spec(
                    *self,
                ) && iv@.len() == iv_len_spec(*self)),
            },
    {
        if key.len() != self.key_len() || iv.len() != self.iv_len() {
            return Err(Error::from_kind(ErrorKind::InvalidKeyIvLength));
        }
        let out = match self {
            Cipher::Aes128Ctr => aes128_ctr_apply(key, iv, data),
            Cipher::Aes192Ctr => aes192_ctr_apply(key, iv, data),
            Cipher::Aes256Ctr => aes256_ctr_apply(key, iv, data),
            Cipher::Aes128Cbc => aes128_cbc_encrypt(key, iv, data),
            Cipher::Aes192Cbc => aes192_cbc_encrypt(key, iv, data),
            Cipher::Aes256Cbc => aes256_cbc_encrypt(key, iv, data),
            Cipher::TDesCbc => tdes_cbc_encrypt(key, iv, data),
            Cipher::Null => vstd::slice::slice_to_vec(data),
        };
        proof {
            if keeps_len(*self) && !(*self is Null) {
                assert(out@ =~= encrypt_spec(*self, key@, iv@, data@));
            }
        }
        Ok(out)
    }

    /// Decrypt `data` with the given key and IV; a block cipher reports
    /// invalid padding as an incorrect passphrase, since the two cannot be
    /// told apart.
    pub fn decrypt(&self, data: &[u8], key: &[u8], iv: &[u8]) -> (r: Result<Vec<u8>, Error>)
        ensures
            match r {
                Ok(v) => key@.len() == key_len_spec(*self) && iv@.len() == iv_len_spec(*self)
                    && decrypt_spec(*self, key@, iv@, data@) == Some(v@),
                Err(e) => (e.kind == ErrorKind::InvalidKeyIvLength && !(key@.len() == key_len_spec(
                    *self,
                ) && iv@.len() == iv_len_spec(*self))) || (e.kind == ErrorKind::IncorrectPass
                    && decrypt_spec(*self, key@, iv@, data@) is None),
            },
    {
        if key.len() != self.key_len() || iv.len() != self.iv_len() {
            return Err(Error::from_kind(ErrorKind::InvalidKeyIvLength));
        }
        let out = match self {
            Cipher::Aes128Ctr => Ok(aes128_ctr_apply(key, iv, data)),
            Cipher::Aes192Ctr => Ok(aes192_ctr_apply(key, iv, data)),
            Cipher::Aes256Ctr => Ok(aes256_ctr_apply(key, iv, data)),
            Cipher::Aes128Cbc => aes128_cbc_decrypt(key, iv, data),
            Cipher::Aes192Cbc => aes192_cbc_decrypt(key, iv, data),
            Cipher::Aes256Cbc => aes256_cbc_decrypt(key, iv, data),
            Cipher::TDesCbc => tdes_cbc_decrypt(key, iv, data),
            Cipher::Null => Ok(vstd::slice::slice_to_vec(data)),
        };
        match out {
            Ok(v) => {
                proof {
                    if keeps_len(*self) && !(*self is Null) {
                        assert(v@ =~= decrypt_spec(*self, key@, iv@, data@).unwrap());
                    }
                }
                Ok(v)
            },
            Err(_) => Err(Error::from_kind(ErrorKind::IncorrectPass)),
        }
    }
}

/// The key bcrypt derives from a passphrase, salt, round count and output
/// length.
pub uninterp spec fn bcrypt_hash(pass: Seq<u8>, salt: Seq<u8>, rounds: u32, len: nat) -> Seq<u8>;

/// Relies on bcrypt_pbkdf::bcrypt_pbkdf: the derived key is a function of
/// the passphrase, the salt, the round count and the output length alone;
/// the call only fails on an empty passphrase or salt, zero rounds, or an
/// output length of zero or above 1024, all of which are excluded here.
#[verifier::external_body]
pub(crate) fn bcrypt_derive(pass: &[u8], salt: &[u8], rounds: u32, out_len: usize) -> (r: Vec<u8>)
    requires
        pass@.len() > 0,
        salt@.len() > 0,
        rounds > 0,
        0 < out_len <= 1024,
    ensures
        r@.len() == out_len,
        r@ == bcrypt_hash(pass@, salt@, rounds, out_len as nat),
{
    let mut out = vec![0u8; out_len];
    bcrypt_pbkdf::bcrypt_pbkdf(pass, salt, rounds, &mut out).unwrap();
    out
}

/// Relies on zeroize::Zeroize for Vec<u8>: the buffer's bytes are
/// overwritten with zeros and the vector is emptied, so that secret
/// material does not outlive its use.
#[verifier::external_body]
pub(crate) fn wipe(buf: &mut Vec<u8>)
    ensures
        final(buf)@.len() == 0,
{
    zeroize::Zeroize::zeroize(buf);
}

} // verus!
