use osshkeys::error::ErrorKind;
use osshkeys::format::ossh_privkey::{decode_ossh_priv, encode_ossh_priv};
use osshkeys::format::ossh_pubkey::{decode_ossh_pubkey, encode_ossh_pubkey};
use osshkeys::format::parse_keystr;
use osshkeys::keys::{
    DsaKeyPair, EcCurve, EcDsaKeyPair, Ed25519KeyPair, KeyPair, KeyPairType, RsaKeyPair,
};

fn rsa_2048_key() -> KeyPair {
    let mut n = vec![0u8; 256];
    for (i, b) in n.iter_mut().enumerate() {
        *b = (i as u8).wrapping_mul(37).wrapping_add(11);
    }
    n[0] |= 0x80;
    let mut d = vec![0u8; 256];
    for (i, b) in d.iter_mut().enumerate() {
        *b = (i as u8).wrapping_mul(73).wrapping_add(5);
    }
    let mut p = vec![0u8; 128];
    for (i, b) in p.iter_mut().enumerate() {
        *b = (i as u8).wrapping_mul(29).wrapping_add(3);
    }
    let mut q = vec![0u8; 128];
    for (i, b) in q.iter_mut().enumerate() {
        *b = (i as u8).wrapping_mul(41).wrapping_add(7);
    }
    let mut iqmp = vec![0u8; 128];
    for (i, b) in iqmp.iter_mut().enumerate() {
        *b = (i as u8).wrapping_mul(59).wrapping_add(1);
    }
    KeyPair {
        key: KeyPairType::RSA(RsaKeyPair { n, e: vec![1, 0, 1], d, iqmp, p, q }),
    }
}

fn dsa_key() -> KeyPair {
    KeyPair {
        key: KeyPairType::DSA(DsaKeyPair {
            p: vec![0x80; 128],
            q: vec![0x7f; 20],
            g: vec![2; 128],
            y: vec![3; 128],
            x: vec![4; 20],
        }),
    }
}

fn ecdsa_key() -> KeyPair {
    let mut point = vec![4u8];
    point.extend(std::iter::repeat(9u8).take(64));
    KeyPair {
        key: KeyPairType::ECDSA(EcDsaKeyPair {
            curve: EcCurve::Nistp256,
            point,
            scalar: vec![0x21; 32],
        }),
    }
}

fn ed25519_key() -> KeyPair {
    let seed = [7u8; 32];
    let signing = ed25519_dalek::SigningKey::from_bytes(&seed);
    let pk = signing.verifying_key().to_bytes().to_vec();
    let mut sk = seed.to_vec();
    sk.extend_from_slice(&pk);
    KeyPair { key: KeyPairType::ED25519(Ed25519KeyPair { pk, sk }) }
}

#[test]
fn round_trip_rsa_plain() {
    let k = rsa_2048_key();
    let bytes = encode_ossh_priv(&k, None).unwrap();
    let back = decode_ossh_priv(&bytes, None).unwrap();
    assert!(back == k);
}

#[test]
fn round_trip_rsa_encrypted_hunter2() {
    // an RSA-2048 key protected by "hunter2" under the default
    // aes256-ctr/bcrypt choice comes back identical in every field
    let k = rsa_2048_key();
    let bytes = encode_ossh_priv(&k, Some("hunter2")).unwrap();
    let back = decode_ossh_priv(&bytes, Some("hunter2")).unwrap();
    assert!(back == k);
    let err = decode_ossh_priv(&bytes, Some("hunter1")).unwrap_err();
    assert_eq!(err.kind(), ErrorKind::IncorrectPass);
}

#[test]
fn round_trip_dsa_both_ways() {
    let k = dsa_key();
    let plain = encode_ossh_priv(&k, None).unwrap();
    assert!(decode_ossh_priv(&plain, None).unwrap() == k);
    let enc = encode_ossh_priv(&k, Some("secret")).unwrap();
    assert!(decode_ossh_priv(&enc, Some("secret")).unwrap() == k);
}

#[test]
fn round_trip_ecdsa_both_ways() {
    let k = ecdsa_key();
    let plain = encode_ossh_priv(&k, None).unwrap();
    assert!(decode_ossh_priv(&plain, None).unwrap() == k);
    let enc = encode_ossh_priv(&k, Some("pw")).unwrap();
    assert!(decode_ossh_priv(&enc, Some("pw")).unwrap() == k);
}

#[test]
fn round_trip_ed25519_both_ways() {
    let k = ed25519_key();
    let plain = encode_ossh_priv(&k, None).unwrap();
    assert!(decode_ossh_priv(&plain, None).unwrap() == k);
    let enc = encode_ossh_priv(&k, Some("pw")).unwrap();
    assert!(decode_ossh_priv(&enc, Some("pw")).unwrap() == k);
}

#[test]
fn wrong_passphrase_is_incorrect_pass() {
    let k = ed25519_key();
    let enc = encode_ossh_priv(&k, Some("correct")).unwrap();
    let err = decode_ossh_priv(&enc, Some("wrong")).unwrap_err();
    assert_eq!(err.kind(), ErrorKind::IncorrectPass);
}

#[test]
fn unencrypted_with_passphrase_fails() {
    let k = ed25519_key();
    let plain = encode_ossh_priv(&k, None).unwrap();
    let err = decode_ossh_priv(&plain, Some("anything")).unwrap_err();
    assert_eq!(err.kind(), ErrorKind::IncorrectPass);
}

#[test]
fn empty_passphrase_counts_as_absent() {
    let k = ed25519_key();
    let plain = encode_ossh_priv(&k, None).unwrap();
    assert!(decode_ossh_priv(&plain, Some("")).unwrap() == k);
}

#[test]
fn padding_tamper_is_format_error() {
    // the Ed25519 payload ends in five bytes of padding; flipping the
    // last one must fail as a format error, not a panic
    let k = ed25519_key();
    let mut plain = encode_ossh_priv(&k, None).unwrap();
    let last = plain.len() - 1;
    plain[last] ^= 0xff;
    let err = decode_ossh_priv(&plain, None).unwrap_err();
    assert_eq!(err.kind(), ErrorKind::InvalidKeyFormat);
}

#[test]
fn truncated_input_never_panics() {
    let k = rsa_2048_key();
    let full = encode_ossh_priv(&k, Some("pw")).unwrap();
    for n in 0..full.len() {
        let err = decode_ossh_priv(&full[..n], Some("pw")).unwrap_err();
        let kind = err.kind();
        assert!(
            kind == ErrorKind::IOError || kind == ErrorKind::InvalidKeyFormat
                || kind == ErrorKind::InvalidFormat,
            "unexpected kind at prefix {}: {:?}",
            n,
            kind
        );
    }
}

#[test]
fn inconsistent_ed25519_keypair_rejected() {
    // the public half matches the secret's trailing bytes, but the seed
    // does not derive it; the provider check must reject the key
    let pk = vec![0x55u8; 32];
    let mut sk = vec![0x66u8; 32];
    sk.extend_from_slice(&pk);
    let k = KeyPair { key: KeyPairType::ED25519(Ed25519KeyPair { pk, sk }) };
    let plain = encode_ossh_priv(&k, None).unwrap();
    let err = decode_ossh_priv(&plain, None).unwrap_err();
    assert_eq!(err.kind(), ErrorKind::InvalidKey);
}

#[test]
fn unknown_tag_is_unsupported_type() {
    let armor = pem::encode(&pem::Pem::new("FOO PRIVATE KEY", vec![1u8, 2, 3]));
    let err = parse_keystr(armor.as_bytes(), None).unwrap_err();
    assert_eq!(err.kind(), ErrorKind::UnsupportType);
}

#[test]
fn parse_keystr_routes_openssh_tag() {
    let k = ed25519_key();
    let body = encode_ossh_priv(&k, Some("pw")).unwrap();
    let armor = pem::encode(&pem::Pem::new("OPENSSH PRIVATE KEY", body));
    let back = parse_keystr(armor.as_bytes(), Some("pw")).unwrap();
    assert!(back == k);
}

#[test]
fn garbage_is_invalid_pem() {
    let err = parse_keystr(b"not pem at all", None).unwrap_err();
    assert_eq!(err.kind(), ErrorKind::InvalidPemFormat);
}

#[test]
fn pubkey_blob_round_trip() {
    let k = rsa_2048_key();
    let pk = k.public_key();
    let blob = encode_ossh_pubkey(&pk);
    let back = decode_ossh_pubkey(&blob).unwrap();
    assert!(back == pk);
    let k2 = ecdsa_key();
    let pk2 = k2.public_key();
    let blob2 = encode_ossh_pubkey(&pk2);
    assert!(decode_ossh_pubkey(&blob2).unwrap() == pk2);
}

#[test]
fn nonkey_count_and_magic_rejected() {
    let k = ed25519_key();
    let mut bytes = encode_ossh_priv(&k, None).unwrap();
    bytes[0] ^= 0xff;
    let err = decode_ossh_priv(&bytes, None).unwrap_err();
    assert_eq!(err.kind(), ErrorKind::InvalidKeyFormat);
}

#[test]
fn public_key_copies_public_half() {
    let k = rsa_2048_key();
    let pk = k.public_key();
    match (&k.key, &pk.key) {
        (KeyPairType::RSA(kp), osshkeys::keys::PublicKeyType::RSA(pubk)) => {
            assert_eq!(kp.n, pubk.n);
            assert_eq!(kp.e, pubk.e);
        },
        _ => panic!("variant mismatch"),
    }
}

#[test]
fn error_kind_descriptions() {
    assert_eq!(ErrorKind::IncorrectPass.description(), "Incorrect Passphrase");
    assert_eq!(ErrorKind::UnsupportType.description(), "Unsupported Key Type");
    assert_eq!(ErrorKind::InvalidKeyFormat.description(), "Invalid Key Format");
}
