use osshkeys::cipher::Cipher;
use osshkeys::error::ErrorKind;

#[test]
fn cipher_names_round_trip() {
    let all = [
        Cipher::Aes128Ctr,
        Cipher::Aes192Ctr,
        Cipher::Aes256Ctr,
        Cipher::Aes128Cbc,
        Cipher::Aes192Cbc,
        Cipher::Aes256Cbc,
        Cipher::TDesCbc,
        Cipher::Null,
    ];
    for c in all {
        let name = c.name_bytes();
        assert_eq!(Cipher::from_name(&name).unwrap(), c);
    }
    assert_eq!(Cipher::from_name(&Cipher::Aes256Ctr.name_bytes()).unwrap(), Cipher::Aes256Ctr);
}

#[test]
fn unknown_cipher_name_rejected() {
    let err = Cipher::from_name(b"chacha20-poly1305").unwrap_err();
    assert_eq!(err.kind(), ErrorKind::UnsupportCipher);
}

#[test]
fn ctr_encryption_changes_and_round_trips() {
    let key = [0x11u8; 32];
    let iv = [0x22u8; 16];
    let data = b"sixteen byte msg";
    let c = Cipher::Aes256Ctr;
    let enc = c.encrypt(data, &key, &iv).unwrap();
    assert_eq!(enc.len(), data.len());
    assert_ne!(&enc[..], &data[..]);
    let dec = c.decrypt(&enc, &key, &iv).unwrap();
    assert_eq!(&dec[..], &data[..]);
}

#[test]
fn cbc_encryption_round_trips() {
    let key = [0x33u8; 16];
    let iv = [0x44u8; 16];
    let data = b"an odd-length plaintext";
    let c = Cipher::Aes128Cbc;
    let enc = c.encrypt(data, &key, &iv).unwrap();
    assert_eq!(enc.len(), data.len() + 16 - data.len() % 16);
    let dec = c.decrypt(&enc, &key, &iv).unwrap();
    assert_eq!(&dec[..], &data[..]);
}

#[test]
fn tdes_encryption_round_trips() {
    let key = [0x55u8; 24];
    let iv = [0x66u8; 8];
    let data = b"block of data";
    let c = Cipher::TDesCbc;
    let enc = c.encrypt(data, &key, &iv).unwrap();
    let dec = c.decrypt(&enc, &key, &iv).unwrap();
    assert_eq!(&dec[..], &data[..]);
}

#[test]
fn cbc_tampered_padding_is_incorrect_pass() {
    let key = [0x33u8; 16];
    let iv = [0x44u8; 16];
    let data = b"tiny";
    let c = Cipher::Aes128Cbc;
    let mut enc = c.encrypt(data, &key, &iv).unwrap();
    let last = enc.len() - 1;
    enc[last] ^= 0x01;
    let err = c.decrypt(&enc, &key, &iv).unwrap_err();
    assert_eq!(err.kind(), ErrorKind::IncorrectPass);
}

#[test]
fn wrong_key_length_rejected() {
    let c = Cipher::Aes256Ctr;
    let err = c.encrypt(b"data", &[0u8; 16], &[0u8; 16]).unwrap_err();
    assert_eq!(err.kind(), ErrorKind::InvalidKeyIvLength);
}
