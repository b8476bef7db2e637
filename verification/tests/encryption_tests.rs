use base64ct::{Base64, Encoding};
use keymgr::encryption::{decrypt, encrypt, seal_with, EncFile, KdfParams};
use keymgr::error::EncError;

#[test]
fn roundtrip() {
    let enc = encrypt(b"correct horse", b"top secret bytes").unwrap();
    let out = decrypt(b"correct horse", &enc).unwrap();
    assert_eq!(out.as_slice(), b"top secret bytes");
}

#[test]
fn wrong_passphrase_fails_clean() {
    let enc = encrypt(b"correct horse", b"top secret bytes").unwrap();
    let err = decrypt(b"wrong horse", &enc).unwrap_err();
    assert!(matches!(err, EncError::WrongPassphrase));
}

#[test]
fn tampered_ciphertext_fails_clean() {
    let mut enc = encrypt(b"correct horse", b"top secret bytes").unwrap();
    enc.ciphertext = Base64::encode_string(b"not the real ciphertext bytes!!");
    let err = decrypt(b"correct horse", &enc).unwrap_err();
    assert!(matches!(err, EncError::WrongPassphrase));
}

#[test]
fn salt_and_nonce_are_fresh_each_call() {
    let a = encrypt(b"pw", b"data").unwrap();
    let b = encrypt(b"pw", b"data").unwrap();
    assert_ne!(a.salt, b.salt);
    assert_ne!(a.nonce, b.nonce);
}

#[test]
fn sealed_file_layout() {
    let enc = encrypt(b"pw", b"data").unwrap();
    assert_eq!(enc.version, 1);
    assert_eq!(enc.kdf.algo, "argon2id");
    assert_eq!((enc.kdf.m, enc.kdf.t, enc.kdf.p), (65536, 3, 1));
    assert_eq!(Base64::decode_vec(&enc.salt).unwrap().len(), 16);
    assert_eq!(Base64::decode_vec(&enc.nonce).unwrap().len(), 12);
    // ChaCha20-Poly1305 appends a 16-byte tag and never returns the plaintext itself.
    let ct = Base64::decode_vec(&enc.ciphertext).unwrap();
    assert_eq!(ct.len(), 4 + 16);
    assert_ne!(&ct[..4], b"data");
}

#[test]
fn empty_plaintext_roundtrips() {
    let enc = encrypt(b"", b"").unwrap();
    assert_eq!(decrypt(b"", &enc).unwrap(), Vec::<u8>::new());
}

fn file(salt: &str, nonce: &str, ciphertext: &str) -> EncFile {
    EncFile {
        version: 1,
        kdf: KdfParams { algo: "argon2id".to_string(), m: 65536, t: 3, p: 1 },
        salt: salt.to_string(),
        nonce: nonce.to_string(),
        ciphertext: ciphertext.to_string(),
    }
}

#[test]
fn corrupt_fields_are_named() {
    let salt = Base64::encode_string(&[7u8; 16]);
    let nonce = Base64::encode_string(&[9u8; 12]);
    let ct = Base64::encode_string(&[1u8; 20]);
    let f = file("not base64!", &nonce, &ct);
    assert!(matches!(decrypt(b"pw", &f), Err(EncError::Corrupt(m)) if m == "bad salt"));
    let f = file(&salt, "%%%%", &ct);
    assert!(matches!(decrypt(b"pw", &f), Err(EncError::Corrupt(m)) if m == "bad nonce"));
    let f = file(&salt, &nonce, "abc");
    assert!(matches!(decrypt(b"pw", &f), Err(EncError::Corrupt(m)) if m == "bad ciphertext"));
    let f = file(&salt, &Base64::encode_string(&[0u8; 11]), &ct);
    assert!(matches!(decrypt(b"pw", &f), Err(EncError::Corrupt(m)) if m == "bad nonce length"));
    // A non-canonical encoding (last bits set) is refused as well.
    let f = file("AB==", &nonce, &ct);
    assert!(matches!(decrypt(b"pw", &f), Err(EncError::Corrupt(m)) if m == "bad salt"));
}

#[test]
fn short_salt_is_a_crypto_error() {
    let f = file(&Base64::encode_string(&[0u8; 4]), &Base64::encode_string(&[9u8; 12]), "AAAA");
    assert!(matches!(decrypt(b"pw", &f), Err(EncError::Crypto(_))));
}

#[test]
fn files_are_not_interchangeable() {
    let a = encrypt(b"pw", b"first").unwrap();
    let mut b = encrypt(b"pw", b"second").unwrap();
    // Another file's nonce no longer matches the ciphertext.
    b.nonce = a.nonce.clone();
    assert!(matches!(decrypt(b"pw", &b), Err(EncError::WrongPassphrase)));
}

#[test]
fn seal_with_is_exact_for_given_salt_and_nonce() {
    let salt = [1u8; 16];
    let nonce = [2u8; 12];
    let a = seal_with(b"pw", b"data", &salt, &nonce).unwrap();
    let b = seal_with(b"pw", b"data", &salt, &nonce).unwrap();
    assert_eq!(a.salt, "AQEBAQEBAQEBAQEBAQEBAQ==");
    assert_eq!(a.nonce, "AgICAgICAgICAgIC");
    assert_eq!(a.ciphertext, b.ciphertext);
    assert_eq!(Base64::decode_vec(&a.ciphertext).unwrap().len(), 4 + 16);
    assert_eq!(decrypt(b"pw", &a).unwrap(), b"data".to_vec());
    let c = seal_with(b"pw", b"data", &salt, &[3u8; 12]).unwrap();
    assert_ne!(a.ciphertext, c.ciphertext);
    assert!(matches!(seal_with(b"pw", b"data", &[1u8; 4], &nonce), Err(EncError::Crypto(_))));
}
