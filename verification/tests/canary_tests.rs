use keymgr::encryption::{encrypt, EncFile, KdfParams};
use keymgr::error::{AppError, EncError};
use keymgr::vault::canary::{check, create, ensure_unlocked};

#[test]
fn verifier_accepts_its_passphrase_only() {
    let v = create(b"pw").unwrap();
    assert!(check(b"pw", &v).is_ok());
    assert!(matches!(check(b"nope", &v), Err(AppError::Enc(EncError::WrongPassphrase))));
}

#[test]
fn verifier_holding_other_bytes_is_refused() {
    let v = encrypt(b"pw", b"not the canary").unwrap();
    assert!(matches!(check(b"pw", &v), Err(AppError::Enc(EncError::WrongPassphrase))));
}

#[test]
fn existing_verifier_is_checked() {
    let v = create(b"pw").unwrap();
    assert!(matches!(ensure_unlocked(b"pw", Some(&v), &Vec::new()), Ok(None)));
    assert!(matches!(
        ensure_unlocked(b"bad", Some(&v), &Vec::new()),
        Err(AppError::Enc(EncError::WrongPassphrase))
    ));
}

#[test]
fn verifier_with_other_bytes_refuses_as_wrong_passphrase() {
    let other = encrypt(b"pw", b"not the canary").unwrap();
    assert!(matches!(
        ensure_unlocked(b"pw", Some(&other), &Vec::new()),
        Err(AppError::Enc(EncError::WrongPassphrase))
    ));
}

#[test]
fn empty_vault_creates_verifier() {
    let v = ensure_unlocked(b"pw", None, &Vec::new()).unwrap().unwrap();
    assert!(check(b"pw", &v).is_ok());
}

#[test]
fn healing_accepts_a_passphrase_every_entry_opens_under() {
    let a = encrypt(b"pw", b"a").unwrap();
    let v = ensure_unlocked(b"pw", None, &vec![("dev_a".to_string(), a)]).unwrap().unwrap();
    assert!(check(b"pw", &v).is_ok());
}

fn unreadable() -> EncFile {
    EncFile {
        version: 1,
        kdf: KdfParams { algo: "argon2id".to_string(), m: 65536, t: 3, p: 1 },
        salt: "!".to_string(),
        nonce: "!".to_string(),
        ciphertext: "!".to_string(),
    }
}

#[test]
fn healing_names_the_entries_that_do_not_open() {
    let b = encrypt(b"other", b"b").unwrap();
    let entries = vec![("dev_b".to_string(), b), ("prod_c".to_string(), unreadable())];
    match ensure_unlocked(b"pw", None, &entries) {
        Err(AppError::Other(m)) => assert_eq!(
            m,
            "verifier missing and passphrase does not match: dev_b, prod_c (mixed-passphrase vault, cannot heal)"
        ),
        other => panic!("unexpected {:?}", other.map(|_| ())),
    }
}
