use keymgr::encryption::encrypt;
use keymgr::error::{AppError, EncError};
use keymgr::vault::env::KeyAddr;
use keymgr::vault::index::Index;
use keymgr::vault::store::{delete, encode_keypair_json, load_decrypt, store};

fn addr(s: &str) -> KeyAddr {
    KeyAddr::parse(s).unwrap()
}

#[test]
fn keypair_json_is_solana_keygen_format() {
    let mut bytes = [0u8; 64];
    bytes[0] = 1;
    bytes[1] = 255;
    bytes[63] = 10;
    let out = String::from_utf8(encode_keypair_json(bytes).unwrap()).unwrap();
    let mut expected = String::from("[1,255");
    for _ in 2..63 {
        expected.push_str(",0");
    }
    expected.push_str(",10]");
    assert_eq!(out, expected);
}

#[test]
fn store_records_and_seals() {
    let mut index = Index::new();
    let a = addr("dev/deployer");
    let enc = store(&mut index, &a, "PUBKEY", b"[1,2,3]", b"pw").unwrap();
    assert!(index.contains(&a));
    assert_eq!(index.find(&a).unwrap().pubkey, "PUBKEY");
    assert_eq!(load_decrypt(&a, Some(&enc), b"pw").unwrap(), b"[1,2,3]");
}

#[test]
fn store_refuses_duplicates_and_leaves_index_alone() {
    let mut index = Index::new();
    let a = addr("dev/deployer");
    store(&mut index, &a, "P1", b"x", b"pw").unwrap();
    match store(&mut index, &a, "P2", b"y", b"pw") {
        Err(AppError::DuplicateKey(m)) => assert_eq!(m, "dev/deployer"),
        other => panic!("unexpected {:?}", other.map(|_| ())),
    }
    assert_eq!(index.keys.len(), 1);
    assert_eq!(index.keys[0].pubkey, "P1");
}

#[test]
fn load_decrypt_reports_missing_and_wrong_passphrase() {
    let a = addr("local/default");
    match load_decrypt(&a, None, b"pw") {
        Err(AppError::KeyNotFound(m)) => assert_eq!(m, "local/default"),
        other => panic!("unexpected {:?}", other),
    }
    let enc = encrypt(b"pw", b"secret").unwrap();
    assert!(matches!(load_decrypt(&a, Some(&enc), b"other"), Err(AppError::Enc(EncError::WrongPassphrase))));
}

#[test]
fn delete_removes_or_reports() {
    let mut index = Index::new();
    let a = addr("prod/k");
    match delete(&mut index, &a) {
        Err(AppError::KeyNotFound(m)) => assert_eq!(m, "prod/k"),
        other => panic!("unexpected {:?}", other),
    }
    index.insert_created_at(&a, "P".to_string(), "1".to_string());
    index.insert_created_at(&addr("prod/j"), "Q".to_string(), "2".to_string());
    delete(&mut index, &a).unwrap();
    assert!(!index.contains(&a));
    assert!(index.contains(&addr("prod/j")));
}
