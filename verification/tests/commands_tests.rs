use bip39::{Language, Mnemonic};
use keymgr::commands::current::pubkey_for_stem;
use keymgr::commands::delete::{check_confirmation, check_deletable, confirmation_prompt};
use keymgr::commands::import_key::private_key_material;
use keymgr::commands::init::{default_addr, detect_state, State};
use keymgr::commands::list::{list_line, listed_active_path, listed_keys};
use keymgr::commands::new::generate_keypair;
use keymgr::commands::pubkey::pubkey_of;
use keymgr::commands::recover::recover_from_phrase;
use keymgr::error::AppError;
use keymgr::keypair::KeyMaterial;
use keymgr::vault::env::{Env, KeyAddr};
use keymgr::vault::index::{Index, KeyMeta};
use keymgr::vault::paths::Paths;
use keymgr::vault::prompt::{index_labels, label, meta_addr};
use solana_keypair::Signer;

fn meta(env: &str, name: &str, pubkey: &str) -> KeyMeta {
    KeyMeta { name: name.to_string(), env: env.to_string(), pubkey: pubkey.to_string(), created_at: "7".to_string() }
}

#[test]
fn recovers_same_keypair_new_would_generate() {
    let mnemonic = Mnemonic::generate_in(Language::English, 12).unwrap();
    let seed = mnemonic.to_seed("");
    let expected = solana_keypair::keypair_from_seed(&seed).unwrap();

    let recovered: KeyMaterial = recover_from_phrase(&mnemonic.to_string(), "").unwrap();

    assert_eq!(expected.pubkey().to_string(), recovered.pubkey);
}

#[test]
fn rejects_invalid_seed_phrase() {
    assert!(recover_from_phrase("not a real seed phrase at all", "").is_err());
}

#[test]
fn generated_phrase_recovers_its_keypair() {
    let (phrase, k) = generate_keypair().unwrap();
    assert_eq!(phrase.split(' ').count(), 12);
    let again = recover_from_phrase(&phrase, "").unwrap();
    assert_eq!(again.bytes, k.bytes);
    assert_eq!(again.pubkey, k.pubkey);
    let with_pass = recover_from_phrase(&phrase, "extra").unwrap();
    assert_ne!(with_pass.pubkey, k.pubkey);
    let kp = solana_keypair::Keypair::try_from(&k.bytes[..]).unwrap();
    assert_eq!(kp.pubkey().to_string(), k.pubkey);
}

#[test]
fn init_states() {
    let active = "/h/.sol-keymgr/active";
    assert_eq!(detect_state(false, None, active, false), State::Missing);
    assert_eq!(detect_state(true, Some("/h/.sol-keymgr/active/local_default.json"), active, false), State::OurSymlink);
    assert_eq!(detect_state(true, Some("/elsewhere/id.json"), active, false), State::ForeignSymlink);
    assert_eq!(detect_state(true, None, active, true), State::RegularFile);
    assert_eq!(detect_state(true, None, active, false), State::ForeignSymlink);
    let d = default_addr();
    assert_eq!(d, KeyAddr::parse("local/default").unwrap());
}

#[test]
fn list_output() {
    let index = Index { keys: vec![meta("dev", "a", "PA"), meta("prod", "b", "PB")] };
    assert_eq!(listed_keys(&index, None).len(), 2);
    let prod = listed_keys(&index, Some(Env::Prod));
    assert_eq!(prod.len(), 1);
    assert_eq!(list_line(&prod[0], true), "prod/b  PB  created 7 [active]");
    assert_eq!(list_line(&prod[0], false), "prod/b  PB  created 7");
    let p = Paths::for_home("/h");
    assert_eq!(listed_active_path(&p, &prod[0]), "/h/.sol-keymgr/active/prod_b.json");
}

#[test]
fn current_finds_pubkeys_by_stem() {
    let index = Index { keys: vec![meta("dev", "a", "PA"), meta("prod", "b", "PB")] };
    assert_eq!(pubkey_for_stem(&index, "prod_b"), "PB");
    assert_eq!(pubkey_for_stem(&index, "dev_b"), "?(orphan)");
}

#[test]
fn delete_checks() {
    let index = Index { keys: vec![meta("dev", "a", "PA")] };
    let a = KeyAddr::parse("dev/a").unwrap();
    let b = KeyAddr::parse("dev/b").unwrap();
    assert!(check_deletable(&index, &a, false).is_ok());
    assert!(matches!(check_deletable(&index, &a, true), Err(AppError::StillActive(m)) if m == "dev/a"));
    assert!(matches!(check_deletable(&index, &b, false), Err(AppError::KeyNotFound(m)) if m == "dev/b"));
    assert_eq!(confirmation_prompt(&a), "retype 'dev/a' to confirm delete");
    assert!(check_confirmation("dev/a", &a).is_ok());
    assert!(matches!(check_confirmation("dev/a ", &a), Err(AppError::Other(m)) if m == "confirmation did not match, aborted"));
}

#[test]
fn pickers_and_pubkeys() {
    let empty = Index::new();
    assert!(matches!(index_labels(&empty), Err(AppError::Other(m)) if m == "vault is empty"));
    let index = Index { keys: vec![meta("dev", "a", "PA"), meta("bogus", "b", "PB")] };
    assert_eq!(index_labels(&index).unwrap(), vec!["dev/a (PA)".to_string(), "bogus/b (PB)".to_string()]);
    assert_eq!(label(&index.keys[0]), "dev/a (PA)");
    assert_eq!(meta_addr(&index.keys[0]).unwrap(), KeyAddr::parse("dev/a").unwrap());
    assert!(matches!(meta_addr(&index.keys[1]), Err(AppError::InvalidEnv(_))));
    assert_eq!(pubkey_of(&index, &KeyAddr::parse("dev/a").unwrap()).unwrap(), "PA");
    assert!(matches!(pubkey_of(&index, &KeyAddr::parse("dev/z").unwrap()), Err(AppError::KeyNotFound(m)) if m == "dev/z"));
}

#[test]
fn private_key_text_imports_its_keypair() {
    let kp = solana_keypair::Keypair::new_from_array([7u8; 32]);
    let text = format!("  {}\n", kp.to_base58_string());
    let k = private_key_material(&text).unwrap();
    assert_eq!(k.bytes, kp.to_bytes());
    assert_eq!(k.pubkey, kp.pubkey().to_string());
    assert!(matches!(private_key_material("not base58 at all!"), Err(AppError::InvalidPrivateKey(_))));
    assert!(matches!(private_key_material(""), Err(AppError::InvalidPrivateKey(_))));
}
