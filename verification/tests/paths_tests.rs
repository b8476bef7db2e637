use keymgr::vault::env::KeyAddr;
use keymgr::vault::paths::{join, same_path, starts_with_path, Paths};

#[test]
fn layout_under_home() {
    let p = Paths::for_home("/home/u");
    assert_eq!(p.root(), "/home/u/.sol-keymgr");
    assert_eq!(p.vault_dir(), "/home/u/.sol-keymgr/vault");
    assert_eq!(p.active_dir(), "/home/u/.sol-keymgr/active");
    assert_eq!(p.backup_dir(), "/home/u/.sol-keymgr/backup");
    assert_eq!(p.index_file(), "/home/u/.sol-keymgr/index.json");
    assert_eq!(p.verifier_file(), "/home/u/.sol-keymgr/verifier.enc");
    assert_eq!(p.config_file(), "/home/u/.sol-keymgr/config.toml");
    assert_eq!(p.id_backup_file(), "/home/u/.sol-keymgr/backup/id.json.bak");
    let a = KeyAddr::parse("dev/deployer").unwrap();
    assert_eq!(p.vault_entry(&a), "/home/u/.sol-keymgr/vault/dev_deployer.enc");
    assert_eq!(p.active_entry(&a), "/home/u/.sol-keymgr/active/dev_deployer.json");
}

#[test]
fn join_follows_pathbuf() {
    assert_eq!(join("/a", "b"), "/a/b");
    assert_eq!(join("/a/", "b"), "/a/b");
    assert_eq!(join("", "b"), "b");
    assert_eq!(join("/a", "/etc"), "/etc");
    let home = Paths::for_home("/home/u/");
    assert_eq!(home.root(), "/home/u/.sol-keymgr");
}

#[test]
fn path_prefixes_are_by_component() {
    assert!(starts_with_path("/h/.sol-keymgr/active/dev_a.json", "/h/.sol-keymgr/active"));
    assert!(starts_with_path("/h//.sol-keymgr/./active/x", "/h/.sol-keymgr/active/"));
    assert!(!starts_with_path("/h/.sol-keymgr/activex/a", "/h/.sol-keymgr/active"));
    assert!(!starts_with_path("h/.sol-keymgr/active/a", "/h/.sol-keymgr/active"));
    assert!(starts_with_path("./a/b", "./a"));
    assert!(!starts_with_path("a/b", "./a"));
    assert!(starts_with_path("anything", ""));
}

#[test]
fn path_equality_is_by_component() {
    assert!(same_path("/a/b", "/a//b/"));
    assert!(same_path("/a/./b", "/a/b"));
    assert!(!same_path("/a/b", "/a/c"));
    assert!(!same_path("a/b", "/a/b"));
}

#[test]
fn resolve_uses_home() {
    let p = Paths::resolve().unwrap();
    assert!(p.root().ends_with("/.sol-keymgr"));
    assert!(p.solana_id().unwrap().ends_with("/.config/solana/id.json"));
}
