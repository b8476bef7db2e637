use keymgr::commands::env_cmd::{solana_config_with_keypair, DEFAULT_SOLANA_CONFIG};
use keymgr::text::{join_strings, lines, push_decimal, starts_with, trim, trim_start};
use keymgr::vault::binding::{bound_document, gitignore_update, key_from_binding};
use keymgr::vault::env::{Env, KeyAddr};
use keymgr::error::AppError;

#[test]
fn lines_follow_str_lines() {
    for s in ["", "a", "a\n", "a\r\nb", "a\n\nb\n", "\n", "x\ry\n", "a\r"] {
        let expected: Vec<String> = s.lines().map(|l| l.to_string()).collect();
        assert_eq!(lines(s), expected, "input {:?}", s);
    }
}

#[test]
fn trim_follows_str_trim() {
    for s in ["", "  a b  ", "\t\n x \u{3000}", "\u{a0}y", "zz", "   "] {
        assert_eq!(trim(s), s.trim());
        assert_eq!(trim_start(s), s.trim_start());
    }
}

#[test]
fn decimal_and_join() {
    let mut s = String::new();
    push_decimal(0, &mut s);
    assert_eq!(s, "0");
    let mut s = String::from("t=");
    push_decimal(1234567890123, &mut s);
    assert_eq!(s, "t=1234567890123");
    assert_eq!(join_strings(&vec!["a".to_string(), "b".to_string()], ", "), "a, b");
    assert_eq!(join_strings(&vec![], ", "), "");
    assert!(starts_with("keypair_path: x", "keypair_path:"));
    assert!(!starts_with("keypair", "keypair_path:"));
}

#[test]
fn config_keypair_line_is_replaced_or_added() {
    let base = "json_rpc_url: x\n  keypair_path: /old\ncommitment: confirmed\n";
    assert_eq!(
        solana_config_with_keypair(base, "/k.json"),
        "json_rpc_url: x\nkeypair_path: /k.json\ncommitment: confirmed\n"
    );
    let out = solana_config_with_keypair(DEFAULT_SOLANA_CONFIG, "/a/b.json");
    assert!(out.starts_with(DEFAULT_SOLANA_CONFIG));
    assert!(out.ends_with("commitment: confirmed\nkeypair_path: /a/b.json\n"));
    assert_eq!(solana_config_with_keypair("", "/p"), "keypair_path: /p\n");
}

#[test]
fn gitignore_gains_the_binding_once() {
    assert_eq!(gitignore_update("").unwrap(), ".keymgr.toml\n");
    assert_eq!(gitignore_update("target").unwrap(), "target\n.keymgr.toml\n");
    let once = gitignore_update("target\n").unwrap();
    assert_eq!(once, "target\n.keymgr.toml\n");
    assert!(gitignore_update(&once).is_none());
    assert!(gitignore_update("a\n  .keymgr.toml \r\nb").is_none());
    assert!(gitignore_update("x.keymgr.toml\n").is_some());
}

#[test]
fn binding_roundtrips_and_keeps_other_fields() {
    let addr = KeyAddr::parse("dev/deployer").unwrap();
    let doc = bound_document(None, &addr).unwrap();
    let back = key_from_binding(&doc).unwrap().unwrap();
    assert_eq!(back, addr);

    let existing = "other = \"kept\"\nkey = \"local/old\"\n";
    let doc = bound_document(Some(existing), &addr).unwrap();
    assert_eq!(key_from_binding(&doc).unwrap().unwrap().env, Env::Dev);
    let table: toml::Table = toml::from_str(&doc).unwrap();
    assert_eq!(table.get("other").and_then(|v| v.as_str()), Some("kept"));

    let mixed = "n = 7\nflags = [true, false]\n[section]\ninner = \"x\"\n";
    let doc = bound_document(Some(mixed), &addr).unwrap();
    let table: toml::Table = toml::from_str(&doc).unwrap();
    let before: toml::Table = toml::from_str(mixed).unwrap();
    for (k, v) in before.iter() {
        assert_eq!(table.get(k), Some(v));
    }
    assert_eq!(table.len(), before.len() + 1);
    assert_eq!(table.get("key").and_then(|v| v.as_str()), Some("dev/deployer"));

    assert!(key_from_binding("x = 1\n").unwrap().is_none());
    assert!(key_from_binding("key = 5\n").unwrap().is_none());
    assert!(matches!(key_from_binding("key = \"nope\"\n"), Err(AppError::Other(_))));
    assert!(matches!(key_from_binding("not toml ="), Err(AppError::TomlDe(_))));
    assert!(matches!(bound_document(Some("[["), &addr), Err(AppError::TomlDe(_))));
}
