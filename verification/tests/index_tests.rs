use keymgr::vault::env::{Env, KeyAddr};
use keymgr::vault::index::{Index, KeyMeta};

fn addr(s: &str) -> KeyAddr {
    KeyAddr::parse(s).unwrap()
}

fn meta(env: &str, name: &str, pubkey: &str) -> KeyMeta {
    KeyMeta {
        name: name.to_string(),
        env: env.to_string(),
        pubkey: pubkey.to_string(),
        created_at: "1".to_string(),
    }
}

#[test]
fn insert_then_find() {
    let mut index = Index::new();
    assert!(!index.contains(&addr("dev/a")));
    index.insert(&addr("dev/a"), "PK".to_string());
    assert!(index.contains(&addr("dev/a")));
    assert!(!index.contains(&addr("local/a")));
    let k = index.find(&addr("dev/a")).unwrap();
    assert_eq!(k.env, "dev");
    assert_eq!(k.name, "a");
    assert_eq!(k.pubkey, "PK");
    // creation time: whole seconds since the epoch, in decimal
    assert!(!k.created_at.is_empty());
    assert!(k.created_at.chars().all(|c| c.is_ascii_digit()));
    assert!(k.created_at.parse::<u64>().unwrap() > 1_600_000_000);
}

#[test]
fn insert_created_at_is_exact() {
    let mut index = Index::new();
    index.insert_created_at(&addr("prod/x"), "P".to_string(), "42".to_string());
    assert_eq!(index.keys.len(), 1);
    assert_eq!(index.keys[0].created_at, "42");
    assert_eq!(index.keys[0].env, "prod");
}

#[test]
fn find_returns_first_match() {
    let index = Index {
        keys: vec![meta("dev", "a", "first"), meta("dev", "b", "other"), meta("dev", "a", "second")],
    };
    assert_eq!(index.find(&addr("dev/a")).unwrap().pubkey, "first");
    assert!(index.find(&addr("prod/a")).is_none());
}

#[test]
fn remove_drops_every_record_of_the_address_only() {
    let mut index = Index {
        keys: vec![
            meta("dev", "a", "1"),
            meta("local", "a", "2"),
            meta("dev", "a", "3"),
            meta("dev", "b", "4"),
        ],
    };
    index.remove(&addr("dev/a"));
    let left: Vec<&str> = index.keys.iter().map(|k| k.pubkey.as_str()).collect();
    assert_eq!(left, vec!["2", "4"]);
    assert!(!index.contains(&addr("dev/a")));
    assert!(index.contains(&addr("local/a")));
    index.remove(&addr("prod/zzz"));
    assert_eq!(index.keys.len(), 2);
}

#[test]
fn for_env_filters_in_order() {
    let index = Index {
        keys: vec![meta("dev", "a", "1"), meta("prod", "b", "2"), meta("dev", "c", "3")],
    };
    let dev: Vec<String> = index.for_env(Env::Dev).into_iter().map(|k| k.name).collect();
    assert_eq!(dev, vec!["a", "c"]);
    assert!(index.for_env(Env::Local).is_empty());
}

#[test]
fn clone_keeps_fields() {
    let m = meta("dev", "a", "P");
    let c = m.clone();
    assert_eq!((c.name, c.env, c.pubkey, c.created_at), (m.name, m.env, m.pubkey, m.created_at));
}
