use keymgr::error::AppError;
use keymgr::vault::env::{validate_name, Env, KeyAddr};

#[test]
fn parses_valid_addr() {
    let addr = KeyAddr::parse("dev/deployer").unwrap();
    assert_eq!(addr.env, Env::Dev);
    assert_eq!(addr.name, "deployer");
    assert_eq!(addr.stem(), "dev_deployer");
}

#[test]
fn rejects_bad_env() {
    assert!(KeyAddr::parse("staging/deployer").is_err());
}

#[test]
fn rejects_bad_name() {
    assert!(KeyAddr::parse("dev/Deployer_1").is_err());
    assert!(KeyAddr::parse("dev/").is_err());
    assert!(KeyAddr::parse(&format!("dev/{}", "a".repeat(33))).is_err());
}

#[test]
fn rejects_missing_slash() {
    assert!(KeyAddr::parse("deployer").is_err());
}

#[test]
fn parse_errors_carry_the_offending_part() {
    match KeyAddr::parse("deployer") {
        Err(AppError::Other(m)) => assert_eq!(m, "expected env/name, got 'deployer'"),
        other => panic!("unexpected {:?}", other),
    }
    match KeyAddr::parse("staging/deployer") {
        Err(AppError::InvalidEnv(m)) => assert_eq!(m, "staging (expected one of local, dev, prod)"),
        other => panic!("unexpected {:?}", other),
    }
    match KeyAddr::parse("prod/a/b") {
        Err(AppError::InvalidName(m)) => assert_eq!(m, "a/b"),
        other => panic!("unexpected {:?}", other),
    }
}

#[test]
fn text_form_reads_back() {
    for text in ["local/default", "dev/deployer", "prod/x-1", "dev/0"] {
        let addr = KeyAddr::parse(text).unwrap();
        assert_eq!(addr.to_string(), text);
        assert_eq!(KeyAddr::parse(&addr.to_string()).unwrap(), addr);
    }
}

#[test]
fn name_limits() {
    assert!(validate_name(&"a".repeat(32)).is_ok());
    assert!(validate_name(&"a".repeat(33)).is_err());
    assert!(validate_name("a-b-0-9").is_ok());
    assert!(validate_name("").is_err());
    assert!(validate_name("é").is_err());
    assert!(validate_name("UPPER").is_err());
    match validate_name("x y") {
        Err(AppError::InvalidName(m)) => assert_eq!(m, "x y"),
        other => panic!("unexpected {:?}", other),
    }
}

#[test]
fn stems_are_distinct() {
    let a = KeyAddr::parse("dev/a").unwrap();
    let b = KeyAddr::parse("local/a").unwrap();
    let c = KeyAddr::parse("dev/b").unwrap();
    assert_eq!(a.stem(), "dev_a");
    assert_ne!(a.stem(), b.stem());
    assert_ne!(a.stem(), c.stem());
}

#[test]
fn env_text_forms() {
    assert!(Env::Prod.is_prod());
    assert!(!Env::Dev.is_prod());
    assert!(!Env::Local.is_prod());
    for (e, s) in [(Env::Local, "local"), (Env::Dev, "dev"), (Env::Prod, "prod")] {
        assert_eq!(e.as_str(), s);
        assert_eq!(e.to_string(), s);
        assert_eq!(Env::from_name(s).unwrap(), e);
        assert_eq!(s.parse::<Env>().unwrap(), e);
    }
    assert!(Env::from_name("Prod").is_err());
}
