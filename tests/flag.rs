use masquerade::flag::{Flag, FlagPath, FlagValue};
use masquerade::error::Error;

#[test]
fn test_returns_some_if_enabled() {
    let f = Flag::new("key-string".to_string(), FlagValue::Bool(true), 1, true);
    assert_eq!(f.eval(), Some(&FlagValue::Bool(true)));
}

#[test]
fn test_returns_none_if_disabled() {
    let f = Flag::new("key-string".to_string(), FlagValue::Bool(true), 1, false);
    assert_eq!(f.eval(), None);
}

#[test]
fn test_returns_enabled_status() {
    let f1 = Flag::new("key-string".to_string(), FlagValue::Bool(true), 1, true);
    let f2 = Flag::new("key-string".to_string(), FlagValue::Bool(true), 1, false);
    assert_eq!(f1.is_enabled(), true);
    assert_eq!(f2.is_enabled(), false);
}

#[test]
fn test_checks_version() {
    let f = Flag::new("key-string".to_string(), FlagValue::Bool(true), 1, true);
    assert_eq!(f.is_ver(1), true);
    assert_eq!(f.is_ver(2), false);
}

#[test]
fn new_flag_is_created_and_updated_at_once() {
    let f = Flag::new_at("dark_mode".to_string(), FlagValue::Bool(true), 1, true, 1000);
    assert_eq!(f.key(), "dark_mode");
    assert_eq!(f.version(), 1);
    assert_eq!(f.created(), 1000);
    assert_eq!(f.updated(), 1000);
}

#[test]
fn set_value_bumps_version_only_on_change() {
    let mut f = Flag::new_at("k".to_string(), FlagValue::Bool(true), 1, true, 10);
    f.set_value_at(&FlagValue::Bool(true), 20);
    assert_eq!(f.version(), 1);
    assert_eq!(f.updated(), 10);
    f.set_value_at(&FlagValue::Bool(false), 30);
    assert_eq!(f.version(), 2);
    assert_eq!(f.updated(), 30);
    assert_eq!(f.created(), 10);
    assert_eq!(f.value(), &FlagValue::Bool(false));
}

#[test]
fn toggle_moves_update_time_only_on_change() {
    let mut f = Flag::new_at("k".to_string(), FlagValue::Bool(true), 3, true, 10);
    f.toggle_at(true, 20);
    assert_eq!(f.updated(), 10);
    f.toggle_at(false, 25);
    assert!(!f.is_enabled());
    assert_eq!(f.updated(), 25);
    assert_eq!(f.version(), 3);
}

#[test]
fn make_path_joins_with_colons() {
    assert_eq!(FlagPath::make_path("owner", "app", "env"), "owner:app:env");
    let p = FlagPath::new("o".to_string(), "a".to_string(), "e".to_string());
    assert_eq!(p.path, "o:a:e");
    assert_eq!(p.as_str(), "o:a:e");
}

#[test]
fn parse_reads_three_parts() {
    let p = FlagPath::parse("the-owner-uuid-value:app:env").unwrap();
    assert_eq!(p.owner, "the-owner-uuid-value");
    assert_eq!(p.app, "app");
    assert_eq!(p.env, "env");
    assert_eq!(p.path, "the-owner-uuid-value:app:env");
    let q: FlagPath = "x:y:z".parse().unwrap();
    assert_eq!(q.env, "z");
}

#[test]
fn parse_round_trips_make_path() {
    let flat = FlagPath::make_path("alice", "acme", "prod");
    let p = FlagPath::parse(&flat).unwrap();
    assert_eq!((p.owner.as_str(), p.app.as_str(), p.env.as_str()), ("alice", "acme", "prod"));
}

#[test]
fn parse_rejects_other_shapes() {
    for s in ["", "a", "a:b", "a:b:c:d", ":b:c", "a::c", "a:b:", "::"] {
        assert!(matches!(FlagPath::parse(s), Err(Error::FailedToParsePath)), "{}", s);
    }
}
