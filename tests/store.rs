use masquerade::store::decode_pairs;
use masquerade::error::Error;
use masquerade::store::{Command, Fetch, TieredStore};
use masquerade::str_map::StrMap;

const PATH: &str = "the-owner-uuid-value:app:env";

fn store(window: u64) -> TieredStore {
    TieredStore::open("topic".to_string(), Some("pre".to_string()), window)
}

fn publish_message(c: &Command) -> String {
    match c {
        Command::Publish { message, .. } => message.clone(),
        other => panic!("not a publish: {:?}", other),
    }
}

#[test]
fn default_prefix_and_keys() {
    let s = TieredStore::open("masquerade".to_string(), None, 0);
    assert_eq!(s.prefix(), "masquerade");
    assert_eq!(s.topic(), "masquerade");
    assert_eq!(s.full_path("users"), "masquerade:users");
    assert_eq!(s.full_key("users", "alice"), "masquerade:users/alice");
    assert_eq!(TieredStore::all_key("o:a:e"), "o:a:e:all_flags$");
}

#[test]
fn get_of_empty_key_fails() {
    let s = store(0);
    assert!(matches!(s.begin_get(PATH, ""), Err(Error::EmptyKey)));
    assert!(matches!(s.begin_delete(PATH, ""), Err(Error::EmptyKey)));
}

#[test]
fn upsert_of_empty_key_fails_before_any_command() {
    let s = store(0);
    assert!(matches!(s.begin_upsert(PATH, "", "{}"), Err(Error::EmptyKey)));
    assert!(matches!(s.begin_upsert(PATH, "", "fail"), Err(Error::EmptyKey)));
}

#[test]
fn upsert_of_failed_encoding_is_refused() {
    let s = store(0);
    assert!(matches!(s.begin_upsert(PATH, "f1", "fail"), Err(Error::FailedToSerializeItem)));
}

#[test]
fn upsert_reads_then_sets() {
    let s = store(0);
    match s.begin_upsert(PATH, "f1", "{\"a\":1}").unwrap() {
        (Command::HGet { hash, field }, Command::HSet { hash: h2, field: f2, value }) => {
            assert_eq!(hash, "pre:the-owner-uuid-value:app:env");
            assert_eq!(field, "f1");
            assert_eq!(h2, hash);
            assert_eq!(f2, "f1");
            assert_eq!(value, "{\"a\":1}");
        }
        other => panic!("unexpected commands: {:?}", other),
    }
    match s.begin_delete(PATH, "f1").unwrap() {
        (Command::HGet { .. }, Command::HDel { hash, field }) => {
            assert_eq!(hash, "pre:the-owner-uuid-value:app:env");
            assert_eq!(field, "f1");
        }
        other => panic!("unexpected commands: {:?}", other),
    }
}

#[test]
fn read_goes_to_server_then_to_cache() {
    let mut s = store(30);
    match s.begin_get_at(PATH, "f1", 0).unwrap() {
        Fetch::Send(Command::HGet { hash, field }) => {
            assert_eq!(hash, "pre:the-owner-uuid-value:app:env");
            assert_eq!(field, "f1");
        }
        other => panic!("unexpected: {:?}", other),
    }
    assert_eq!(s.finish_get_at(PATH, "f1", Some("v1".to_string()), 0), Some("v1".to_string()));
    match s.begin_get_at(PATH, "f1", 10_000).unwrap() {
        Fetch::Cached(v) => assert_eq!(v, "v1"),
        other => panic!("unexpected: {:?}", other),
    }
    // past the window the server is asked again
    assert!(matches!(s.begin_get_at(PATH, "f1", 30_001).unwrap(), Fetch::Send(_)));
}

#[test]
fn absent_answer_is_not_cached() {
    let mut s = store(0);
    assert_eq!(s.finish_get_at(PATH, "f3", None, 0), None);
    assert!(matches!(s.begin_get_at(PATH, "f3", 0).unwrap(), Fetch::Send(_)));
}

#[test]
fn write_invalidates_local_caches_and_publishes_both_keys() {
    let mut s = store(0);
    s.finish_get_at(PATH, "f1", Some("v1".to_string()), 0);
    let mut all = StrMap::new();
    all.insert("f1".to_string(), "v1".to_string());
    s.finish_get_all_at(PATH, all, 0);
    assert!(matches!(s.begin_get_all_at(PATH, 0), Fetch::Cached(_)));
    let (n1, n2) = s.finish_write(PATH, "f1");
    assert_eq!(publish_message(&n1), "the-owner-uuid-value:app:env:all_flags$");
    assert_eq!(publish_message(&n2), "pre:the-owner-uuid-value:app:env/f1");
    assert!(matches!(s.begin_get_at(PATH, "f1", 0).unwrap(), Fetch::Send(_)));
    assert!(matches!(s.begin_get_all_at(PATH, 0), Fetch::Send(Command::HGetAll { .. })));
}

#[test]
fn notices_converge_another_instance() {
    let mut i1 = store(0);
    let mut i2 = store(0);
    let mut all = StrMap::new();
    all.insert("f1".to_string(), "v1".to_string());
    i1.finish_get_all_at(PATH, all, 0);
    i1.finish_get_at(PATH, "f2", Some("old".to_string()), 0);
    match i1.begin_get_all_at(PATH, 0) {
        Fetch::Cached(m) => assert_eq!(m.len(), 1),
        Fetch::Send(c) => panic!("expected a cached collection, got {:?}", c),
    }
    // the other instance writes f2
    let (n1, n2) = i2.finish_write(PATH, "f2");
    i1.apply_notice(&publish_message(&n2));
    i1.apply_notice(&publish_message(&n1));
    assert!(matches!(i1.begin_get_all_at(PATH, 0), Fetch::Send(_)));
    assert!(matches!(i1.begin_get_at(PATH, "f2", 0).unwrap(), Fetch::Send(_)));
    let mut fresh = StrMap::new();
    fresh.insert("f1".to_string(), "v1".to_string());
    fresh.insert("f2".to_string(), "new".to_string());
    let got = i1.finish_get_all_at(PATH, fresh, 0);
    assert_eq!(got.get("f2"), Some(&"new".to_string()));
}

#[test]
fn notify_and_subscription_name_the_topic() {
    let s = store(0);
    match s.notify(PATH, "k") {
        (Command::Publish { topic, message }, Command::Publish { topic: t2, message: m2 }) => {
            assert_eq!(topic, "topic");
            assert_eq!(t2, "topic");
            assert_eq!(message, "the-owner-uuid-value:app:env:all_flags$");
            assert_eq!(m2, "pre:the-owner-uuid-value:app:env/k");
        }
        other => panic!("unexpected: {:?}", other),
    }
    assert!(matches!(s.subscription(), Command::Subscribe { topic } if topic == "topic"));
}

#[test]
fn hgetall_pairs_become_a_mapping() {
    let items = vec!["f1".to_string(), "v1".to_string(), "f2".to_string(), "v2".to_string(), "f1".to_string(), "v3".to_string()];
    let m = decode_pairs(&items).unwrap();
    assert_eq!(m.len(), 2);
    assert_eq!(m.get("f1"), Some(&"v3".to_string()));
    assert_eq!(m.get("f2"), Some(&"v2".to_string()));
    assert_eq!(decode_pairs(&Vec::new()).unwrap().len(), 0);
    assert!(matches!(decode_pairs(&vec!["odd".to_string()]), Err(Error::RedisAsyncFailure(_))));
}
