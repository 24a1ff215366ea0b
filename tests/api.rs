use masquerade::api::{paths_of, renamed, stream_step, update_user_with_salt, StreamAction};
use masquerade::api::{
    apply_update, check_absent, check_new_flag, event_frame, found, stream_wants, update_user, APIUser,
    FlagCreateReq, FlagTouchReq,
};
use masquerade::api_error::{APIError, StoreElements};
use masquerade::error::Error;
use masquerade::flag::{Flag, FlagPath, FlagValue};
use masquerade::order::{sort_by_key, str_le};
use masquerade::user::User;

fn alice() -> User {
    User::new_with_salt("alice-uuid".to_string(), "alice".to_string(), &[9u8; 16], "pw", true)
}

#[test]
fn scenario_create_then_read() {
    let flag = Flag::new_at("dark_mode".to_string(), FlagValue::Bool(true), 1, true, 500);
    assert!(check_new_flag(&flag).is_ok());
    assert!(check_absent::<Flag>(&None).is_ok());
    let read = found(Some(flag), StoreElements::Flag).unwrap();
    assert_eq!(read.created(), read.updated());
    assert_eq!(read.version(), 1);
}

#[test]
fn scenario_update_bumps_version() {
    let stored = Flag::new_at("dark_mode".to_string(), FlagValue::Bool(true), 1, true, 500);
    let request = Flag::new_at("dark_mode".to_string(), FlagValue::Bool(false), 1, true, 0);
    let updated = apply_update(stored, &request, 600);
    assert_eq!(updated.version(), 2);
    assert_eq!(updated.created(), 500);
    assert!(updated.updated() > updated.created());
    assert_eq!(updated.value(), &FlagValue::Bool(false));
}

#[test]
fn scenario_no_op_toggle() {
    let stored = Flag::new_at("dark_mode".to_string(), FlagValue::Bool(false), 2, true, 500);
    let request = Flag::new_at("dark_mode".to_string(), FlagValue::Bool(false), 9, true, 0);
    let same = apply_update(stored, &request, 700);
    assert_eq!(same.version(), 2);
    assert_eq!(same.updated(), 500);
}

#[test]
fn toggle_alone_keeps_version() {
    let stored = Flag::new_at("k".to_string(), FlagValue::Bool(true), 4, true, 100);
    let request = Flag::new_at("k".to_string(), FlagValue::Bool(true), 1, false, 0);
    let off = apply_update(stored, &request, 200);
    assert_eq!(off.version(), 4);
    assert!(!off.is_enabled());
    assert_eq!(off.updated(), 200);
}

#[test]
fn scenario_duplicate_create() {
    let existing = Some(Flag::new_at("dark_mode".to_string(), FlagValue::Bool(true), 1, true, 1));
    let err = check_absent(&existing).unwrap_err();
    assert!(matches!(err, APIError::AlreadyExists));
    assert_eq!(err.status(), 409);
}

#[test]
fn empty_key_is_invalid() {
    let flag = Flag::new_at(String::new(), FlagValue::Bool(true), 1, true, 1);
    assert_eq!(check_new_flag(&flag).unwrap_err().status(), 400);
}

#[test]
fn missing_record_is_not_found() {
    let err = found::<Flag>(None, StoreElements::User).unwrap_err();
    assert!(matches!(err, APIError::FailedToFind(StoreElements::User)));
    assert_eq!(err.status(), 404);
    assert_eq!(StoreElements::User.as_str(), "user");
}

#[test]
fn error_statuses() {
    assert_eq!(APIError::ConfigFailure.status(), 500);
    assert_eq!(APIError::FailedToAccessStore(Error::EmptyKey).status(), 500);
    assert_eq!(APIError::FailedToParseAuth.status(), 400);
    assert_eq!(APIError::FailedToParseBody.status(), 400);
    assert_eq!(APIError::FailedToParseParams.status(), 400);
    assert_eq!(APIError::FailedToSerialize.status(), 500);
    assert_eq!(APIError::FailedToWriteToStore.status(), 500);
    assert_eq!(APIError::JWTError.status(), 401);
    assert_eq!(APIError::InvalidPayload.status(), 400);
    assert_eq!(APIError::Unauthorized.status(), 401);
    assert_eq!(APIError::Forbidden.status(), 403);
    assert_eq!(APIError::SystemFailure.status(), 500);
}

#[test]
fn list_is_sorted_by_key() {
    let flags = vec![
        Flag::new_at("f2".to_string(), FlagValue::Bool(true), 1, true, 0),
        Flag::new_at("a".to_string(), FlagValue::Bool(true), 1, true, 0),
        Flag::new_at("f10".to_string(), FlagValue::Bool(true), 1, true, 0),
        Flag::new_at("F".to_string(), FlagValue::Bool(true), 1, true, 0),
        Flag::new_at("f1".to_string(), FlagValue::Bool(false), 1, true, 0),
    ];
    let sorted = sort_by_key(flags);
    let keys: Vec<&str> = sorted.iter().map(|f| f.key()).collect();
    assert_eq!(keys, vec!["F", "a", "f1", "f10", "f2"]);
    assert!(sort_by_key::<Flag>(Vec::new()).is_empty());
}

#[test]
fn string_order_matches_std() {
    for (a, b) in [("", ""), ("a", ""), ("", "a"), ("ab", "abc"), ("b", "abc"), ("é", "z"), ("Z", "a")] {
        assert_eq!(str_le(a, b), a <= b, "{} {}", a, b);
    }
}

#[test]
fn users_listed_by_key() {
    let users = vec![
        APIUser { key: "zed".to_string(), secret: None, is_admin: false },
        APIUser { key: "amy".to_string(), secret: None, is_admin: true },
    ];
    let sorted = sort_by_key(users);
    assert_eq!(sorted[0].key, "amy");
    assert_eq!(sorted[1].key, "zed");
}

#[test]
fn event_frame_is_exact() {
    assert_eq!(event_frame("[]"), "event:data\ndata:[]\n\n");
}

#[test]
fn stream_follows_its_scope() {
    let p = FlagPath::new("o".to_string(), "acme".to_string(), "prod".to_string());
    assert!(stream_wants("o:acme:prod:all_flags$", &p));
    assert!(!stream_wants("o:acme:dev:all_flags$", &p));
    assert!(!stream_wants("masquerade:o:acme:prod/k", &p));
}

#[test]
fn flag_requests_are_owned_by_the_user() {
    let u = alice();
    let r = FlagTouchReq { app: "acme".to_string(), env: "prod".to_string(), key: "k".to_string() }
        .to_flag_req(&u);
    assert_eq!(r.path.owner, "alice-uuid");
    assert_eq!(r.path.path, "alice-uuid:acme:prod");
    let (_, key) = r.parts();
    assert_eq!(key, Some("k".to_string()));
    let c = FlagCreateReq { app: "a".to_string(), env: "e".to_string() }.to_flag_req(&u);
    assert!(c.key.is_none());
}

#[test]
fn api_user_round_trip() {
    let req = APIUser { key: "bob".to_string(), secret: Some("pw".to_string()), is_admin: false };
    let u = req.into_user("bob-uuid".to_string()).unwrap();
    assert!(u.verify_secret("pw"));
    let shown = APIUser::from_user(&u);
    assert_eq!(shown.key, "bob");
    assert!(shown.secret.is_none());
    let no_secret = APIUser { key: "bob".to_string(), secret: None, is_admin: false };
    assert!(no_secret.into_user("x".to_string()).is_err());
}

#[test]
fn user_update_rederives_only_for_a_new_secret() {
    let keep = update_user(alice(), &APIUser { key: "al".to_string(), secret: Some(String::new()), is_admin: false }).unwrap();
    assert!(keep.verify_secret("pw"));
    assert_eq!(keep.key, "al");
    assert!(!keep.is_admin());
    let changed = update_user(alice(), &APIUser { key: "alice".to_string(), secret: Some("new".to_string()), is_admin: true }).unwrap();
    assert!(changed.verify_secret("new"));
    assert!(!changed.verify_secret("pw"));
}

#[test]
fn paths_are_listed_for_their_owner() {
    let paths = vec![
        FlagPath::new("u1".to_string(), "a".to_string(), "e".to_string()),
        FlagPath::new("u2".to_string(), "a".to_string(), "e".to_string()),
        FlagPath::new("u1".to_string(), "b".to_string(), "e".to_string()),
    ];
    let mine = paths_of(&paths, "u1");
    let flat: Vec<&str> = mine.iter().map(|p| p.path.as_str()).collect();
    assert_eq!(flat, vec!["u1:a:e", "u1:b:e"]);
    assert!(paths_of(&paths, "u3").is_empty());
}

#[test]
fn rename_is_detected() {
    let u = alice();
    assert!(!renamed("alice", &u));
    assert!(renamed("al", &u));
}

#[test]
fn stream_steps() {
    let p = FlagPath::new("o".to_string(), "acme".to_string(), "prod".to_string());
    assert_eq!(stream_step(true, None, &p), StreamAction::Snapshot);
    assert_eq!(stream_step(false, Some("o:acme:prod:all_flags$"), &p), StreamAction::EvictAndSnapshot);
    assert_eq!(stream_step(false, Some("o:acme:dev:all_flags$"), &p), StreamAction::Skip);
    assert_eq!(stream_step(false, None, &p), StreamAction::End);
}

#[test]
fn new_secret_gets_a_new_salt() {
    let stored = alice();
    let old_salt = stored.salt.clone();
    let req = APIUser { key: "alice".to_string(), secret: Some("new".to_string()), is_admin: true };
    let u = update_user_with_salt(stored, &req, &[0u8; 16]).unwrap();
    assert_eq!(u.salt, "AAAAAAAAAAAAAAAAAAAAAA==");
    assert_ne!(u.salt, old_salt);
    assert!(u.verify_secret("new"));
    let fresh = update_user(alice(), &req).unwrap();
    assert_ne!(fresh.salt, old_salt);
    assert_eq!(fresh.salt.len(), 24);
    let same = update_user(alice(), &APIUser { key: "alice".to_string(), secret: None, is_admin: true }).unwrap();
    assert_eq!(same.salt, old_salt);
}
