use masquerade::api_error::APIError;
use masquerade::auth::{
    find_by_uuid, strip_scheme, verify_auth, Admin, AuthReq, BasicAuth, Claims, JWTAuth, RequireUser,
    UrlAuth, TOKEN_LIFETIME,
};
use masquerade::user::User;

fn user(admin: bool) -> User {
    User::new_with_salt("uuid-1".to_string(), "alice".to_string(), &[7u8; 16], "secret", admin)
}

#[test]
fn parses_basic_credentials() {
    let a = AuthReq::parse("YWxpY2U6c2VjcmV0").unwrap();
    assert_eq!(a.key, "alice");
    assert_eq!(a.secret, "secret");
    let b: AuthReq = "Ym9iOnBhOnNz".parse().unwrap();
    assert_eq!(b.key, "bob");
    assert_eq!(b.secret, "pa:ss");
}

#[test]
fn splits_decoded_credentials_at_the_first_separator() {
    let a = AuthReq::from_text("alice:se:cr:et").unwrap();
    assert_eq!(a.key, "alice");
    assert_eq!(a.secret, "se:cr:et");
    let e = AuthReq::from_text(":").unwrap();
    assert_eq!(e.key, "");
    assert_eq!(e.secret, "");
    assert!(matches!(AuthReq::from_text("alice"), Err(APIError::FailedToParseAuth)));
}

#[test]
fn rejects_unreadable_credentials() {
    assert!(matches!(AuthReq::parse("YWxpY2U="), Err(APIError::FailedToParseAuth)));
    assert!(matches!(AuthReq::parse("not base64!"), Err(APIError::FailedToParseAuth)));
    assert!(matches!(AuthReq::parse("//46eA=="), Err(APIError::FailedToParseAuth)));
}

#[test]
fn header_scheme_is_skipped() {
    assert_eq!(strip_scheme("Basic YWxpY2U6c2VjcmV0"), Some("YWxpY2U6c2VjcmV0"));
    assert_eq!(strip_scheme("Bear"), None);
    let c = BasicAuth::credentials(false, Some("Basic YWxpY2U6c2VjcmV0")).unwrap();
    assert_eq!(c.key, "alice");
    assert!(BasicAuth::credentials(true, Some("Basic YWxpY2U6c2VjcmV0")).is_none());
    assert!(UrlAuth::credentials(false, Some("YWxpY2U6c2VjcmV0")).is_some());
    assert_eq!(JWTAuth::token(false, Some("Bearertok")), Some("tok"));
    assert_eq!(JWTAuth::token(true, Some("Bearertok")), None);
}

#[test]
fn token_is_valid_for_a_day() {
    let t = 1_000_000;
    let c = Claims::issue("uuid-1", t);
    assert_eq!(c.iss, "masquerade");
    assert_eq!(c.exp, t + 86400);
    assert!(!c.valid_at(t - 1));
    assert!(c.valid_at(t));
    assert!(c.valid_at(t + TOKEN_LIFETIME - 1));
    assert!(!c.valid_at(t + TOKEN_LIFETIME));
    assert_eq!(JWTAuth::subject(&c, t + 5), Some("uuid-1"));
    assert_eq!(JWTAuth::subject(&c, t + TOKEN_LIFETIME), None);
}

#[test]
fn foreign_issuer_is_refused() {
    let mut c = Claims::issue("uuid-1", 10);
    c.iss = "other".to_string();
    assert!(!c.valid_at(10));
}

#[test]
fn login_checks_the_secret() {
    assert!(verify_auth(Some(user(false)), "secret").is_some());
    assert!(verify_auth(Some(user(false)), "wrong").is_none());
    assert!(verify_auth(None, "secret").is_none());
}

#[test]
fn gates_for_users_and_admins() {
    let a = user(true);
    let u = user(false);
    assert!(RequireUser::start(Some(&u)).is_ok());
    assert_eq!(RequireUser::start(None).unwrap_err().status(), 401);
    assert!(Admin::start(Some(&a)).is_ok());
    assert_eq!(Admin::start(Some(&u)).unwrap_err().status(), 403);
    assert_eq!(Admin::start(None).unwrap_err().status(), 401);
}

#[test]
fn finds_users_by_identifier() {
    let users = vec![user(false), User::new_with_salt("uuid-2".to_string(), "bob".to_string(), &[1u8; 16], "x", false)];
    assert_eq!(find_by_uuid(&users, "uuid-2"), Some(1));
    assert_eq!(find_by_uuid(&users, "uuid-3"), None);
}
