use masquerade::user::{seed_default, Seed, DEFAULT_PASS, DEFAULT_USER};
use masquerade::user::User;

#[test]
fn verifies_its_own_secret_only() {
    let u = User::new("id".to_string(), "alice".to_string(), "facade".to_string(), true).unwrap();
    assert!(u.verify_secret("facade"));
    assert!(!u.verify_secret("facade2"));
    assert!(!u.verify_secret(""));
    assert!(u.is_admin());
    assert_eq!(u.salt.len(), 24);
}

#[test]
fn salt_is_base64_of_the_bytes() {
    let bytes: [u8; 16] = [0, 1, 2, 3, 4, 5, 6, 7, 8, 9, 10, 11, 12, 13, 14, 15];
    let u = User::new_with_salt("id".to_string(), "k".to_string(), &bytes, "s", false);
    assert_eq!(u.salt, "AAECAwQFBgcICQoLDA0ODw==");
    assert_eq!(u.hash, User::generate_hash("AAECAwQFBgcICQoLDA0ODw==", "s"));
    assert_ne!(u.hash, [0u8; 32]);
}

#[test]
fn secrets_derive_distinct_credentials() {
    assert_ne!(User::generate_hash("salt", "a"), User::generate_hash("salt", "b"));
    assert_ne!(User::generate_hash("salt1", "a"), User::generate_hash("salt2", "a"));
}

#[test]
fn update_secret_replaces_the_credential() {
    let mut u = User::new_with_salt("id".to_string(), "k".to_string(), &[3u8; 16], "old", false);
    u.update_secret("new");
    assert!(u.verify_secret("new"));
    assert!(!u.verify_secret("old"));
    u.set_key("k2".to_string());
    u.set_admin_status(true);
    assert_eq!(u.key, "k2");
    assert!(u.is_admin());
}

#[test]
fn fresh_users_get_fresh_salts() {
    let a = User::new("1".to_string(), "a".to_string(), "s".to_string(), false).unwrap();
    let b = User::new("2".to_string(), "b".to_string(), "s".to_string(), false).unwrap();
    assert_ne!(a.salt, b.salt);
}

#[test]
fn default_admin_seeding() {
    assert_eq!(seed_default(None), Seed::Create);
    let default = User::new("id".to_string(), DEFAULT_USER.to_string(), DEFAULT_PASS.to_string(), true).unwrap();
    assert_eq!(seed_default(Some(&default)), Seed::WarnDefaultSecret);
    let changed = User::new("id".to_string(), DEFAULT_USER.to_string(), "other".to_string(), true).unwrap();
    assert_eq!(seed_default(Some(&changed)), Seed::Keep);
}

#[test]
fn generated_secrets_are_base64_of_sixteen_bytes() {
    let a = masquerade::credential::generate_secret();
    let b = masquerade::credential::generate_secret();
    assert_eq!(a.len(), 24);
    assert!(a.ends_with("=="));
    assert_ne!(a, b);
}

#[test]
fn salt_decodes_to_sixteen_bytes() {
    let u = User::new("id".to_string(), "k".to_string(), "s".to_string(), false).unwrap();
    assert_eq!(base64::decode(&u.salt).unwrap().len(), 16);
}
