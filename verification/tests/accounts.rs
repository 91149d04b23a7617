use time_bandit::api;
use time_bandit::errors::StoreError;
use time_bandit::models::{LoginDetails, SessionId, UserEmail};
use time_bandit::store::Store;

fn details(email: &str, password: &str) -> LoginDetails {
    LoginDetails { email: UserEmail(email.to_owned()), password: password.to_owned() }
}

#[test]
fn register_returns_confirmation() {
    let mut store = Store::new();
    let r = api::register_user(&mut store, details("alice@example.com", "pw123"));
    assert_eq!(r.unwrap(), "Created account!");
    assert_eq!(store.users.len(), 1);
    assert_eq!(store.users[0].email.0, "alice@example.com");
}

#[test]
fn register_same_email_twice_conflicts() {
    let mut store = Store::new();
    assert!(api::register_user(&mut store, details("alice@example.com", "pw123")).is_ok());
    let second = api::register_user(&mut store, details("alice@example.com", "other"));
    assert_eq!(second.unwrap_err(), StoreError::Conflict);
    assert_eq!(StoreError::Conflict.status_code(), 409);
    assert_eq!(store.users.len(), 1);
}

#[test]
fn stored_password_is_a_bcrypt_hash_not_the_plaintext() {
    let mut store = Store::new();
    api::register_user(&mut store, details("alice@example.com", "pw123")).unwrap();
    let stored = &store.users[0].password;
    assert_eq!(stored.len(), 60);
    assert_ne!(stored, "pw123");
    assert!(stored.starts_with("$2"));
}

#[test]
fn external_id_is_a_hyphenated_uuid() {
    let mut store = Store::new();
    api::register_user(&mut store, details("alice@example.com", "pw123")).unwrap();
    let uuid = &store.users[0].uuid;
    assert_eq!(uuid.len(), 36);
    assert_eq!(uuid.matches('-').count(), 4);
}

#[test]
fn login_with_registered_credentials_succeeds() {
    let mut store = Store::new();
    api::register_user(&mut store, details("alice@example.com", "pw123")).unwrap();
    let token = api::login(&mut store, details("alice@example.com", "pw123")).unwrap();
    let uid = api::get_session(&store, Some(&token)).unwrap();
    assert_eq!(uid, store.users[0].id);
}

#[test]
fn login_with_wrong_password_is_unauthorized() {
    let mut store = Store::new();
    api::register_user(&mut store, details("alice@example.com", "pw123")).unwrap();
    let r = api::login(&mut store, details("alice@example.com", "wrong"));
    assert_eq!(r.unwrap_err(), StoreError::Unauthorized);
    assert_eq!(StoreError::Unauthorized.status_code(), 401);
    assert!(store.sessions.is_empty());
}

#[test]
fn login_with_unknown_email_is_unauthorized() {
    let mut store = Store::new();
    api::register_user(&mut store, details("alice@example.com", "pw123")).unwrap();
    let r = api::login(&mut store, details("bob@example.com", "pw123"));
    assert_eq!(r.unwrap_err(), StoreError::Unauthorized);
}

#[test]
fn second_login_invalidates_the_first_token() {
    let mut store = Store::new();
    api::register_user(&mut store, details("alice@example.com", "pw123")).unwrap();
    let first = api::login(&mut store, details("alice@example.com", "pw123")).unwrap();
    let second = api::login(&mut store, details("alice@example.com", "pw123")).unwrap();
    assert_eq!(store.sessions.len(), 1);
    let uid = api::get_session(&store, Some(&second)).unwrap();
    assert_eq!(uid, store.users[0].id);
    if first.0 != second.0 {
        let stale = api::get_session(&store, Some(&first));
        assert_eq!(stale.unwrap_err(), StoreError::Unauthorized);
    }
}

#[test]
fn missing_cookie_is_unauthorized() {
    let store = Store::new();
    let r = api::get_session(&store, None);
    let e = r.unwrap_err();
    assert_eq!(e, StoreError::Unauthorized);
    assert_eq!(e.status_code(), 401);
}

#[test]
fn unknown_token_is_unauthorized() {
    let mut store = Store::new();
    api::register_user(&mut store, details("alice@example.com", "pw123")).unwrap();
    api::login(&mut store, details("alice@example.com", "pw123")).unwrap();
    let bogus = SessionId("not-a-live-token".to_owned());
    let r = api::get_session(&store, Some(&bogus));
    assert_eq!(r.unwrap_err(), StoreError::Unauthorized);
}

#[test]
fn sessions_of_other_accounts_survive_a_login() {
    let mut store = Store::new();
    api::register_user(&mut store, details("alice@example.com", "pw123")).unwrap();
    api::register_user(&mut store, details("bob@example.com", "pw456")).unwrap();
    let alice_token = api::login(&mut store, details("alice@example.com", "pw123")).unwrap();
    api::login(&mut store, details("bob@example.com", "pw456")).unwrap();
    let uid = api::get_session(&store, Some(&alice_token)).unwrap();
    assert_eq!(uid, store.users[0].id);
    assert_eq!(store.sessions.len(), 2);
}

#[test]
fn error_status_codes_follow_the_taxonomy() {
    assert_eq!(StoreError::Validation.status_code(), 400);
    assert_eq!(StoreError::NotFound.status_code(), 404);
    assert_eq!(StoreError::Unauthorized.status_code(), 401);
    assert_eq!(StoreError::Conflict.status_code(), 409);
    assert_eq!(StoreError::Persistence.status_code(), 500);
}
