use looplan::wire::{parse_record_id, record_id_text, session_reply};
use looplan::{ApiError, Store};

fn bearer(token: &str) -> String {
    format!("Bearer {}", token)
}

#[test]
fn sign_in_after_register_yields_session_of_that_user() {
    let mut store = Store::new();
    let user = store.register("alice".to_string(), "s3cret".to_string()).unwrap();
    let session = store.authenticate(&"alice".to_string(), &"s3cret".to_string()).unwrap();
    assert_eq!(session.user_id, user.id);
}

#[test]
fn create_user_issues_session_for_new_user() {
    let mut store = Store::new();
    let session = store.create_user("bob".to_string(), "pw".to_string()).unwrap();
    let again = store.authenticate(&"bob".to_string(), &"pw".to_string()).unwrap();
    assert_eq!(session.user_id, again.user_id);
    assert_ne!(session.token, again.token);
    assert_ne!(session.id, again.id);
}

#[test]
fn wrong_password_is_invalid_credentials() {
    let mut store = Store::new();
    store.register("alice".to_string(), "right".to_string()).unwrap();
    let r = store.authenticate(&"alice".to_string(), &"wrong".to_string());
    assert_eq!(r, Err(ApiError::InvalidCredentials));
}

#[test]
fn unknown_user_is_invalid_credentials() {
    let mut store = Store::new();
    let r = store.authenticate(&"nobody".to_string(), &"pw".to_string());
    assert_eq!(r, Err(ApiError::InvalidCredentials));
}

#[test]
fn password_is_stored_hashed() {
    let mut store = Store::new();
    let user = store.register("alice".to_string(), "s3cret".to_string()).unwrap();
    assert_ne!(user.password_hash, "s3cret");
    assert!(user.password_hash.starts_with("$argon2i$"));
}

#[test]
fn duplicate_name_is_conflict() {
    let mut store = Store::new();
    store.register("alice".to_string(), "a".to_string()).unwrap();
    let r = store.register("alice".to_string(), "b".to_string());
    assert!(matches!(r, Err(ApiError::Conflict)));
    assert!(store.authenticate(&"alice".to_string(), &"a".to_string()).is_ok());
}

#[test]
fn issue_for_new_user_unknown_is_not_found() {
    let mut store = Store::new();
    assert_eq!(store.issue_for_new_user(&"ghost".to_string()), Err(ApiError::NotFound));
}

#[test]
fn issue_for_new_user_binds_registered_user() {
    let mut store = Store::new();
    let user = store.register("carol".to_string(), "pw".to_string()).unwrap();
    let session = store.issue_for_new_user(&"carol".to_string()).unwrap();
    assert_eq!(session.user_id, user.id);
}

#[test]
fn issued_token_resolves_to_same_user() {
    let mut store = Store::new();
    let session = store.create_user("alice".to_string(), "pw".to_string()).unwrap();
    let reply = session_reply(&session);
    let header = bearer(&reply.token);
    let resolved = store.validate(Some(header.as_str())).unwrap();
    assert_eq!(resolved, session);
    let signed_in = store.authenticate(&"alice".to_string(), &"pw".to_string()).unwrap();
    let header2 = bearer(&session_reply(&signed_in).token);
    assert_eq!(store.validate(Some(header2.as_str())).unwrap().user_id, session.user_id);
}

#[test]
fn unknown_token_is_unauthorized() {
    let mut store = Store::new();
    store.create_user("alice".to_string(), "pw".to_string()).unwrap();
    let header = bearer("550e8400-e29b-41d4-a716-446655440000");
    assert_eq!(store.validate(Some(header.as_str())), Err(ApiError::Unauthorized));
}

#[test]
fn malformed_header_is_unauthorized() {
    let mut store = Store::new();
    store.create_user("alice".to_string(), "pw".to_string()).unwrap();
    assert_eq!(store.validate(None), Err(ApiError::Unauthorized));
    assert_eq!(store.validate(Some("Bear")), Err(ApiError::Unauthorized));
    assert_eq!(store.validate(Some("Bearer not-a-uuid")), Err(ApiError::Unauthorized));
    assert_eq!(store.validate(Some("Bearer ")), Err(ApiError::Unauthorized));
    assert_eq!(store.validate(Some("Beaŕer 550e8400-e29b-41d4-a716-446655440000")), Err(ApiError::Unauthorized));
}

#[test]
fn session_reply_renders_ids_and_token() {
    let mut store = Store::new();
    let session = store.create_user("alice".to_string(), "pw".to_string()).unwrap();
    let reply = session_reply(&session);
    assert_eq!(reply.user_id, record_id_text(session.user_id));
    assert_eq!(parse_record_id(&reply.session_id), Ok(session.id));
    assert_eq!(reply.token.len(), 36);
    assert_eq!(reply.token, uuid::Uuid::from_u128(session.token).to_string());
}

#[test]
fn session_for_hash_issues_only_on_stored_hash() {
    let mut store = Store::new();
    let user = store.register("alice".to_string(), "pw".to_string()).unwrap();
    let s = store.session_for_hash(user.id, &user.password_hash).unwrap();
    assert_eq!(s.user_id, user.id);
    let bogus = store.session_for_hash(user.id, &"pw".to_string());
    assert_eq!(bogus, Err(ApiError::InvalidCredentials));
    let nobody = store.session_for_hash(user.id + 100, &user.password_hash);
    assert_eq!(nobody, Err(ApiError::InvalidCredentials));
}

#[test]
fn session_for_token_finds_exact_token() {
    let mut store = Store::new();
    let s = store.create_user("alice".to_string(), "pw".to_string()).unwrap();
    assert_eq!(store.session_for_token(s.token), Ok(s));
    assert_eq!(store.session_for_token(s.token ^ 1), Err(ApiError::Unauthorized));
}

#[test]
fn register_with_salt_hashes_deterministically() {
    let mut store = Store::new();
    let a = store.register_with_salt("a".to_string(), "pw".to_string(), 7).unwrap();
    let b = store.register_with_salt("b".to_string(), "pw".to_string(), 7).unwrap();
    let c = store.register_with_salt("c".to_string(), "pw".to_string(), 8).unwrap();
    assert_eq!(a.salt, 7);
    assert_eq!(a.password_hash, b.password_hash);
    assert_ne!(a.password_hash, c.password_hash);
    assert_ne!(a.id, b.id);
    let long = "x".repeat(10);
    assert!(store.register_with_salt("d".to_string(), long, 9).is_ok());
}

#[test]
fn issue_with_token_is_exact() {
    let mut store = Store::new();
    let user = store.register("alice".to_string(), "pw".to_string()).unwrap();
    let s = store.issue_with_token(user.id, 42).unwrap();
    assert_eq!((s.user_id, s.token), (user.id, 42));
    assert_eq!(store.issue_with_token(user.id, 42), Err(ApiError::Conflict));
    assert_eq!(store.issue_with_token(user.id + 50, 43), Err(ApiError::NotFound));
    let header = format!("Bearer {}", uuid::Uuid::from_u128(42));
    assert_eq!(store.validate(Some(header.as_str())), Ok(s));
}
