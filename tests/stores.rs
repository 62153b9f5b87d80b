use passkey_files::ceremony::{
    finish_login, from_verifier, new_registration_token, token_key, PendingLogins,
    PendingRegistrations, CEREMONY_TTL,
};
use passkey_files::correlation::CorrelationStore;
use passkey_files::error::ApiError;
use passkey_files::session::{
    bearer_token, secrets_match, SessionSecret, SessionStore, SESSION_WINDOW,
};

#[test]
fn take_returns_value_once() {
    let mut store: CorrelationStore<u32> = CorrelationStore::new();
    let id = store.insert(7, 1_000, 500).unwrap();
    assert!(store.contains(id));
    assert_eq!(store.take(id, 1_200), Some(7));
    assert_eq!(store.take(id, 1_200), None);
    assert!(!store.contains(id));
}

#[test]
fn expired_entry_is_never_returned() {
    let mut store: CorrelationStore<u32> = CorrelationStore::new();
    let id = store.insert(7, 1_000, 500).unwrap();
    assert_eq!(store.peek(id, 1_499), Some(7));
    assert_eq!(store.peek(id, 1_500), None);
    assert_eq!(store.peek_and_refresh(id, 1_501, 500), None);
    assert_eq!(store.take(id, 1_501), None);
    assert!(!store.contains(id));
}

#[test]
fn refresh_extends_expiry() {
    let mut store: CorrelationStore<u32> = CorrelationStore::new();
    assert_eq!(store.insert_with_id(42, 9, 0, 100), Ok(()));
    assert_eq!(store.insert_with_id(42, 10, 0, 100), Err(10));
    assert_eq!(store.peek_and_refresh(42, 90, 100), Some(9));
    assert_eq!(store.peek(42, 150), Some(9));
    assert_eq!(store.peek(42, 190), None);
}

#[test]
fn registration_single_use_after_failed_verification() {
    let alice: i64 = 1;
    let mut pending: PendingRegistrations<String> = PendingRegistrations::new();
    let c1 = pending.add(alice, "server state".to_string(), 0).unwrap();
    let first = pending.remove(c1, Some(alice), 10).unwrap();
    assert_eq!(first.user_id, alice);
    assert_eq!(first.state, "server state");
    let forged: Result<(), &str> = Err("signature does not match");
    assert_eq!(from_verifier(forged), Err(ApiError::VerificationError));
    assert_eq!(pending.remove(c1, Some(alice), 20).unwrap_err(), ApiError::NotFoundError);
}

#[test]
fn registration_rejects_other_token_owner() {
    let mut pending: PendingRegistrations<u8> = PendingRegistrations::new();
    let c1 = pending.add(1, 0, 0).unwrap();
    assert_eq!(pending.remove(c1, Some(2), 10).unwrap_err(), ApiError::NotFoundError);
    assert_eq!(pending.remove(c1, Some(1), 10).unwrap_err(), ApiError::NotFoundError);
    let c2 = pending.add(1, 0, 0).unwrap();
    assert_eq!(pending.remove(c2, None, 10).unwrap_err(), ApiError::NotFoundError);
}

#[test]
fn registration_expires() {
    let mut pending: PendingRegistrations<u8> = PendingRegistrations::new();
    let c1 = pending.add(1, 0, 0).unwrap();
    assert_eq!(
        pending.remove(c1, Some(1), CEREMONY_TTL).unwrap_err(),
        ApiError::NotFoundError
    );
}

#[test]
fn login_single_use() {
    let mut logins: PendingLogins<&str> = PendingLogins::new();
    let id = logins.add("state", 0).unwrap();
    assert_eq!(logins.remove(id, CEREMONY_TTL - 1), Ok("state"));
    assert_eq!(logins.remove(id, CEREMONY_TTL - 1), Err(ApiError::NotFoundError));
}

#[test]
fn verifier_success_passes_through() {
    let ok: Result<u32, ()> = Ok(5);
    assert_eq!(from_verifier(ok), Ok(5));
}

#[test]
fn login_requires_user_verification() {
    let mut sessions = SessionStore::new();
    assert_eq!(
        finish_login(&mut sessions, false, 3, 4, 0).unwrap_err(),
        ApiError::NotFoundError
    );
    let s = finish_login(&mut sessions, true, 3, 4, 0).unwrap();
    assert_eq!(s.user_id(), 3);
    assert_eq!(s.passkey_id(), 4);
    assert!(sessions.get(s.secret(), 1).is_some());
}

#[test]
fn session_validates_then_lapses() {
    let mut sessions = SessionStore::new();
    let s = sessions.create(11, 12, 1_000).unwrap();
    let secret = *s.secret();
    // Validation at 2000 slides the expiry to 2000 + window.
    assert_eq!(sessions.get(&secret, 2_000), Some(s));
    assert_eq!(sessions.get(&secret, 1_000 + SESSION_WINDOW + 500), Some(s));
    assert_eq!(sessions.get(&secret, 1_000 + 2 * SESSION_WINDOW + 500), None);
}

#[test]
fn session_lapses_without_validation() {
    let mut sessions = SessionStore::new();
    let s = sessions.create(1, 2, 0).unwrap();
    assert_eq!(sessions.get(s.secret(), SESSION_WINDOW), None);
}

#[test]
fn session_rejects_wrong_second_half() {
    let mut sessions = SessionStore::new();
    let secret = SessionSecret { hi: 5, lo: 6 };
    let s = sessions.create_with_secret(secret, 1, 2, 0).unwrap();
    assert_eq!(s.secret, secret);
    assert!(sessions.create_with_secret(SessionSecret { hi: 5, lo: 9 }, 3, 4, 0).is_none());
    assert_eq!(sessions.get(&SessionSecret { hi: 5, lo: 7 }, 1), None);
    assert_eq!(sessions.get(&secret, 1).map(|s| s.user_id), Some(1));
}

#[test]
fn secrets_compare_by_both_halves() {
    let a = SessionSecret { hi: 1, lo: 2 };
    assert!(secrets_match(&a, &SessionSecret { hi: 1, lo: 2 }));
    assert!(!secrets_match(&a, &SessionSecret { hi: 1, lo: 3 }));
    assert!(!secrets_match(&a, &SessionSecret { hi: 0, lo: 2 }));
}

#[test]
fn secret_text_round_trip() {
    let zero = SessionSecret { hi: 0, lo: 0 };
    assert_eq!(zero.encode(), "A".repeat(43));
    let s = SessionSecret {
        hi: 0x0102_0304_0506_0708_090a_0b0c_0d0e_0f10,
        lo: 0xffee_ddcc_bbaa_9988_7766_5544_3322_1100,
    };
    let text = s.encode();
    assert_eq!(text.len(), 43);
    assert_eq!(SessionSecret::parse(&text), Some(s));
    assert_eq!(&text[..4], "AQID");
}

#[test]
fn secret_parse_rejects_bad_text() {
    assert_eq!(SessionSecret::parse("not base64!"), None);
    assert_eq!(SessionSecret::parse("AQID"), None);
    assert_eq!(SessionSecret::parse(""), None);
}

#[test]
fn fresh_secrets_differ() {
    assert_ne!(SessionSecret::new(), SessionSecret::new());
}

#[test]
fn token_key_decodes_base64() {
    assert_eq!(token_key("AQID"), Ok(vec![1, 2, 3]));
    assert_eq!(token_key("@@"), Err(ApiError::NotFoundError));
}

#[test]
fn registration_tokens_are_base58() {
    let t = new_registration_token();
    assert!(t.len() >= 80);
    assert!(t.chars().all(|c| c.is_ascii_alphanumeric() && !"0OIl".contains(c)));
    assert_ne!(t, new_registration_token());
}

#[test]
fn error_statuses() {
    assert_eq!(ApiError::NotFoundError.status(), 404);
    assert_eq!(ApiError::InvalidSessionError.status(), 401);
    assert_eq!(ApiError::BadRequestError.status(), 400);
    assert_eq!(ApiError::VerificationError.status(), 500);
    assert_eq!(ApiError::StorageError.status(), 500);
    assert_eq!(ApiError::PersistenceError.status(), 500);
    assert!(!ApiError::NotFoundError.has_diagnostics());
    assert!(ApiError::PersistenceError.has_diagnostics());
}

#[test]
fn bearer_prefix_is_required() {
    assert_eq!(bearer_token("Bearer abc"), Some("abc"));
    assert_eq!(bearer_token("Bearer "), Some(""));
    assert_eq!(bearer_token("bearer abc"), None);
    assert_eq!(bearer_token("Bear"), None);
}

#[test]
fn requests_authenticate_by_header() {
    let mut sessions = SessionStore::new();
    let s = sessions.create(5, 6, 0).unwrap();
    let header = format!("Bearer {}", s.secret().encode());
    assert_eq!(sessions.authenticate(Some(&header), 10), Ok(s));
    assert_eq!(
        sessions.authenticate(Some(&header), 10 + SESSION_WINDOW),
        Err(ApiError::InvalidSessionError)
    );
    assert_eq!(sessions.authenticate(None, 10), Err(ApiError::InvalidSessionError));
    assert_eq!(
        sessions.authenticate(Some("Bearer !!"), 10),
        Err(ApiError::InvalidSessionError)
    );
    assert_eq!(
        sessions.authenticate(Some(&s.secret().encode()), 10),
        Err(ApiError::InvalidSessionError)
    );
}
