use modelcheck::auth::{
    auth_status, callback_reply_text, check_endpoints, decimal_string, keyring_service,
    redirect_uri, refresh_entry_name, AuthStatus, CallbackReply, EndpointError, LoginCallback,
    TokenState,
};

const SEC: i128 = 1_000_000_000;

#[test]
fn auth_needs_stored_and_refreshable_token() {
    assert_eq!(auth_status(true, true), AuthStatus::Authenticated);
    assert_eq!(auth_status(true, false), AuthStatus::Unauthenticated);
    assert_eq!(auth_status(false, false), AuthStatus::Unauthenticated);
}

#[test]
fn new_token_needs_refresh() {
    let t = TokenState::new();
    assert!(t.token.is_empty());
    assert!(t.needs_refresh(0));
    assert!(t.needs_refresh(1_700_000_000 * SEC));
}

#[test]
fn refresh_margin_is_thirty_seconds() {
    let mut t = TokenState::new();
    let now = 1_700_000_000 * SEC;
    t.apply_response("tok".to_string(), now, Some(60 * SEC as u128));
    assert_eq!(t.token, "tok");
    assert_eq!(t.expires_at, now + 60 * SEC);
    assert!(!t.needs_refresh(now));
    assert!(!t.needs_refresh(now + 30 * SEC - 1));
    assert!(t.needs_refresh(now + 30 * SEC));
}

#[test]
fn token_without_lifetime_lasts_an_hour() {
    let mut t = TokenState::new();
    t.apply_response("x".to_string(), 10 * SEC, None);
    assert_eq!(t.expires_at, 3610 * SEC);
}

#[test]
fn callback_hands_code_only_with_matching_state() {
    let mut cb = LoginCallback::new("abc".to_string());
    assert_eq!(cb.handle(Some("code".to_string()), None), (CallbackReply::NoCode, None));
    assert!(cb.waiting);
    assert_eq!(cb.handle(Some("c1".to_string()), Some("abc".to_string())), (CallbackReply::LoginSuccessful, Some("c1".to_string())));
    assert!(!cb.waiting);
    assert_eq!(cb.handle(Some("c2".to_string()), Some("abc".to_string())), (CallbackReply::NoCode, None));
}

#[test]
fn callback_rejects_forged_state() {
    let mut cb = LoginCallback::new("abc".to_string());
    assert_eq!(cb.handle(Some("c".to_string()), Some("evil".to_string())), (CallbackReply::StateMismatch, None));
    assert!(!cb.waiting);
    assert_eq!(cb.handle(Some("c".to_string()), Some("abc".to_string())), (CallbackReply::NoCode, None));
}

#[test]
fn callback_texts() {
    assert_eq!(callback_reply_text(CallbackReply::LoginSuccessful), "Login successful! You can close this tab.");
    assert_eq!(callback_reply_text(CallbackReply::StateMismatch), "Security Error: CSRF state mismatch! Login aborted.");
    assert_eq!(callback_reply_text(CallbackReply::NoCode), "Error: No code found");
}

#[test]
fn names_and_addresses() {
    assert_eq!(keyring_service(), "modelcheck");
    assert_eq!(refresh_entry_name("google"), "google-refresh-token");
    assert_eq!(redirect_uri(8080), "http://127.0.0.1:8080");
    assert_eq!(redirect_uri(0), "http://127.0.0.1:0");
    assert_eq!(decimal_string(4294967295), "4294967295");
    assert_eq!(decimal_string(10), "10");
}

#[test]
fn endpoints_must_be_urls() {
    let auth = "https://accounts.google.com/o/oauth2/v2/auth";
    let token = "https://oauth2.googleapis.com/token";
    assert_eq!(check_endpoints(auth, token), Ok(()));
    assert_eq!(check_endpoints("not a url", token), Err(EndpointError::InvalidAuthUri));
    assert_eq!(check_endpoints(auth, "/token"), Err(EndpointError::InvalidTokenUri));
    assert_eq!(check_endpoints("", ""), Err(EndpointError::InvalidAuthUri));
}
