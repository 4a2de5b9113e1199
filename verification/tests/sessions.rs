use nostr_bunker::sessions::create_session_checked;
use nostr_bunker::event::{serialize_event, NostrEvent};
use nostr_bunker::session::SESSION_LIFETIME;
use nostr_bunker::sessions::{
    check_signing_allowed, create_session, create_session_at, derive_nostr_pubkey,
    is_authenticated, not_implemented_message, route, sign_nostr_event, validate_session,
    validate_session_at, SessionsMethod,
};
use nostr_bunker::store::Store;
use nostr_bunker::text::unknown_method_message;

#[test]
fn test_session_creation() {
    let mut store = Store::new();
    let session = create_session(&mut store, "alice.near", 42).unwrap();
    assert!(session.token.len() == 64);
    assert!(session.expires_at > session.created_at);
}

#[test]
fn test_session_validation() {
    let mut store = Store::new();
    let session = create_session(&mut store, "alice.near", 42).unwrap();
    assert!(validate_session(&store, "alice.near", &session.token).unwrap());
    assert!(!validate_session(&store, "alice.near", "invalid_token").unwrap());
}

#[test]
fn session_token_mixes_account_time_and_nonce() {
    let mut store = Store::new();
    let s = create_session_at(&mut store, "alice.near", 1700000000, 42);
    assert_eq!(s.token, "ed42a2d0204849dcb654944f605bba4f394211f1c861441f3388dfb07bc57376");
    assert_eq!(s.account_id, "alice.near");
    assert_eq!(s.created_at, 1700000000);
    assert_eq!(s.expires_at, 1700000000 + 30 * 24 * 60 * 60);
    assert_eq!(SESSION_LIFETIME, 2592000);
}

#[test]
fn session_is_valid_until_it_expires() {
    let mut store = Store::new();
    let s = create_session_at(&mut store, "alice.near", 1000, 1);
    assert!(validate_session_at(&store, "alice.near", &s.token, 1000));
    assert!(validate_session_at(&store, "alice.near", &s.token, 1000 + SESSION_LIFETIME - 1));
    assert!(!validate_session_at(&store, "alice.near", &s.token, 1000 + SESSION_LIFETIME));
    assert!(!validate_session_at(&store, "bob.near", &s.token, 1000));
    assert!(!validate_session_at(&store, "alice.near", "invalid_token", 1000));
}

#[test]
fn newer_session_supersedes_older_token() {
    let mut store = Store::new();
    let old = create_session_at(&mut store, "alice.near", 1000, 1);
    let new = create_session_at(&mut store, "alice.near", 1000, 2);
    assert!(!validate_session_at(&store, "alice.near", &old.token, 1001));
    assert!(validate_session_at(&store, "alice.near", &new.token, 1001));
}

#[test]
fn unknown_account_never_validates() {
    let store = Store::new();
    assert_eq!(validate_session(&store, "alice.near", "t"), Some(false));
}

#[test]
fn sessions_routes_methods() {
    assert!(matches!(route("connect"), SessionsMethod::GetPublicKey));
    assert!(matches!(route("get_public_key"), SessionsMethod::GetPublicKey));
    assert!(matches!(route("sign_event"), SessionsMethod::SignEvent));
    assert!(matches!(route("create_session"), SessionsMethod::CreateSession));
    assert!(matches!(route("validate_session"), SessionsMethod::ValidateSession));
    assert!(matches!(route("nip04_encrypt"), SessionsMethod::Nip04Encrypt));
    assert!(matches!(route("nip04_decrypt"), SessionsMethod::Nip04Decrypt));
    assert!(matches!(route("ping"), SessionsMethod::Unknown));
    assert_eq!(
        not_implemented_message(&SessionsMethod::Nip04Encrypt),
        Some("NIP-04 encryption not implemented".to_string())
    );
    assert_eq!(
        not_implemented_message(&SessionsMethod::Nip04Decrypt),
        Some("NIP-04 decryption not implemented".to_string())
    );
    assert_eq!(not_implemented_message(&SessionsMethod::SignEvent), None);
    assert_eq!(unknown_method_message("foo"), "Unknown method: foo");
}

#[test]
fn authentication_needs_a_live_session() {
    let mut store = Store::new();
    assert!(!is_authenticated(&store, "alice.near", 1000));
    assert_eq!(
        check_signing_allowed(&store, "alice.near", 1000),
        Err("Not authenticated. Visit auth URL first.".to_string())
    );
    let s = create_session_at(&mut store, "alice.near", 1000, 7);
    assert!(is_authenticated(&store, "alice.near", 1000));
    assert_eq!(check_signing_allowed(&store, "alice.near", s.expires_at - 1), Ok(()));
    assert!(!is_authenticated(&store, "alice.near", s.expires_at));
    assert!(!is_authenticated(&store, "bob.near", 1000));
}

#[test]
fn derives_pubkey_from_path() {
    assert_eq!(
        derive_nostr_pubkey("alice.near"),
        "96020665ea88616d314b6c00e7e673b1af9d824e253194fc5de3b271a3c7c758"
    );
}

#[test]
fn serialises_and_signs_events() {
    let event = NostrEvent {
        pubkey: "abc".to_string(),
        created_at: 123,
        kind: 1,
        tags: vec![vec!["e".to_string(), "x".to_string()]],
        content: "test".to_string(),
    };
    assert_eq!(serialize_event(&event), "[0,\"abc\",123,1,[[\"e\",\"x\"]],\"test\"]");
    let quoted = NostrEvent {
        pubkey: "abc".to_string(),
        created_at: 123,
        kind: 1,
        tags: vec![],
        content: "a\"b".to_string(),
    };
    assert_eq!(serialize_event(&quoted), r#"[0,"abc",123,1,[],"a\"b"]"#);
    let signed = sign_nostr_event("alice.near", &event);
    let id = "7a7b0e49d79f86ec8200127812b7b02257f0301a5dc273429d60f08a0964391d";
    assert_eq!(signed.id, id);
    assert_eq!(signed.sig, format!("sig_{}_alice.near", id));
    assert_eq!(signed.tags, event.tags);
    assert_eq!(signed.content, "test");
}

#[test]
fn checked_session_refuses_only_on_overflow() {
    let mut store = Store::new();
    assert!(create_session_checked(&mut store, "alice.near", u64::MAX - SESSION_LIFETIME + 1, 1)
        .is_none());
    assert!(!validate_session_at(&store, "alice.near", "x", 0));
    let s = create_session_checked(&mut store, "alice.near", u64::MAX - SESSION_LIFETIME, 1)
        .unwrap();
    assert_eq!(s.expires_at, u64::MAX);
    assert!(validate_session_at(&store, "alice.near", &s.token, 0));
}
