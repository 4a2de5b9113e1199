use nostr_bunker::bunker::{
    derive_pubkey, handle_sign_event, route, unknown_method_response, Bunker, BunkerMethod, Reply,
};
use nostr_bunker::event::{serialize_event, EventParam, NostrEvent};

fn quoted_event() -> NostrEvent {
    NostrEvent {
        pubkey: "abc".to_string(),
        created_at: 123,
        kind: 1,
        tags: vec![vec!["e".to_string(), "x".to_string()]],
        content: "a\"b\nc".to_string(),
    }
}

#[test]
fn bunker_routes_methods() {
    assert!(matches!(route("get_public_key"), BunkerMethod::GetPublicKey));
    assert!(matches!(route("sign_event"), BunkerMethod::SignEvent));
    assert!(matches!(route("create_session"), BunkerMethod::CreateSession));
    assert!(matches!(route("get_session"), BunkerMethod::GetSession));
    assert!(matches!(route("connect"), BunkerMethod::Unknown));
    let r = unknown_method_response(Some(9), "x");
    assert_eq!(r.id, Some(9));
    assert!(r.result.is_none());
    assert_eq!(r.error, Some("Unknown method: x".to_string()));
}

#[test]
fn public_key_is_derived_and_cached() {
    let expected = "718c2e54e57288ce3fdb370ba90ed2cafb7d2d0787572cfc75f663f18d6dcb81";
    assert_eq!(derive_pubkey("kampouse.near"), expected);
    let mut bunker = Bunker::new();
    for _ in 0..2 {
        let r = bunker.handle_get_public_key(Some(1));
        assert_eq!(r.id, Some(1));
        assert!(r.error.is_none());
        match r.result {
            Some(Reply::PublicKey(k)) => assert_eq!(k, expected),
            _ => panic!("expected a public key"),
        }
    }
}

#[test]
fn serialises_events_as_json_arrays() {
    assert_eq!(
        serialize_event(&quoted_event()),
        "[0,\"abc\",123,1,[[\"e\",\"x\"]],\"a\\\"b\\nc\"]"
    );
}

#[test]
fn signs_events() {
    let r = handle_sign_event(Some(2), EventParam::Event(quoted_event()));
    assert_eq!(r.id, Some(2));
    assert!(r.error.is_none());
    let id = "631355afd1acdab2102e5646a0c2e99c359f344f12216a6a1a94d1579b8e23c9";
    match r.result {
        Some(Reply::Signed(s)) => {
            assert_eq!(s.id, id);
            assert_eq!(s.sig, format!("sig_{}", id));
            assert_eq!(s.content, "a\"b\nc");
        }
        _ => panic!("expected a signed event"),
    }
}

#[test]
fn sign_errors() {
    let r = handle_sign_event(None, EventParam::Missing);
    assert_eq!(r.error, Some("Missing event parameter".to_string()));
    assert!(r.result.is_none());
    let r = handle_sign_event(Some(3), EventParam::Invalid("missing field `kind`".to_string()));
    assert_eq!(r.id, Some(3));
    assert_eq!(r.error, Some("Invalid event: missing field `kind`".to_string()));
}

#[test]
fn session_is_found_after_creation() {
    let mut bunker = Bunker::new();
    let r = bunker.handle_create_session_at(Some(4), 1700000000);
    let session = match r.result {
        Some(Reply::Session(s)) => s,
        _ => panic!("expected a session"),
    };
    assert_eq!(session.token, "sess_50f3fea4a9be48bdedc9a9498cbc925f");
    assert_eq!(session.account_id, "kampouse.near");
    assert_eq!(session.expires_at, 1700000000 + 86400 * 30);
    let found = bunker.handle_get_session(Some(5), Some(&session.token));
    match found.result {
        Some(Reply::Session(s)) => {
            assert_eq!(s.token, session.token);
            assert_eq!(s.created_at, 1700000000);
        }
        _ => panic!("expected the session"),
    }
    let missing = bunker.handle_get_session(Some(6), Some("sess_nope"));
    assert_eq!(missing.error, Some("Session not found".to_string()));
    let no_param = bunker.handle_get_session(Some(7), None);
    assert_eq!(no_param.error, Some("Missing token parameter".to_string()));
}

#[test]
fn session_created_now_is_stored() {
    let mut bunker = Bunker::new();
    let r = bunker.handle_create_session(None).unwrap();
    let token = match r.result {
        Some(Reply::Session(s)) => s.token,
        _ => panic!("expected a session"),
    };
    assert!(token.starts_with("sess_"));
    assert_eq!(token.len(), 37);
    assert!(bunker.handle_get_session(None, Some(&token)).error.is_none());
}

#[test]
fn bunker_checked_session_refuses_only_on_overflow() {
    let mut bunker = Bunker::new();
    assert!(bunker.handle_create_session_checked(Some(1), u64::MAX).is_none());
    let r = bunker.handle_create_session_checked(Some(1), 1700000000).unwrap();
    match r.result {
        Some(Reply::Session(s)) => {
            assert_eq!(s.token, "sess_50f3fea4a9be48bdedc9a9498cbc925f");
            assert_eq!(s.token.len(), 37);
        }
        _ => panic!("expected a session"),
    }
}

#[test]
fn event_serialisation_reads_back_as_json() {
    let event = NostrEvent {
        pubkey: "p\u{1}k".to_string(),
        created_at: 1700000000,
        kind: 30023,
        tags: vec![vec!["e".to_string(), "a\"b".to_string()], vec![]],
        content: "line\nbreak \\ \u{7}".to_string(),
    };
    let text = serialize_event(&event);
    let value: serde_json::Value = serde_json::from_str(&text).unwrap();
    let items = value.as_array().unwrap();
    assert_eq!(items.len(), 6);
    assert_eq!(items[0].as_u64(), Some(0));
    assert_eq!(items[1].as_str(), Some("p\u{1}k"));
    assert_eq!(items[2].as_u64(), Some(1700000000));
    assert_eq!(items[3].as_u64(), Some(30023));
    let tags: Vec<Vec<String>> = serde_json::from_value(items[4].clone()).unwrap();
    assert_eq!(tags, event.tags);
    assert_eq!(items[5].as_str(), Some("line\nbreak \\ \u{7}"));
}
