use nostr_bunker::event::{require_event, EventParam, NostrEvent};
use nostr_bunker::store::Store;
use nostr_bunker::worker::{
    create_session, create_session_at, decode_public_key, derived_public_key_args, event_id,
    finish_signed_event, http_post, mpc_path, route, rpc_reply_outcome, sign_args,
    view_args_base64, view_call_body, WorkerMethod,
};

fn sample_event(tags: Vec<Vec<String>>) -> NostrEvent {
    NostrEvent {
        pubkey: "abc".to_string(),
        created_at: 123,
        kind: 1,
        tags,
        content: "test".to_string(),
    }
}

#[test]
fn test_session() {
    let mut store = Store::new();
    let token = create_session(&mut store, "test.near").unwrap();
    assert_eq!(token.len(), 64);
}

#[test]
fn session_token_is_hash_of_account_and_time() {
    let mut store = Store::new();
    let token = create_session_at(&mut store, "test.near", 1700000000);
    assert_eq!(token, "c6dd9b22a0bd8df2d3af1be7b48c7e3e1e7ffea8cb51317a913c5ee1aba6df62");
    assert_eq!(store.get("test.near"), Some(&token));
    assert_eq!(store.get("other.near"), None);
}

#[test]
fn new_session_replaces_the_previous_one() {
    let mut store = Store::new();
    let first = create_session_at(&mut store, "test.near", 1);
    let second = create_session_at(&mut store, "test.near", 2);
    assert_ne!(first, second);
    assert_eq!(store.get("test.near"), Some(&second));
}

#[test]
fn worker_routes_methods() {
    assert!(matches!(route("ping"), WorkerMethod::Ping));
    assert!(matches!(route("get_public_key"), WorkerMethod::GetPublicKey));
    assert!(matches!(route("get_identity"), WorkerMethod::GetIdentity));
    assert!(matches!(route("create_session"), WorkerMethod::CreateSession));
    assert!(matches!(route("sign_event"), WorkerMethod::SignEvent));
    assert!(matches!(route("connect"), WorkerMethod::Unknown));
    assert!(matches!(route("Ping"), WorkerMethod::Unknown));
}

#[test]
fn builds_contract_arguments() {
    assert_eq!(mpc_path("alice.near"), "nostr/alice.near");
    assert_eq!(
        derived_public_key_args("alice.near").unwrap(),
        "{\"domain\":0,\"path\":\"nostr/alice.near\"}"
    );
    assert_eq!(
        sign_args("alice.near", "ab12").unwrap(),
        "{\"domain\":0,\"path\":\"nostr/alice.near\",\"payload\":\"ab12\"}"
    );
    assert_eq!(
        derived_public_key_args("a\"b").unwrap(),
        "{\"domain\":0,\"path\":\"nostr/a\\\"b\"}"
    );
    assert_eq!(view_args_base64("{\"test\":1}"), "eyJ0ZXN0IjoxfQ==");
}

#[test]
fn reads_rpc_replies() {
    assert_eq!(
        rpc_reply_outcome(Some("boom".to_string()), Some(1u8)),
        Err("NEAR RPC error: boom".to_string())
    );
    assert_eq!(
        rpc_reply_outcome::<u8>(None, None),
        Err("No result in response".to_string())
    );
    assert_eq!(rpc_reply_outcome(None, Some(7u8)), Ok(7u8));
}

#[test]
fn decodes_public_key_bytes() {
    assert_eq!(decode_public_key(b"\"npub\"".to_vec()).unwrap(), "npub");
    assert_eq!(decode_public_key(b"\"\"x\"".to_vec()).unwrap(), "x");
    assert_eq!(decode_public_key(b"\"\"".to_vec()).unwrap(), "");
    assert_eq!(decode_public_key(b"a\"b".to_vec()).unwrap(), "a\"b");
    assert!(decode_public_key(vec![0xff, 0x41]).is_err());
}

#[test]
fn event_id_is_hash_of_serialisation() {
    let id = event_id(&sample_event(vec![]));
    assert_eq!(id, "886f5114217992d2b311ccb1c4f9ee355b244b84b8824a34aa50f72e252c760b");
    let tagged = event_id(&sample_event(vec![vec!["e".to_string(), "x".to_string()]]));
    assert_eq!(tagged, "7a7b0e49d79f86ec8200127812b7b02257f0301a5dc273429d60f08a0964391d");
}

#[test]
fn finishes_signed_event() {
    let event = sample_event(vec![vec!["p".to_string()]]);
    let signed = finish_signed_event(&event, "id1".to_string(), b"sigbytes".to_vec()).unwrap();
    assert_eq!(signed.id, "id1");
    assert_eq!(signed.sig, "sigbytes");
    assert_eq!(signed.pubkey, "abc");
    assert_eq!(signed.created_at, 123);
    assert_eq!(signed.kind, 1);
    assert_eq!(signed.tags, vec![vec!["p".to_string()]]);
    assert_eq!(signed.content, "test");
    assert!(finish_signed_event(&event, "id1".to_string(), vec![0xc3]).is_err());
}

#[test]
fn http_post_in_sandbox_refuses() {
    assert_eq!(
        http_post("https://rpc.mainnet.near.org", "{}"),
        Err("Deploy to OutLayer TEE for HTTP support. Local WASM cannot make HTTP requests."
            .to_string())
    );
}

#[test]
fn builds_view_call_body() {
    assert_eq!(
        view_call_body("v1.signer", "sign", "{\"test\":1}"),
        "{\"jsonrpc\":\"2.0\",\"id\":\"dontcare\",\"method\":\"query\",\"params\":{\"account_id\":\"v1.signer\",\"args_base64\":\"eyJ0ZXN0IjoxfQ==\",\"finality\":\"final\",\"method_name\":\"sign\",\"request_type\":\"call_function\"}}"
    );
}

#[test]
fn reads_event_parameter() {
    assert_eq!(
        require_event(EventParam::Missing).err(),
        Some("Missing event parameter".to_string())
    );
    assert_eq!(
        require_event(EventParam::Invalid("bad".to_string())).err(),
        Some("Invalid event: bad".to_string())
    );
    let e = require_event(EventParam::Event(sample_event(vec![]))).unwrap();
    assert_eq!(e.content, "test");
}

#[test]
fn event_id_escapes_strings() {
    let mut event = sample_event(vec![]);
    event.content = "a\"b".to_string();
    assert_eq!(
        event_id(&event),
        "4bdb89979268d215137371f7cd0e32a5a2c9f8f306f555748a2d2cb023ee00f0"
    );
}
