//! The OutLayer worker that signs through the `v1.signer` MPC contract on
//! NEAR: request routing, the arguments of its contract calls, the reading of
//! the RPC replies, and its session records.
use crate::base64::base64_encode;
use crate::clock::current_timestamp;
use crate::digest::is_lower_hex;
use crate::event::{event_json_text, id_of_text, serialize_event, text_digest, copy_tags, NostrEvent, SignedEvent};
use crate::json_read::{
    after_text, lemma_after_text, lemma_read_string, lemma_read_trailing_nat, read_string,
    read_trailing_nat,
};
use crate::json::{json_literal, json_quote, json_string_literal, tags_view};
use crate::store::Store;
use crate::text::{concat, decimal, push_decimal, string_from_utf8, text_eq, trim_double_quotes, trim_quotes};
use std::string::FromUtf8Error;
use vstd::prelude::*;
use vstd::utf8::{decode_utf8, encode_utf8, valid_utf8};

verus! {

/// The NEAR RPC endpoint the worker queries.
pub const NEAR_RPC_URL: &'static str = "https://rpc.mainnet.near.org";

/// The MPC signer contract.
pub const V1_SIGNER_CONTRACT: &'static str = "v1.signer";

/// The methods the worker answers.
pub enum WorkerMethod {
    Ping,
    GetPublicKey,
    GetIdentity,
    CreateSession,
    SignEvent,
    Unknown,
}

/// The method named `m`.
pub open spec fn worker_method_of(m: Seq<char>) -> WorkerMethod {
    if m == "ping"@ {
        WorkerMethod::Ping
    } else if m == "get_public_key"@ {
        WorkerMethod::GetPublicKey
    } else if m == "get_identity"@ {
        WorkerMethod::GetIdentity
    } else if m == "create_session"@ {
        WorkerMethod::CreateSession
    } else if m == "sign_event"@ {
        WorkerMethod::SignEvent
    } else {
        WorkerMethod::Unknown
    }
}

/// Classifies the method of a request.
pub fn route(method: &str) -> (res: WorkerMethod)
    ensures
        res == worker_method_of(method@),
{
    if text_eq(method, "ping") {
        WorkerMethod::Ping
    } else if text_eq(method, "get_public_key") {
        WorkerMethod::GetPublicKey
    } else if text_eq(method, "get_identity") {
        WorkerMethod::GetIdentity
    } else if text_eq(method, "create_session") {
        WorkerMethod::CreateSession
    } else if text_eq(method, "sign_event") {
        WorkerMethod::SignEvent
    } else {
        WorkerMethod::Unknown
    }
}

/// The MPC derivation path of an account: `nostr/<account>`.
pub fn mpc_path(account_id: &str) -> (res: String)
    ensures
        res@ == "nostr/"@ + account_id@,
{
    concat("nostr/", account_id)
}

/// The arguments of `derived_public_key` for an account.
pub open spec fn public_key_args_text(account_id: Seq<char>) -> Seq<char> {
    "{\"domain\":0,\"path\":"@ + json_string_literal("nostr/"@ + account_id) + "}"@
}

/// The arguments of `sign` for an account and a payload.
pub open spec fn sign_args_text(account_id: Seq<char>, payload: Seq<char>) -> Seq<char> {
    "{\"domain\":0,\"path\":"@ + json_string_literal("nostr/"@ + account_id) + ",\"payload\":"@
        + json_string_literal(payload) + "}"@
}

/// The JSON arguments of the `derived_public_key` view call.
pub fn derived_public_key_args(account_id: &str) -> (res: Result<String, serde_json::Error>)
    ensures
        res matches Ok(s) && s@ == public_key_args_text(account_id@),
{
    let path = mpc_path(account_id);
    let path_json = json_quote(path.as_str())?;
    let mut out = "{\"domain\":0,\"path\":".to_owned();
    out.append(path_json.as_str());
    out.append("}");
    Ok(out)
}

/// The JSON arguments of the `sign` call for an event identifier.
pub fn sign_args(account_id: &str, payload: &str) -> (res: Result<String, serde_json::Error>)
    ensures
        res matches Ok(s) && s@ == sign_args_text(account_id@, payload@),
{
    let path = mpc_path(account_id);
    let path_json = json_quote(path.as_str())?;
    let payload_json = json_quote(payload)?;
    let mut out = "{\"domain\":0,\"path\":".to_owned();
    out.append(path_json.as_str());
    out.append(",\"payload\":");
    out.append(payload_json.as_str());
    out.append("}");
    Ok(out)
}

/// The `args_base64` field of a view call: the Base64 of the JSON arguments.
pub fn view_args_base64(args_json: &str) -> (res: String)
    ensures
        res@ == crate::base64::base64_of(encode_utf8(args_json@)),
{
    base64_encode(args_json)
}

/// The body of the NEAR RPC `query` that calls a view method, given the
/// Base64 of its arguments; objects are written with their keys in order.
pub open spec fn view_call_body_text(
    contract_id: Seq<char>,
    method: Seq<char>,
    args_base64: Seq<char>,
) -> Seq<char> {
    "{\"jsonrpc\":\"2.0\",\"id\":\"dontcare\",\"method\":\"query\",\"params\":{\"account_id\":"@
        + json_string_literal(contract_id) + ",\"args_base64\":"@ + json_string_literal(
        args_base64,
    ) + ",\"finality\":\"final\",\"method_name\":"@ + json_string_literal(method)
        + ",\"request_type\":\"call_function\"}}"@
}

/// The JSON-RPC body of a `call_function` query of `method` on `contract_id`
/// with the JSON arguments `args_json`, at final finality.
pub fn view_call_body(contract_id: &str, method: &str, args_json: &str) -> (res: String)
    ensures
        res@ == view_call_body_text(
            contract_id@,
            method@,
            crate::base64::base64_of(encode_utf8(args_json@)),
        ),
{
    let args_base64 = view_args_base64(args_json);
    let contract = json_literal(contract_id);
    let args = json_literal(args_base64.as_str());
    let name = json_literal(method);
    let mut out = "{\"jsonrpc\":\"2.0\",\"id\":\"dontcare\",\"method\":\"query\",\"params\":{\"account_id\":"
        .to_owned();
    out.append(contract.as_str());
    out.append(",\"args_base64\":");
    out.append(args.as_str());
    out.append(",\"finality\":\"final\",\"method_name\":");
    out.append(name.as_str());
    out.append(",\"request_type\":\"call_function\"}}");
    out
}

/// Reads the arguments of `derived_public_key` back: the derivation path.
pub open spec fn read_public_key_args(s: Seq<char>) -> Option<Seq<char>> {
    match after_text(s, "{\"domain\":0,\"path\":"@) {
        Some(r1) => match read_string(r1) {
            Some((path, r2)) => if r2 == "}"@ {
                Some(path)
            } else {
                None
            },
            None => None,
        },
        None => None,
    }
}

/// Reads the arguments of `sign` back: the derivation path and the payload.
pub open spec fn read_sign_args(s: Seq<char>) -> Option<(Seq<char>, Seq<char>)> {
    match after_text(s, "{\"domain\":0,\"path\":"@) {
        Some(r1) => match read_string(r1) {
            Some((path, r2)) => match after_text(r2, ",\"payload\":"@) {
                Some(r3) => match read_string(r3) {
                    Some((payload, r4)) => if r4 == "}"@ {
                        Some((path, payload))
                    } else {
                        None
                    },
                    None => None,
                },
                None => None,
            },
            None => None,
        },
        None => None,
    }
}

/// Reads the body of a view-call query back: the contract, the Base64 of the
/// arguments and the method name.
pub open spec fn read_view_call_body(s: Seq<char>) -> Option<(Seq<char>, Seq<char>, Seq<char>)> {
    match after_text(
        s,
        "{\"jsonrpc\":\"2.0\",\"id\":\"dontcare\",\"method\":\"query\",\"params\":{\"account_id\":"@,
    ) {
        Some(r1) => match read_string(r1) {
            Some((contract, r2)) => match after_text(r2, ",\"args_base64\":"@) {
                Some(r3) => match read_string(r3) {
                    Some((args, r4)) => match after_text(
                        r4,
                        ",\"finality\":\"final\",\"method_name\":"@,
                    ) {
                        Some(r5) => match read_string(r5) {
                            Some((method, r6)) => if r6 == ",\"request_type\":\"call_function\"}}"@ {
                                Some((contract, args, method))
                            } else {
                                None
                            },
                            None => None,
                        },
                        None => None,
                    },
                    None => None,
                },
                None => None,
            },
            None => None,
        },
        None => None,
    }
}

/// The arguments of `derived_public_key` name the account's derivation path
/// `nostr/<account>`, whatever the account.
pub proof fn law_public_key_args_read_back(account_id: Seq<char>)
    ensures
        read_public_key_args(public_key_args_text(account_id)) == Some("nostr/"@ + account_id),
{
    let path = json_string_literal("nostr/"@ + account_id);
    let r1 = path + "}"@;
    assert(public_key_args_text(account_id) =~= "{\"domain\":0,\"path\":"@ + r1);
    lemma_after_text("{\"domain\":0,\"path\":"@, r1);
    lemma_read_string("nostr/"@ + account_id, "}"@);
}

/// The arguments of `sign` carry the payload unchanged, with the account's
/// derivation path, whatever the account and the payload.
pub proof fn law_sign_args_read_back(account_id: Seq<char>, payload: Seq<char>)
    ensures
        read_sign_args(sign_args_text(account_id, payload)) == Some(
            ("nostr/"@ + account_id, payload),
        ),
{
    let r3 = json_string_literal(payload) + "}"@;
    let r2 = ",\"payload\":"@ + r3;
    let r1 = json_string_literal("nostr/"@ + account_id) + r2;
    assert(sign_args_text(account_id, payload) =~= "{\"domain\":0,\"path\":"@ + r1);
    lemma_after_text("{\"domain\":0,\"path\":"@, r1);
    lemma_read_string("nostr/"@ + account_id, r2);
    lemma_after_text(",\"payload\":"@, r3);
    lemma_read_string(payload, "}"@);
}

/// The body of a view call names exactly the contract and the method it was
/// given, and its `args_base64` decodes to the UTF-8 bytes of the arguments.
pub proof fn law_view_call_body_read_back(contract_id: Seq<char>, method: Seq<char>, args_json: Seq<char>)
    ensures
        ({
            let b64 = crate::base64::base64_of(encode_utf8(args_json));
            &&& read_view_call_body(view_call_body_text(contract_id, method, b64)) == Some(
                (contract_id, b64, method),
            )
            &&& crate::base64::base64_decode(b64) == Some(encode_utf8(args_json))
        }),
{
    let b64 = crate::base64::base64_of(encode_utf8(args_json));
    let p1 = "{\"jsonrpc\":\"2.0\",\"id\":\"dontcare\",\"method\":\"query\",\"params\":{\"account_id\":"@;
    let p2 = ",\"args_base64\":"@;
    let p3 = ",\"finality\":\"final\",\"method_name\":"@;
    let p4 = ",\"request_type\":\"call_function\"}}"@;
    let r5 = json_string_literal(method) + p4;
    let r4 = p3 + r5;
    let r3 = json_string_literal(b64) + r4;
    let r2 = p2 + r3;
    let r1 = json_string_literal(contract_id) + r2;
    assert(view_call_body_text(contract_id, method, b64) =~= p1 + r1);
    lemma_after_text(p1, r1);
    lemma_read_string(contract_id, r2);
    lemma_after_text(p2, r3);
    lemma_read_string(b64, r4);
    lemma_after_text(p3, r5);
    lemma_read_string(method, p4);
    crate::base64::lemma_base64_decode_encode(encode_utf8(args_json));
}

/// Reads an RPC reply: an error message wins, then a missing result is an
/// error, and otherwise the result is handed on.
pub fn rpc_reply_outcome<T>(error: Option<String>, result: Option<T>) -> (res: Result<T, String>)
    ensures
        match error {
            Some(m) => res matches Err(e) && e@ == "NEAR RPC error: "@ + m@,
            None => match result {
                Some(r) => res == Ok::<T, String>(r),
                None => res matches Err(e) && e@ == "No result in response"@,
            },
        },
{
    match error {
        Some(m) => Err(concat("NEAR RPC error: ", m.as_str())),
        None => match result {
            Some(r) => Ok(r),
            None => Err("No result in response".to_owned()),
        },
    }
}

/// Reads the bytes returned by `derived_public_key` as the public key: UTF-8
/// text without the double quotes around it.
pub fn decode_public_key(bytes: Vec<u8>) -> (res: Result<String, FromUtf8Error>)
    ensures
        match res {
            Ok(s) => valid_utf8(bytes@) && s@ == trim_quotes(decode_utf8(bytes@)),
            Err(_) => !valid_utf8(bytes@),
        },
{
    let text = string_from_utf8(bytes)?;
    Ok(trim_double_quotes(text.as_str()))
}

/// The identifier of an event: the lowercase hex SHA-256 of its
/// serialisation.
pub fn event_id(event: &NostrEvent) -> (res: String)
    ensures
        res@ == id_of_text(event_json_text(*event)),
        res@.len() == 64,
        is_lower_hex(res@),
{
    let serialized = serialize_event(event);
    text_digest(serialized.as_str())
}

/// The signed event for `event`, with identifier `id` and the signature that
/// the `sign` call returned as bytes of UTF-8 text.
pub fn finish_signed_event(event: &NostrEvent, id: String, sig_bytes: Vec<u8>) -> (res: Result<
    SignedEvent,
    FromUtf8Error,
>)
    ensures
        match res {
            Ok(s) => {
                &&& valid_utf8(sig_bytes@)
                &&& s.sig@ == decode_utf8(sig_bytes@)
                &&& s.id@ == id@
                &&& s.pubkey@ == event.pubkey@
                &&& s.created_at == event.created_at
                &&& s.kind == event.kind
                &&& tags_view(s.tags@) == tags_view(event.tags@)
                &&& s.content@ == event.content@
            },
            Err(_) => !valid_utf8(sig_bytes@),
        },
{
    let sig = string_from_utf8(sig_bytes)?;
    Ok(
        SignedEvent {
            id,
            pubkey: event.pubkey.clone(),
            created_at: event.created_at,
            kind: event.kind,
            tags: copy_tags(&event.tags),
            content: event.content.clone(),
            sig,
        },
    )
}

/// Posting over HTTP from inside the WebAssembly sandbox: the host offers no
/// such call, so the worker answers that it has to run in the OutLayer TEE.
pub fn http_post(url: &str, body: &str) -> (res: Result<String, String>)
    ensures
        res matches Err(e)
            && e@ == "Deploy to OutLayer TEE for HTTP support. Local WASM cannot make HTTP requests."@,
{
    Err("Deploy to OutLayer TEE for HTTP support. Local WASM cannot make HTTP requests.".to_owned())
}

/// The text hashed into a session token: `<account>:<now>:session`.
pub open spec fn session_seed(account_id: Seq<char>, now: nat) -> Seq<char> {
    account_id + ":"@ + decimal(now) + ":session"@
}

/// Reads a session seed back: the account and the time before `:session`.
pub open spec fn read_session_seed(seed: Seq<char>) -> Option<(Seq<char>, nat)> {
    if seed.len() >= 8 && seed.subrange(seed.len() - 8, seed.len() as int) == ":session"@ {
        match read_trailing_nat(seed.subrange(0, seed.len() - 8)) {
            Some((r, now)) => if r.len() > 0 && r.last() == ':' {
                Some((r.drop_last(), now))
            } else {
                None
            },
            None => None,
        }
    } else {
        None
    }
}

/// The text hashed into a session token names the account and the time it
/// was opened at, whatever they are.
pub proof fn law_session_seed_read_back(account_id: Seq<char>, now: nat)
    ensures
        read_session_seed(session_seed(account_id, now)) == Some((account_id, now)),
{
    reveal_strlit(":");
    reveal_strlit(":session");
    let r = account_id + seq![':'];
    let seed = session_seed(account_id, now);
    assert(seed =~= r + decimal(now) + ":session"@);
    assert(seed.subrange(seed.len() - 8, seed.len() as int) =~= ":session"@);
    assert(seed.subrange(0, seed.len() - 8) =~= r + decimal(now));
    lemma_read_trailing_nat(r, now);
    assert(r.drop_last() =~= account_id);
}

/// The token of a session opened for `account_id` at time `now`.
pub open spec fn session_token(account_id: Seq<char>, now: nat) -> Seq<char> {
    id_of_text(session_seed(account_id, now))
}

/// Opens a session for `account_id` at time `now`: the token is recorded as
/// the account's current one and returned.
pub fn create_session_at(sessions: &mut Store<String>, account_id: &str, now: u64) -> (res: String)
    requires
        old(sessions).wf(),
    ensures
        final(sessions).wf(),
        res@ == session_token(account_id@, now as nat),
        res@.len() == 64,
        is_lower_hex(res@),
        final(sessions)@ == old(sessions)@.insert(account_id@, res),
{
    let mut seed = account_id.to_owned();
    seed.append(":");
    push_decimal(&mut seed, now);
    seed.append(":session");
    let token = text_digest(seed.as_str());
    sessions.insert(account_id.to_owned(), token.clone());
    token
}

/// Opens a session for `account_id` at the current time. `None` when the
/// clock reads a time before the Unix epoch; the store is then unchanged.
pub fn create_session(sessions: &mut Store<String>, account_id: &str) -> (res: Option<String>)
    requires
        old(sessions).wf(),
    ensures
        final(sessions).wf(),
        match res {
            Some(token) => exists|now: u64| {
                &&& token@ == session_token(account_id@, now as nat)
                &&& #[trigger] final(sessions)@ == old(sessions)@.insert(account_id@, token)
            },
            None => final(sessions)@ == old(sessions)@,
        },
        res matches Some(token) ==> token@.len() == 64 && is_lower_hex(token@),
{
    match current_timestamp() {
        Some(now) => {
            let token = create_session_at(sessions, account_id, now);
            Some(token)
        },
        None => None,
    }
}

} // verus!
