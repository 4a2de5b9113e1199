//! The worker variant with session management: 30-day session tokens per
//! account, their validation, key derivation and event signing.
use crate::clock::current_timestamp;
use crate::digest::is_lower_hex;
use crate::event::{copy_tags, event_json_text, id_of_text, serialize_event, text_digest, NostrEvent, SignedEvent};
use crate::json::tags_view;
use crate::session::{Session, SESSION_LIFETIME};
use crate::json_read::{lemma_read_trailing_nat, read_trailing_nat};
use crate::store::Store;
use crate::text::{concat, decimal, push_decimal, text_eq};
use vstd::prelude::*;

verus! {

/// The methods this worker answers.
pub enum SessionsMethod {
    GetPublicKey,
    SignEvent,
    CreateSession,
    ValidateSession,
    Nip04Encrypt,
    Nip04Decrypt,
    Unknown,
}

/// The method named `m`; `connect` is another name for `get_public_key`.
pub open spec fn sessions_method_of(m: Seq<char>) -> SessionsMethod {
    if m == "connect"@ || m == "get_public_key"@ {
        SessionsMethod::GetPublicKey
    } else if m == "sign_event"@ {
        SessionsMethod::SignEvent
    } else if m == "create_session"@ {
        SessionsMethod::CreateSession
    } else if m == "validate_session"@ {
        SessionsMethod::ValidateSession
    } else if m == "nip04_encrypt"@ {
        SessionsMethod::Nip04Encrypt
    } else if m == "nip04_decrypt"@ {
        SessionsMethod::Nip04Decrypt
    } else {
        SessionsMethod::Unknown
    }
}

/// Classifies the method of a request.
pub fn route(method: &str) -> (res: SessionsMethod)
    ensures
        res == sessions_method_of(method@),
{
    if text_eq(method, "connect") || text_eq(method, "get_public_key") {
        SessionsMethod::GetPublicKey
    } else if text_eq(method, "sign_event") {
        SessionsMethod::SignEvent
    } else if text_eq(method, "create_session") {
        SessionsMethod::CreateSession
    } else if text_eq(method, "validate_session") {
        SessionsMethod::ValidateSession
    } else if text_eq(method, "nip04_encrypt") {
        SessionsMethod::Nip04Encrypt
    } else if text_eq(method, "nip04_decrypt") {
        SessionsMethod::Nip04Decrypt
    } else {
        SessionsMethod::Unknown
    }
}

/// The error answered to the methods that are not implemented; `None` for
/// the others.
pub fn not_implemented_message(method: &SessionsMethod) -> (res: Option<String>)
    ensures
        match method {
            SessionsMethod::Nip04Encrypt => res matches Some(m) && m@
                == "NIP-04 encryption not implemented"@,
            SessionsMethod::Nip04Decrypt => res matches Some(m) && m@
                == "NIP-04 decryption not implemented"@,
            _ => res is None,
        },
{
    match method {
        SessionsMethod::Nip04Encrypt => Some("NIP-04 encryption not implemented".to_owned()),
        SessionsMethod::Nip04Decrypt => Some("NIP-04 decryption not implemented".to_owned()),
        _ => None,
    }
}

/// Whether `account` holds a session that is still live at time `now`.
pub open spec fn has_live_session(sessions: Map<Seq<char>, Session>, account: Seq<char>, now: nat) -> bool {
    &&& sessions.contains_key(account)
    &&& sessions[account].expires_at > now
}

/// Whether `account_id` may sign at time `now`: it must hold a session that
/// has not expired.
pub fn is_authenticated(sessions: &Store<Session>, account_id: &str, now: u64) -> (res: bool)
    requires
        sessions.wf(),
    ensures
        res == has_live_session(sessions@, account_id@, now as nat),
{
    match sessions.get(account_id) {
        Some(session) => session.expires_at > now,
        None => false,
    }
}

/// The answer to a signing request before the event is read: refused when
/// the account has no live session at time `now`.
pub fn check_signing_allowed(sessions: &Store<Session>, account_id: &str, now: u64) -> (res: Result<
    (),
    String,
>)
    requires
        sessions.wf(),
    ensures
        has_live_session(sessions@, account_id@, now as nat) ==> res is Ok,
        !has_live_session(sessions@, account_id@, now as nat) ==> (res matches Err(e) && e@
            == "Not authenticated. Visit auth URL first."@),
{
    if !is_authenticated(sessions, account_id, now) {
        return Err("Not authenticated. Visit auth URL first.".to_owned());
    }
    Ok(())
}

/// The text hashed into a session token: `<account>:<now>:<nonce>`.
pub open spec fn session_seed(account_id: Seq<char>, now: nat, nonce: nat) -> Seq<char> {
    account_id + ":"@ + decimal(now) + ":"@ + decimal(nonce)
}

/// Reads a session seed back from its end: the account, the time and the
/// nonce.
pub open spec fn read_session_seed(seed: Seq<char>) -> Option<(Seq<char>, nat, nat)> {
    match read_trailing_nat(seed) {
        Some((r1, nonce)) => if r1.len() > 0 && r1.last() == ':' {
            match read_trailing_nat(r1.drop_last()) {
                Some((r2, now)) => if r2.len() > 0 && r2.last() == ':' {
                    Some((r2.drop_last(), now, nonce))
                } else {
                    None
                },
                None => None,
            }
        } else {
            None
        },
        None => None,
    }
}

/// The text hashed into a session token names the account, the time and the
/// nonce it was opened with, whatever they are.
pub proof fn law_session_seed_read_back(account: Seq<char>, now: nat, nonce: nat)
    ensures
        read_session_seed(session_seed(account, now, nonce)) == Some((account, now, nonce)),
{
    reveal_strlit(":");
    let r2 = account + seq![':'];
    let r1 = r2 + decimal(now) + seq![':'];
    assert(session_seed(account, now, nonce) =~= r1 + decimal(nonce));
    lemma_read_trailing_nat(r1, nonce);
    assert(r1.drop_last() =~= r2 + decimal(now));
    lemma_read_trailing_nat(r2, now);
    assert(r2.drop_last() =~= account);
}

/// Whether `token` is the live session token of `account` at time `now` in
/// the records `sessions`.
pub open spec fn session_valid(
    sessions: Map<Seq<char>, Session>,
    account: Seq<char>,
    token: Seq<char>,
    now: nat,
) -> bool {
    &&& sessions.contains_key(account)
    &&& sessions[account].token@ == token
    &&& sessions[account].expires_at > now
}

/// Opens a 30-day session for `account_id` at time `now`, its token derived
/// from the account, the time and the random `nonce`; it replaces the
/// account's previous session.
pub fn create_session_at(
    sessions: &mut Store<Session>,
    account_id: &str,
    now: u64,
    nonce: u64,
) -> (res: Session)
    requires
        old(sessions).wf(),
        now + SESSION_LIFETIME <= u64::MAX,
    ensures
        final(sessions).wf(),
        res.account_id@ == account_id@,
        res.created_at == now,
        res.expires_at == now + SESSION_LIFETIME,
        res.token@ == id_of_text(session_seed(account_id@, now as nat, nonce as nat)),
        res.token@.len() == 64,
        is_lower_hex(res.token@),
        final(sessions)@ == old(sessions)@.insert(account_id@, res),
{
    let mut seed = account_id.to_owned();
    seed.append(":");
    push_decimal(&mut seed, now);
    seed.append(":");
    push_decimal(&mut seed, nonce);
    let token = text_digest(seed.as_str());
    let session = Session {
        account_id: account_id.to_owned(),
        created_at: now,
        expires_at: now + SESSION_LIFETIME,
        token,
    };
    sessions.insert(account_id.to_owned(), session.duplicate());
    session
}

/// Opens a session at time `now` when its expiry fits in 64 bits: `None`,
/// with the records unchanged, exactly when `now + SESSION_LIFETIME` would
/// overflow.
pub fn create_session_checked(
    sessions: &mut Store<Session>,
    account_id: &str,
    now: u64,
    nonce: u64,
) -> (res: Option<Session>)
    requires
        old(sessions).wf(),
    ensures
        final(sessions).wf(),
        res is None <==> now > u64::MAX - SESSION_LIFETIME,
        res is None ==> final(sessions)@ == old(sessions)@,
        res matches Some(s) ==> {
            &&& s.account_id@ == account_id@
            &&& s.created_at == now
            &&& s.expires_at == now + SESSION_LIFETIME
            &&& s.token@ == id_of_text(session_seed(account_id@, now as nat, nonce as nat))
            &&& s.token@.len() == 64
            &&& is_lower_hex(s.token@)
            &&& final(sessions)@ == old(sessions)@.insert(account_id@, s)
        },
{
    if now > u64::MAX - SESSION_LIFETIME {
        return None;
    }
    Some(create_session_at(sessions, account_id, now, nonce))
}

/// Opens a session at the current time. `None`, with the records unchanged,
/// when the clock reads a time before the Unix epoch or so late that the
/// expiry does not fit in 64 bits.
pub fn create_session(sessions: &mut Store<Session>, account_id: &str, nonce: u64) -> (res: Option<
    Session,
>)
    requires
        old(sessions).wf(),
    ensures
        final(sessions).wf(),
        match res {
            Some(s) => {
                &&& s.account_id@ == account_id@
                &&& s.created_at <= u64::MAX - SESSION_LIFETIME
                &&& s.expires_at == s.created_at + SESSION_LIFETIME
                &&& s.token@ == id_of_text(
                    session_seed(account_id@, s.created_at as nat, nonce as nat),
                )
                &&& s.token@.len() == 64
                &&& is_lower_hex(s.token@)
                &&& final(sessions)@ == old(sessions)@.insert(account_id@, s)
            },
            None => final(sessions)@ == old(sessions)@,
        },
{
    match current_timestamp() {
        Some(now) => create_session_checked(sessions, account_id, now, nonce),
        None => None,
    }
}

/// Whether `token` is the token of the session of `account_id` and that
/// session has not expired at time `now`.
pub fn validate_session_at(sessions: &Store<Session>, account_id: &str, token: &str, now: u64) -> (res:
    bool)
    requires
        sessions.wf(),
    ensures
        res == session_valid(sessions@, account_id@, token@, now as nat),
{
    match sessions.get(account_id) {
        Some(session) => text_eq(session.token.as_str(), token) && session.expires_at > now,
        None => false,
    }
}

/// Validates a token against the current time. The clock is read only when
/// the token is the account's; `None` when it then reads a time before the
/// Unix epoch.
pub fn validate_session(sessions: &Store<Session>, account_id: &str, token: &str) -> (res: Option<
    bool,
>)
    requires
        sessions.wf(),
    ensures
        !(sessions@.contains_key(account_id@) && sessions@[account_id@].token@ == token@) ==> res
            == Some(false),
        res == Some(true) ==> sessions@.contains_key(account_id@) && sessions@[account_id@].token@
            == token@,
        res is None ==> sessions@.contains_key(account_id@) && sessions@[account_id@].token@
            == token@,
        res matches Some(b) ==> exists|now: u64| b == #[trigger] session_valid(
            sessions@,
            account_id@,
            token@,
            now as nat,
        ),
{
    match sessions.get(account_id) {
        Some(session) => {
            if !text_eq(session.token.as_str(), token) {
                proof {
                    assert(!session_valid(sessions@, account_id@, token@, 0));
                }
                return Some(false);
            }
            match current_timestamp() {
                Some(now) => Some(validate_session_at(sessions, account_id, token, now)),
                None => None,
            }
        },
        None => {
            proof {
                assert(!session_valid(sessions@, account_id@, token@, 0));
            }
            Some(false)
        },
    }
}

/// A session whose expiry is not after `now` never validates, whatever the
/// token.
pub proof fn law_expired_session_never_validates(
    sessions: Map<Seq<char>, Session>,
    account: Seq<char>,
    token: Seq<char>,
    now: nat,
)
    requires
        sessions.contains_key(account),
        sessions[account].expires_at <= now,
    ensures
        !session_valid(sessions, account, token, now),
{
}

/// A session just opened for an account makes it authenticated exactly until
/// the session expires.
pub proof fn law_created_session_authenticates(
    before: Map<Seq<char>, Session>,
    account: Seq<char>,
    session: Session,
    now: nat,
)
    ensures
        has_live_session(before.insert(account, session), account, now) == (now
            < session.expires_at),
{
}

/// The Nostr public key of an account: the lowercase hex SHA-256 of its
/// derivation path `nostr/<account>`.
pub fn derive_nostr_pubkey(account_id: &str) -> (res: String)
    ensures
        res@ == id_of_text("nostr/"@ + account_id@),
        res@.len() == 64,
        is_lower_hex(res@),
{
    let path = concat("nostr/", account_id);
    text_digest(path.as_str())
}

/// Signs an event for `account_id`: the identifier is the hex SHA-256 of its
/// serialisation and the signature is `sig_<id>_<account>`; the other fields
/// are the event's.
pub fn sign_nostr_event(account_id: &str, event: &NostrEvent) -> (res: SignedEvent)
    ensures
        res.id@ == id_of_text(event_json_text(*event)),
        res.id@.len() == 64,
        is_lower_hex(res.id@),
        res.sig@ == "sig_"@ + res.id@ + "_"@ + account_id@,
        res.pubkey@ == event.pubkey@,
        res.created_at == event.created_at,
        res.kind == event.kind,
        tags_view(res.tags@) == tags_view(event.tags@),
        res.content@ == event.content@,
{
    let serialized = serialize_event(event);
    let event_id = text_digest(serialized.as_str());
    let mut signature = "sig_".to_owned();
    signature.append(event_id.as_str());
    signature.append("_");
    signature.append(account_id);
    SignedEvent {
        id: event_id,
        pubkey: event.pubkey.clone(),
        created_at: event.created_at,
        kind: event.kind,
        tags: copy_tags(&event.tags),
        content: event.content.clone(),
        sig: signature,
    }
}

/// A session just opened for an account validates with its token exactly
/// until it expires, and no other token validates for that account.
pub proof fn law_created_session_validates(
    before: Map<Seq<char>, Session>,
    account: Seq<char>,
    session: Session,
    token: Seq<char>,
    now: nat,
)
    ensures
        session_valid(before.insert(account, session), account, session.token@, now) == (now
            < session.expires_at),
        token != session.token@ ==> !session_valid(
            before.insert(account, session),
            account,
            token,
            now,
        ),
{
}

} // verus!
