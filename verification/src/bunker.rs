//! The standalone bunker: one NEAR account, a deterministic Nostr key cached
//! per account, event signing, and sessions looked up by token.
use crate::clock::current_timestamp;
use crate::digest::{hex_encode, hex_lower, is_lower_hex, lemma_hex_lower, sha256, sha256_of};
use crate::event::{
    event_json_text, id_of_text, require_event, serialize_event, text_digest, EventParam, NostrEvent,
    SignedEvent,
};
use crate::json::tags_view;
use crate::json_read::{lemma_read_trailing_nat, read_trailing_nat};
use crate::session::{Session, SESSION_LIFETIME};
use crate::store::Store;
use crate::text::{concat, decimal, push_decimal, text_eq};
use vstd::prelude::*;
use vstd::utf8::encode_utf8;

verus! {

/// The account the bunker signs for.
pub const BUNKER_ACCOUNT: &'static str = "kampouse.near";

/// The text appended to an account before hashing it into a Nostr key.
pub const PUBKEY_DOMAIN: &'static str = "nostr-bunker-outlayer-v1";

/// The methods the bunker answers.
pub enum BunkerMethod {
    GetPublicKey,
    SignEvent,
    CreateSession,
    GetSession,
    Unknown,
}

/// The method named `m`.
pub open spec fn bunker_method_of(m: Seq<char>) -> BunkerMethod {
    if m == "get_public_key"@ {
        BunkerMethod::GetPublicKey
    } else if m == "sign_event"@ {
        BunkerMethod::SignEvent
    } else if m == "create_session"@ {
        BunkerMethod::CreateSession
    } else if m == "get_session"@ {
        BunkerMethod::GetSession
    } else {
        BunkerMethod::Unknown
    }
}

/// Classifies the method of a request.
pub fn route(method: &str) -> (res: BunkerMethod)
    ensures
        res == bunker_method_of(method@),
{
    if text_eq(method, "get_public_key") {
        BunkerMethod::GetPublicKey
    } else if text_eq(method, "sign_event") {
        BunkerMethod::SignEvent
    } else if text_eq(method, "create_session") {
        BunkerMethod::CreateSession
    } else if text_eq(method, "get_session") {
        BunkerMethod::GetSession
    } else {
        BunkerMethod::Unknown
    }
}

/// The result carried by a successful response.
pub enum Reply {
    PublicKey(String),
    Signed(SignedEvent),
    Session(Session),
}

/// A response: the request's id with either a result or an error.
pub struct Response {
    pub id: Option<u64>,
    pub result: Option<Reply>,
    pub error: Option<String>,
}

/// Whether `r` is the error response with message `msg` for request `id`.
pub open spec fn is_error_response(r: Response, id: Option<u64>, msg: Seq<char>) -> bool {
    &&& r.id == id
    &&& r.result is None
    &&& r.error matches Some(e) && e@ == msg
}

/// The response to a method no handler knows.
pub fn unknown_method_response(id: Option<u64>, method: &str) -> (res: Response)
    ensures
        is_error_response(res, id, "Unknown method: "@ + method@),
{
    Response { id, result: None, error: Some(crate::text::unknown_method_message(method)) }
}

/// The Nostr public key of an account: the lowercase hex SHA-256 of the
/// account followed by `PUBKEY_DOMAIN`.
pub open spec fn pubkey_of(account: Seq<char>) -> Seq<char> {
    id_of_text(account + PUBKEY_DOMAIN@)
}

/// Derives the Nostr public key of an account.
pub fn derive_pubkey(account: &str) -> (res: String)
    ensures
        res@ == pubkey_of(account@),
        res@.len() == 64,
        is_lower_hex(res@),
{
    let text = concat(account, PUBKEY_DOMAIN);
    text_digest(text.as_str())
}

/// Whether `s` is the signed form of `event`: identifier the hex SHA-256 of
/// its JSON serialisation, signature `sig_<id>`, other fields the event's.
pub open spec fn signed_by_bunker(s: SignedEvent, event: NostrEvent) -> bool {
    &&& s.id@ == id_of_text(event_json_text(event))
    &&& s.sig@ == "sig_"@ + s.id@
    &&& s.pubkey@ == event.pubkey@
    &&& s.created_at == event.created_at
    &&& s.kind == event.kind
    &&& tags_view(s.tags@) == tags_view(event.tags@)
    &&& s.content@ == event.content@
}

/// Answers a signing request: the error for a missing or invalid event,
/// otherwise the event signed by the bunker.
pub fn handle_sign_event(id: Option<u64>, param: EventParam) -> (res: Response)
    ensures
        res.id == id,
        res.result is Some != res.error is Some,
        match param {
            EventParam::Missing => is_error_response(res, id, "Missing event parameter"@),
            EventParam::Invalid(why) => is_error_response(res, id, "Invalid event: "@ + why@),
            EventParam::Event(event) => {
                &&& res.error is None
                &&& res.result matches Some(Reply::Signed(s)) && signed_by_bunker(s, event)
            },
        },
{
    let event = match require_event(param) {
        Ok(e) => e,
        Err(message) => return Response { id, result: None, error: Some(message) },
    };
    let serialized = serialize_event(&event);
    let event_id = text_digest(serialized.as_str());
    let sig = concat("sig_", event_id.as_str().substring_char(0, 64));
    proof {
        assert(event_id@.subrange(0, 64) =~= event_id@);
    }
    let signed = SignedEvent {
        id: event_id,
        pubkey: event.pubkey,
        created_at: event.created_at,
        kind: event.kind,
        tags: event.tags,
        content: event.content,
        sig,
    };
    Response { id, result: Some(Reply::Signed(signed)), error: None }
}

/// The token of the session opened at time `now`: `sess_` and the hex of the
/// first 16 bytes of the SHA-256 of `<BUNKER_ACCOUNT>:<now>`.
pub open spec fn bunker_session_token(now: nat) -> Seq<char> {
    "sess_"@ + hex_lower(
        sha256_of(encode_utf8(BUNKER_ACCOUNT@ + ":"@ + decimal(now))).subrange(0, 16),
    )
}

/// The text hashed into a bunker session token names the bunker's account
/// and the time, whatever the time.
pub proof fn law_bunker_seed_read_back(now: nat)
    ensures
        read_trailing_nat(BUNKER_ACCOUNT@ + ":"@ + decimal(now)) == Some(
            (BUNKER_ACCOUNT@ + ":"@, now),
        ),
{
    reveal_strlit(":");
    lemma_read_trailing_nat(BUNKER_ACCOUNT@ + ":"@, now);
}

/// The state of the bunker: cached public keys per account and sessions per
/// token.
pub struct Bunker {
    pubkeys: Store<String>,
    sessions: Store<Session>,
}

impl Bunker {
    /// Every cached key is the derivation of its account, and every session
    /// is filed under its own token.
    pub closed spec fn wf(&self) -> bool {
        &&& self.pubkeys.wf()
        &&& self.sessions.wf()
        &&& forall|a: Seq<char>| #[trigger]
            self.pubkeys@.contains_key(a) ==> self.pubkeys@[a]@ == pubkey_of(a)
                && self.pubkeys@[a]@.len() == 64 && is_lower_hex(self.pubkeys@[a]@)
        &&& forall|t: Seq<char>| #[trigger]
            self.sessions@.contains_key(t) ==> self.sessions@[t].token@ == t
    }

    /// The accounts whose public key has been handed out.
    pub closed spec fn cached_accounts(&self) -> Set<Seq<char>> {
        self.pubkeys@.dom()
    }

    /// The open sessions, by token.
    pub closed spec fn sessions_view(&self) -> Map<Seq<char>, Session> {
        self.sessions@
    }

    /// A bunker with no cached key and no session.
    pub fn new() -> (res: Bunker)
        ensures
            res.wf(),
            res.cached_accounts() == Set::<Seq<char>>::empty(),
            res.sessions_view() == Map::<Seq<char>, Session>::empty(),
    {
        let res = Bunker { pubkeys: Store::new(), sessions: Store::new() };
        proof {
            assert(res.pubkeys@.dom() =~= Set::<Seq<char>>::empty());
        }
        res
    }

    /// The public key of `account`, derived once and then served from the
    /// cache.
    pub fn public_key_of(&mut self, account: &str) -> (res: String)
        requires
            old(self).wf(),
        ensures
            final(self).wf(),
            res@ == pubkey_of(account@),
            res@.len() == 64,
            is_lower_hex(res@),
            final(self).cached_accounts() == old(self).cached_accounts().insert(account@),
            final(self).sessions_view() == old(self).sessions_view(),
    {
        match self.pubkeys.get(account) {
            Some(key) => {
                proof {
                    assert(self.pubkeys@.dom().insert(account@) =~= self.pubkeys@.dom());
                }
                key.clone()
            },
            None => {
                let key = derive_pubkey(account);
                let ghost before = self.pubkeys@;
                self.pubkeys.insert(account.to_owned(), key.clone());
                proof {
                    assert forall|a: Seq<char>| #[trigger]
                        self.pubkeys@.contains_key(a) implies self.pubkeys@[a]@ == pubkey_of(a) by {
                        if a != account@ {
                            assert(before.contains_key(a));
                        }
                    }
                }
                key
            },
        }
    }

    /// Answers `get_public_key`: the key of `BUNKER_ACCOUNT`.
    pub fn handle_get_public_key(&mut self, id: Option<u64>) -> (res: Response)
        requires
            old(self).wf(),
        ensures
            final(self).wf(),
            res.id == id,
            res.error is None,
            res.result matches Some(Reply::PublicKey(k)) && k@ == pubkey_of(BUNKER_ACCOUNT@)
                && k@.len() == 64 && is_lower_hex(k@),
            final(self).cached_accounts() == old(self).cached_accounts().insert(BUNKER_ACCOUNT@),
            final(self).sessions_view() == old(self).sessions_view(),
    {
        let key = self.public_key_of(BUNKER_ACCOUNT);
        Response { id, result: Some(Reply::PublicKey(key)), error: None }
    }

    /// Answers `create_session` at time `now`: a 30-day session for
    /// `BUNKER_ACCOUNT`, filed under its token.
    pub fn handle_create_session_at(&mut self, id: Option<u64>, now: u64) -> (res: Response)
        requires
            old(self).wf(),
            now + SESSION_LIFETIME <= u64::MAX,
        ensures
            final(self).wf(),
            res.id == id,
            res.error is None,
            res.result matches Some(Reply::Session(s)) && {
                &&& s.token@ == bunker_session_token(now as nat)
                &&& s.token@.len() == 37
                &&& s.account_id@ == BUNKER_ACCOUNT@
                &&& s.created_at == now
                &&& s.expires_at == now + SESSION_LIFETIME
                &&& final(self).sessions_view() == old(self).sessions_view().insert(s.token@, s)
            },
            final(self).cached_accounts() == old(self).cached_accounts(),
    {
        let mut seed = concat(BUNKER_ACCOUNT, ":");
        push_decimal(&mut seed, now);
        let digest = sha256(seed.as_str().as_bytes());
        let head = vstd::slice::slice_subrange(digest.as_slice(), 0, 16);
        let token = concat("sess_", hex_encode(head).as_str());
        let session = Session {
            token: token.clone(),
            account_id: BUNKER_ACCOUNT.to_owned(),
            created_at: now,
            expires_at: now + SESSION_LIFETIME,
        };
        proof {
            lemma_hex_lower(head@);
            reveal_strlit("sess_");
        }
        let ghost before = self.sessions@;
        self.sessions.insert(token, session.duplicate());
        proof {
            assert forall|t: Seq<char>| #[trigger]
                self.sessions@.contains_key(t) implies self.sessions@[t].token@ == t by {
                if t != session.token@ {
                    assert(before.contains_key(t));
                }
            }
        }
        Response { id, result: Some(Reply::Session(session)), error: None }
    }

    /// Answers `create_session` at time `now` when the expiry fits in 64
    /// bits: `None`, with the state unchanged, exactly when
    /// `now + SESSION_LIFETIME` would overflow.
    pub fn handle_create_session_checked(&mut self, id: Option<u64>, now: u64) -> (res: Option<
        Response,
    >)
        requires
            old(self).wf(),
        ensures
            final(self).wf(),
            res is None <==> now > u64::MAX - SESSION_LIFETIME,
            res is None ==> final(self).sessions_view() == old(self).sessions_view(),
            res matches Some(r) ==> {
                &&& r.id == id
                &&& r.error is None
                &&& r.result matches Some(Reply::Session(s)) && {
                    &&& s.token@ == bunker_session_token(now as nat)
                    &&& s.token@.len() == 37
                    &&& s.account_id@ == BUNKER_ACCOUNT@
                    &&& s.created_at == now
                    &&& s.expires_at == now + SESSION_LIFETIME
                    &&& final(self).sessions_view() == old(self).sessions_view().insert(
                        s.token@,
                        s,
                    )
                }
            },
            final(self).cached_accounts() == old(self).cached_accounts(),
    {
        if now > u64::MAX - SESSION_LIFETIME {
            return None;
        }
        Some(self.handle_create_session_at(id, now))
    }

    /// Answers `create_session` at the current time. `None`, with the state
    /// unchanged, when the clock reads a time before the Unix epoch or too
    /// late for the expiry to fit in 64 bits.
    pub fn handle_create_session(&mut self, id: Option<u64>) -> (res: Option<Response>)
        requires
            old(self).wf(),
        ensures
            final(self).wf(),
            match res {
                Some(r) => {
                    &&& r.id == id
                    &&& r.error is None
                    &&& r.result matches Some(Reply::Session(s)) && {
                        &&& s.token@ == bunker_session_token(s.created_at as nat)
                        &&& s.token@.len() == 37
                        &&& s.account_id@ == BUNKER_ACCOUNT@
                        &&& s.created_at <= u64::MAX - SESSION_LIFETIME
                        &&& s.expires_at == s.created_at + SESSION_LIFETIME
                        &&& final(self).sessions_view() == old(self).sessions_view().insert(
                            s.token@,
                            s,
                        )
                    }
                },
                None => final(self).sessions_view() == old(self).sessions_view(),
            },
            final(self).cached_accounts() == old(self).cached_accounts(),
    {
        match current_timestamp() {
            Some(now) => self.handle_create_session_checked(id, now),
            None => None,
        }
    }

    /// Answers `get_session` for the token parameter (`None` when it is
    /// missing or not a string).
    pub fn handle_get_session(&self, id: Option<u64>, token: Option<&str>) -> (res: Response)
        requires
            self.wf(),
        ensures
            match token {
                None => is_error_response(res, id, "Missing token parameter"@),
                Some(t) => if self.sessions_view().contains_key(t@) {
                    &&& res.id == id
                    &&& res.error is None
                    &&& res.result == Some(Reply::Session(self.sessions_view()[t@]))
                } else {
                    is_error_response(res, id, "Session not found"@)
                },
            },
    {
        match token {
            None => Response { id, result: None, error: Some("Missing token parameter".to_owned()) },
            Some(t) => match self.sessions.get(t) {
                Some(session) => Response {
                    id,
                    result: Some(Reply::Session(session.duplicate())),
                    error: None,
                },
                None => Response { id, result: None, error: Some("Session not found".to_owned()) },
            },
        }
    }
}

/// A session is found under its token right after it is created.
pub proof fn law_session_found_after_create(before: Bunker, after: Bunker, session: Session)
    requires
        after.sessions_view() == before.sessions_view().insert(session.token@, session),
    ensures
        after.sessions_view().contains_key(session.token@),
        after.sessions_view()[session.token@] == session,
{
}

} // verus!
