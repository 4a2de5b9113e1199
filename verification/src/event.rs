//! Nostr events (NIP-01): their data, their canonical serialisation and
//! their identifiers.
use crate::digest::{hex_lower, sha256_hex, sha256_of, is_lower_hex};
use crate::json::{json_literal, json_string_literal, json_tags, strings_view, tags_json, tags_view};
use crate::json_read::{lemma_read_nat, lemma_read_string, lemma_read_tags, read_nat, read_string, read_tags};
use crate::text::{concat, decimal, push_decimal};
use vstd::prelude::*;

verus! {

/// An unsigned Nostr event as a client submits it.
pub struct NostrEvent {
    pub pubkey: String,
    pub created_at: u64,
    pub kind: u16,
    pub tags: Vec<Vec<String>>,
    pub content: String,
}

/// A Nostr event with its identifier and signature.
pub struct SignedEvent {
    pub id: String,
    pub pubkey: String,
    pub created_at: u64,
    pub kind: u16,
    pub tags: Vec<Vec<String>>,
    pub content: String,
    pub sig: String,
}

/// The NIP-01 serialisation as a compact JSON array
/// `[0,<pubkey>,<created_at>,<kind>,<tags>,<content>]`, given the JSON texts
/// of the pubkey, the tags and the content.
pub open spec fn nip01_json(
    pubkey_json: Seq<char>,
    created_at: nat,
    kind: nat,
    tags_text: Seq<char>,
    content_json: Seq<char>,
) -> Seq<char> {
    "[0,"@ + pubkey_json + ","@ + decimal(created_at) + ","@ + decimal(kind) + ","@ + tags_text
        + ","@ + content_json + "]"@
}

/// The NIP-01 serialisation of an event, its strings written as JSON string
/// literals.
pub open spec fn event_json_text(event: NostrEvent) -> Seq<char> {
    nip01_json(
        json_string_literal(event.pubkey@),
        event.created_at as nat,
        event.kind as nat,
        tags_json(tags_view(event.tags@)),
        json_string_literal(event.content@),
    )
}

/// Reads the NIP-01 serialisation of an event back: its pubkey, creation
/// time, kind, tags and content.
pub open spec fn read_event_json(s: Seq<char>) -> Option<
    (Seq<char>, nat, nat, Seq<Seq<Seq<char>>>, Seq<char>),
> {
    if s.len() >= 3 && s[0] == '[' && s[1] == '0' && s[2] == ',' {
        match read_string(s.skip(3)) {
            Some((pubkey, r1)) => if r1.len() > 0 && r1[0] == ',' {
                match read_nat(r1.skip(1)) {
                    Some((created_at, r2)) => if r2.len() > 0 && r2[0] == ',' {
                        match read_nat(r2.skip(1)) {
                            Some((kind, r3)) => if r3.len() > 0 && r3[0] == ',' {
                                match read_tags(r3.skip(1)) {
                                    Some((tags, r4)) => if r4.len() > 0 && r4[0] == ',' {
                                        match read_string(r4.skip(1)) {
                                            Some((content, r5)) => if r5 == seq![']'] {
                                                Some((pubkey, created_at, kind, tags, content))
                                            } else {
                                                None
                                            },
                                            None => None,
                                        }
                                    } else {
                                        None
                                    },
                                    None => None,
                                }
                            } else {
                                None
                            },
                            None => None,
                        }
                    } else {
                        None
                    },
                    None => None,
                }
            } else {
                None
            },
            None => None,
        }
    } else {
        None
    }
}

/// The serialisation of an event reads back to the event's fields: it is a
/// JSON array of `0`, the pubkey, the creation time, the kind, the tags and
/// the content.
#[verifier::spinoff_prover]
#[verifier::rlimit(50)]
pub proof fn law_event_json_reads_back(event: NostrEvent)
    ensures
        read_event_json(event_json_text(event)) == Some(
            (
                event.pubkey@,
                event.created_at as nat,
                event.kind as nat,
                tags_view(event.tags@),
                event.content@,
            ),
        ),
{
    reveal_strlit("[0,");
    reveal_strlit(",");
    reveal_strlit("]");
    let p = json_string_literal(event.pubkey@);
    let d1 = decimal(event.created_at as nat);
    let d2 = decimal(event.kind as nat);
    let t = tags_json(tags_view(event.tags@));
    let c = json_string_literal(event.content@);
    let s = event_json_text(event);
    let r5 = seq![']'];
    let r4 = seq![','] + c + r5;
    let r3 = seq![','] + t + r4;
    let r2 = seq![','] + d2 + r3;
    let r1 = seq![','] + d1 + r2;
    assert(s =~= seq!['[', '0', ','] + p + r1);
    assert(s.skip(3) =~= p + r1);
    lemma_read_string(event.pubkey@, r1);
    assert(r1.skip(1) =~= d1 + r2);
    lemma_read_nat(event.created_at as nat, r2);
    assert(r2.skip(1) =~= d2 + r3);
    lemma_read_nat(event.kind as nat, r3);
    assert(r3.skip(1) =~= t + r4);
    lemma_read_tags(tags_view(event.tags@), r4);
    assert(r4.skip(1) =~= c + r5);
    lemma_read_string(event.content@, r5);
}

/// Writes `[0,<pubkey_json>,<created_at>,<kind>,<tags_text>,<content_json>]`.
pub fn nip01_serialize(
    pubkey_json: &str,
    created_at: u64,
    kind: u16,
    tags_text: &str,
    content_json: &str,
) -> (res: String)
    ensures
        res@ == nip01_json(pubkey_json@, created_at as nat, kind as nat, tags_text@, content_json@),
{
    let mut out = "[0,".to_owned();
    out.append(pubkey_json);
    out.append(",");
    push_decimal(&mut out, created_at);
    out.append(",");
    push_decimal(&mut out, kind as u64);
    out.append(",");
    out.append(tags_text);
    out.append(",");
    out.append(content_json);
    out.append("]");
    out
}

/// Serialises an event for hashing (NIP-01): the JSON array
/// `[0,pubkey,created_at,kind,tags,content]`.
pub fn serialize_event(event: &NostrEvent) -> (res: String)
    ensures
        res@ == event_json_text(*event),
{
    let pubkey = json_literal(event.pubkey.as_str());
    let tags = json_tags(&event.tags).unwrap();
    let content = json_literal(event.content.as_str());
    nip01_serialize(pubkey.as_str(), event.created_at, event.kind, tags.as_str(), content.as_str())
}

/// The first parameter of a signing request as the handler received it.
pub enum EventParam {
    /// No parameter was given.
    Missing,
    /// The parameter is not an event; the text says why.
    Invalid(String),
    /// The event to sign.
    Event(NostrEvent),
}

/// The event of a signing request, or the error answered for it:
/// `Missing event parameter`, or `Invalid event: ` and the reason.
pub fn require_event(param: EventParam) -> (res: Result<NostrEvent, String>)
    ensures
        match param {
            EventParam::Missing => res matches Err(e) && e@ == "Missing event parameter"@,
            EventParam::Invalid(why) => res matches Err(e) && e@ == "Invalid event: "@ + why@,
            EventParam::Event(event) => res == Ok::<NostrEvent, String>(event),
        },
{
    match param {
        EventParam::Missing => Err("Missing event parameter".to_owned()),
        EventParam::Invalid(why) => Err(concat("Invalid event: ", why.as_str())),
        EventParam::Event(event) => Ok(event),
    }
}

/// The identifier of an event whose serialisation is `text`: the lowercase
/// hex SHA-256 of its UTF-8 bytes.
pub open spec fn id_of_text(text: Seq<char>) -> Seq<char> {
    hex_lower(sha256_of(vstd::utf8::encode_utf8(text)))
}

/// The lowercase hex SHA-256 of the UTF-8 bytes of `text`.
pub fn text_digest(text: &str) -> (res: String)
    ensures
        res@ == id_of_text(text@),
        res@.len() == 64,
        is_lower_hex(res@),
{
    sha256_hex(text.as_bytes())
}

/// A copy of a list of tags.
pub fn copy_tags(tags: &Vec<Vec<String>>) -> (res: Vec<Vec<String>>)
    ensures
        tags_view(res@) == tags_view(tags@),
{
    let mut res: Vec<Vec<String>> = Vec::new();
    let mut i: usize = 0;
    while i < tags.len()
        invariant
            i <= tags.len(),
            res@.len() == i,
            forall|j: int| 0 <= j < i ==> strings_view(res@[j]@) == #[trigger] strings_view(tags@[j]@),
        decreases tags.len() - i,
    {
        let tag = &tags[i];
        let mut copy: Vec<String> = Vec::new();
        let mut k: usize = 0;
        while k < tag.len()
            invariant
                k <= tag.len(),
                copy@.len() == k,
                forall|j: int| 0 <= j < k ==> (#[trigger] copy@[j])@ == tag@[j]@,
            decreases tag.len() - k,
        {
            copy.push(tag[k].clone());
            k = k + 1;
        }
        proof {
            assert(strings_view(copy@) =~= strings_view(tag@));
        }
        res.push(copy);
        i = i + 1;
    }
    proof {
        assert(tags_view(res@) =~= tags_view(tags@));
    }
    res
}

} // verus!
