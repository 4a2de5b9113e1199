//! JSON text for strings and for the tag lists of Nostr events.
use crate::digest::hex_digit;
use crate::text::push_char;
use vstd::prelude::*;

verus! {

#[verifier::external_type_specification]
#[verifier::external_body]
pub struct ExJsonError(serde_json::Error);

/// How `serde_json` writes one character inside a string literal: `"` and
/// `\` behind a backslash; backspace, tab, line feed, form feed and carriage
/// return as `\b`, `\t`, `\n`, `\f`, `\r`; the other characters below
/// U+0020 as `\u00` and two lowercase hex digits; every other character as
/// it is.
pub open spec fn json_escape_char(c: char) -> Seq<char> {
    if c == '"' {
        seq!['\\', '"']
    } else if c == '\\' {
        seq!['\\', '\\']
    } else if c == '\u{8}' {
        seq!['\\', 'b']
    } else if c == '\t' {
        seq!['\\', 't']
    } else if c == '\n' {
        seq!['\\', 'n']
    } else if c == '\u{c}' {
        seq!['\\', 'f']
    } else if c == '\r' {
        seq!['\\', 'r']
    } else if (c as u32) < 0x20 {
        seq![
            '\\',
            'u',
            '0',
            '0',
            hex_digit(((c as u32) >> 4u32) as u8),
            hex_digit(((c as u32) & 15u32) as u8),
        ]
    } else {
        seq![c]
    }
}

/// The characters of `text`, each escaped as `json_escape_char` says.
pub open spec fn json_escape(text: Seq<char>) -> Seq<char>
    decreases text.len(),
{
    if text.len() == 0 {
        Seq::empty()
    } else {
        json_escape_char(text[0]) + json_escape(text.drop_first())
    }
}

/// The JSON string literal that `serde_json` writes for a text: the escaped
/// text between double quotes.
pub open spec fn json_string_literal(text: Seq<char>) -> Seq<char> {
    seq!['"'] + json_escape(text) + seq!['"']
}

/// Whether `c` stands as itself inside a JSON string literal that
/// `serde_json` writes: at or above U+0020, and neither `"` nor `\`.
pub open spec fn is_plain_json_char(c: char) -> bool {
    (c as u32) >= 0x20 && c != '"' && c != '\\'
}

/// Strings are written in canonical form: a character at or above U+0020
/// other than `"` and `\` is written as itself; `"` and `\` are written
/// behind a backslash; a character below U+0020 is written as a backslash
/// escape of two or six characters.
pub proof fn law_json_escape_canonical(c: char)
    ensures
        is_plain_json_char(c) ==> json_escape_char(c) == seq![c],
        c == '"' ==> json_escape_char(c) == seq!['\\', '"'],
        c == '\\' ==> json_escape_char(c) == seq!['\\', '\\'],
        (c as u32) < 0x20 ==> json_escape_char(c)[0] == '\\' && (json_escape_char(c).len() == 2
            || json_escape_char(c).len() == 6),
{
}

proof fn lemma_plain_escape(text: Seq<char>)
    requires
        forall|i: int| 0 <= i < text.len() ==> is_plain_json_char(#[trigger] text[i]),
    ensures
        json_escape(text) == text,
    decreases text.len(),
{
    if text.len() > 0 {
        let rest = text.drop_first();
        assert forall|i: int| 0 <= i < rest.len() implies is_plain_json_char(#[trigger] rest[i]) by {
            assert(rest[i] == text[i + 1]);
        }
        lemma_plain_escape(rest);
        assert(is_plain_json_char(text[0]));
        assert(json_escape(text) =~= text);
    }
}

/// A text made only of characters that stand as themselves is written as
/// that text between double quotes.
pub proof fn law_plain_text_literal(text: Seq<char>)
    requires
        forall|i: int| 0 <= i < text.len() ==> is_plain_json_char(#[trigger] text[i]),
    ensures
        json_string_literal(text) == seq!['"'] + text + seq!['"'],
{
    lemma_plain_escape(text);
}

/// Calls `serde_json::to_string` on a `str`. Trusted, as the crate's source
/// shows: the text is `json_string_literal(text)` (`format_escaped_str` with
/// the `ESCAPE` table and `write_char_escape`, whose `\u00XX` digits come
/// from `"0123456789abcdef"`), and the call succeeds: `to_string` writes
/// through `to_vec` into a `Vec<u8>`, and `serialize_str` fails only when
/// that writer fails, which a `Vec<u8>` never does.
#[verifier::external_body]
pub(crate) fn json_quote(text: &str) -> (res: Result<String, serde_json::Error>)
    ensures
        res is Ok,
        res matches Ok(s) ==> s@ == json_string_literal(text@),
{
    serde_json::to_string(text)
}

/// The JSON string literal of `text`.
pub fn json_literal(text: &str) -> (res: String)
    ensures
        res@ == json_string_literal(text@),
{
    json_quote(text).unwrap()
}

/// The parts joined by single commas.
pub open spec fn join_commas(parts: Seq<Seq<char>>) -> Seq<char>
    decreases parts.len(),
{
    if parts.len() == 0 {
        Seq::empty()
    } else if parts.len() == 1 {
        parts[0]
    } else {
        join_commas(parts.drop_last()) + seq![','] + parts.last()
    }
}

/// A compact JSON array whose elements have the texts `parts`.
pub open spec fn json_array(parts: Seq<Seq<char>>) -> Seq<char> {
    seq!['['] + join_commas(parts) + seq![']']
}

/// The views of a list of strings.
pub open spec fn strings_view(items: Seq<String>) -> Seq<Seq<char>> {
    items.map_values(|s: String| s@)
}

/// The views of a list of string lists, as in the tags of an event.
pub open spec fn tags_view(tags: Seq<Vec<String>>) -> Seq<Seq<Seq<char>>> {
    tags.map_values(|t: Vec<String>| strings_view(t@))
}

/// The compact JSON array of strings.
pub open spec fn string_array_json(items: Seq<Seq<char>>) -> Seq<char> {
    json_array(items.map_values(|s: Seq<char>| json_string_literal(s)))
}

/// The compact JSON array of arrays of strings.
pub open spec fn tags_json(tags: Seq<Seq<Seq<char>>>) -> Seq<char> {
    json_array(tags.map_values(|t: Seq<Seq<char>>| string_array_json(t)))
}

proof fn lemma_join_step(parts: Seq<Seq<char>>, i: int)
    requires
        0 <= i < parts.len(),
    ensures
        join_commas(parts.take(i + 1)) == if i == 0 {
            parts[0]
        } else {
            join_commas(parts.take(i)) + seq![','] + parts[i]
        },
{
    assert(parts.take(i + 1).drop_last() =~= parts.take(i));
}

/// Writes `items` as a compact JSON array of strings.
pub fn json_string_array(items: &Vec<String>) -> (res: Option<String>)
    ensures
        res matches Some(s) && s@ == string_array_json(strings_view(items@)),
{
    let ghost parts = strings_view(items@).map_values(|s: Seq<char>| json_string_literal(s));
    let mut out = String::new();
    push_char(&mut out, '[');
    let mut i: usize = 0;
    while i < items.len()
        invariant
            i <= items.len(),
            parts == strings_view(items@).map_values(|s: Seq<char>| json_string_literal(s)),
            parts.len() == items.len(),
            out@ == seq!['['] + join_commas(parts.take(i as int)),
        decreases items.len() - i,
    {
        let quoted = match json_quote(items[i].as_str()) {
            Ok(q) => q,
            Err(_) => return None,
        };
        proof {
            lemma_join_step(parts, i as int);
            assert(quoted@ == parts[i as int]);
        }
        if i > 0 {
            push_char(&mut out, ',');
        }
        out.append(quoted.as_str());
        proof {
            assert(out@ =~= seq!['['] + join_commas(parts.take(i + 1)));
        }
        i = i + 1;
    }
    push_char(&mut out, ']');
    proof {
        assert(parts.take(items.len() as int) =~= parts);
    }
    Some(out)
}

/// Writes tag lists as a compact JSON array of arrays of strings.
pub fn json_tags(tags: &Vec<Vec<String>>) -> (res: Option<String>)
    ensures
        res matches Some(s) && s@ == tags_json(tags_view(tags@)),
{
    let ghost parts = tags_view(tags@).map_values(|t: Seq<Seq<char>>| string_array_json(t));
    let mut out = String::new();
    push_char(&mut out, '[');
    let mut i: usize = 0;
    while i < tags.len()
        invariant
            i <= tags.len(),
            parts == tags_view(tags@).map_values(|t: Seq<Seq<char>>| string_array_json(t)),
            parts.len() == tags.len(),
            out@ == seq!['['] + join_commas(parts.take(i as int)),
        decreases tags.len() - i,
    {
        let inner = match json_string_array(&tags[i]) {
            Some(t) => t,
            None => return None,
        };
        proof {
            lemma_join_step(parts, i as int);
            assert(inner@ == parts[i as int]);
        }
        if i > 0 {
            push_char(&mut out, ',');
        }
        out.append(inner.as_str());
        proof {
            assert(out@ =~= seq!['['] + join_commas(parts.take(i + 1)));
        }
        i = i + 1;
    }
    push_char(&mut out, ']');
    proof {
        assert(parts.take(tags.len() as int) =~= parts);
    }
    Some(out)
}

} // verus!
