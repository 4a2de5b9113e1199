//! Reading JSON text back: string literals, arrays and natural numbers, as
//! RFC 8259 writes them. Used to show that what this crate writes reads back
//! to what was written.
use crate::digest::hex_digit;
use crate::json::{
    json_array, json_escape, json_escape_char, json_string_literal, join_commas,
    string_array_json, tags_json,
};
use crate::text::{decimal, digit_char};
use vstd::prelude::*;

verus! {

/// The value of a hexadecimal digit, in either case.
pub open spec fn hex_value(c: char) -> Option<u32> {
    if '0' <= c && c <= '9' {
        Some((c as u32 - 48) as u32)
    } else if 'a' <= c && c <= 'f' {
        Some((c as u32 - 87) as u32)
    } else if 'A' <= c && c <= 'F' {
        Some((c as u32 - 55) as u32)
    } else {
        None
    }
}

/// The character that a two-character escape `\e` stands for.
pub open spec fn simple_unescape(e: char) -> Option<char> {
    if e == '"' {
        Some('"')
    } else if e == '\\' {
        Some('\\')
    } else if e == '/' {
        Some('/')
    } else if e == 'b' {
        Some('\u{8}')
    } else if e == 't' {
        Some('\t')
    } else if e == 'n' {
        Some('\n')
    } else if e == 'f' {
        Some('\u{c}')
    } else if e == 'r' {
        Some('\r')
    } else {
        None
    }
}

/// The value of four hexadecimal digits starting at `s[i]`.
pub open spec fn hex4_value(s: Seq<char>, i: int) -> Option<u32> {
    if 0 <= i && i + 4 <= s.len() && hex_value(s[i]) is Some && hex_value(s[i + 1]) is Some
        && hex_value(s[i + 2]) is Some && hex_value(s[i + 3]) is Some {
        Some(
            (hex_value(s[i])->0 * 4096 + hex_value(s[i + 1])->0 * 256 + hex_value(s[i + 2])->0 * 16
                + hex_value(s[i + 3])->0) as u32,
        )
    } else {
        None
    }
}

/// Each lowercase hex digit reads back to its value.
pub proof fn lemma_hex_digit_value(n: u8)
    requires
        n < 16,
    ensures
        hex_value(hex_digit(n)) == Some(n as u32),
{
}

/// Reads the rest of a string literal after its opening quote: the text up
/// to the closing quote, and what follows that quote.
pub open spec fn read_string_body(s: Seq<char>) -> Option<(Seq<char>, Seq<char>)>
    decreases s.len(),
{
    if s.len() == 0 {
        None
    } else if s[0] == '"' {
        Some((Seq::empty(), s.skip(1)))
    } else if s[0] == '\\' {
        if s.len() >= 2 && simple_unescape(s[1]) is Some {
            match read_string_body(s.skip(2)) {
                Some((t, rest)) => Some((seq![simple_unescape(s[1])->0] + t, rest)),
                None => None,
            }
        } else if s.len() >= 6 && s[1] == 'u' && hex4_value(s, 2) is Some && (hex4_value(s, 2)->0
            < 0xD800 || 0xE000 <= hex4_value(s, 2)->0) {
            match read_string_body(s.skip(6)) {
                Some((t, rest)) => Some((seq![(hex4_value(s, 2)->0) as char] + t, rest)),
                None => None,
            }
        } else {
            None
        }
    } else if (s[0] as u32) < 0x20 {
        None
    } else {
        match read_string_body(s.skip(1)) {
            Some((t, rest)) => Some((seq![s[0]] + t, rest)),
            None => None,
        }
    }
}

/// Reads a string literal at the start of `s`: its text and what follows.
pub open spec fn read_string(s: Seq<char>) -> Option<(Seq<char>, Seq<char>)> {
    if s.len() > 0 && s[0] == '"' {
        read_string_body(s.skip(1))
    } else {
        None
    }
}

#[verifier::spinoff_prover]
#[verifier::rlimit(50)]
proof fn lemma_read_string_body(t: Seq<char>, rest: Seq<char>)
    ensures
        read_string_body(json_escape(t) + seq!['"'] + rest) == Some((t, rest)),
    decreases t.len(),
{
    let s = json_escape(t) + seq!['"'] + rest;
    if t.len() == 0 {
        assert(s =~= seq!['"'] + rest);
        assert(s.skip(1) =~= rest);
    } else {
        let c = t[0];
        let e = json_escape_char(c);
        let tail = json_escape(t.drop_first()) + seq!['"'] + rest;
        lemma_read_string_body(t.drop_first(), rest);
        assert(s =~= e + tail);
        assert(s.skip(e.len() as int) =~= tail);
        if (c as u32) < 0x20 && c != '\u{8}' && c != '\t' && c != '\n' && c != '\u{c}' && c
            != '\r' {
            let x: u32 = c as u32;
            let hi: u8 = (x >> 4u32) as u8;
            let lo: u8 = (x & 15u32) as u8;
            assert(hi < 2 && lo < 16 && hi as u32 * 16 + lo as u32 == x) by (bit_vector)
                requires
                    x < 0x20,
                    hi == (x >> 4u32) as u8,
                    lo == (x & 15u32) as u8,
            ;
            lemma_hex_digit_value(0);
            lemma_hex_digit_value(hi);
            lemma_hex_digit_value(lo);
            assert(s[2] == '0' && s[3] == '0');
            assert(hex4_value(s, 2) == Some(x));
            vstd::utf8::char_u32_cast(c, x);
        }
        assert(seq![c] + t.drop_first() =~= t);
    }
}

/// A string literal that this crate writes, followed by anything, reads back
/// to its text and leaves what follows.
pub proof fn lemma_read_string(t: Seq<char>, rest: Seq<char>)
    ensures
        read_string(json_string_literal(t) + rest) == Some((t, rest)),
        json_string_literal(t).len() > 0,
        json_string_literal(t)[0] == '"',
{
    let s = json_string_literal(t) + rest;
    assert(s.skip(1) =~= json_escape(t) + seq!['"'] + rest);
    lemma_read_string_body(t, rest);
}


/// Reads the items of an array after its first one: each `,` and an item
/// read by `item`, up to the closing `]`.
pub open spec fn read_items_tail<T>(
    item: spec_fn(Seq<char>) -> Option<(T, Seq<char>)>,
    s: Seq<char>,
) -> Option<(Seq<T>, Seq<char>)>
    decreases s.len(),
{
    if s.len() > 0 && s[0] == ']' {
        Some((Seq::empty(), s.skip(1)))
    } else if s.len() > 0 && s[0] == ',' {
        match item(s.skip(1)) {
            Some((v, rest)) => if rest.len() < s.len() {
                match read_items_tail(item, rest) {
                    Some((vs, r)) => Some((seq![v] + vs, r)),
                    None => None,
                }
            } else {
                None
            },
            None => None,
        }
    } else {
        None
    }
}

/// Reads an array at the start of `s` whose items `item` reads: the items and
/// what follows the closing `]`.
pub open spec fn read_array<T>(item: spec_fn(Seq<char>) -> Option<(T, Seq<char>)>, s: Seq<char>) -> Option<
    (Seq<T>, Seq<char>),
> {
    if s.len() >= 2 && s[0] == '[' && s[1] == ']' {
        Some((Seq::empty(), s.skip(2)))
    } else if s.len() > 0 && s[0] == '[' {
        match item(s.skip(1)) {
            Some((v, rest)) => match read_items_tail(item, rest) {
                Some((vs, r)) => Some((seq![v] + vs, r)),
                None => None,
            },
            None => None,
        }
    } else {
        None
    }
}

/// Each part behind a comma.
pub open spec fn comma_items(parts: Seq<Seq<char>>) -> Seq<char>
    decreases parts.len(),
{
    if parts.len() == 0 {
        Seq::empty()
    } else {
        seq![','] + parts[0] + comma_items(parts.drop_first())
    }
}

proof fn lemma_comma_items_push(parts: Seq<Seq<char>>, x: Seq<char>)
    ensures
        comma_items(parts.push(x)) == comma_items(parts) + seq![','] + x,
    decreases parts.len(),
{
    if parts.len() == 0 {
        assert(parts.push(x).drop_first() =~= Seq::<Seq<char>>::empty());
        assert(comma_items(Seq::<Seq<char>>::empty()) == Seq::<char>::empty());
        assert(parts.push(x)[0] == x);
        assert(comma_items(parts.push(x)) =~= seq![','] + x);
        assert(comma_items(parts) + seq![','] + x =~= seq![','] + x);
    } else {
        lemma_comma_items_push(parts.drop_first(), x);
        assert(parts.push(x).drop_first() =~= parts.drop_first().push(x));
        assert(comma_items(parts.push(x)) =~= comma_items(parts) + seq![','] + x);
    }
}

proof fn lemma_join_front(parts: Seq<Seq<char>>)
    requires
        parts.len() > 0,
    ensures
        join_commas(parts) == parts[0] + comma_items(parts.drop_first()),
    decreases parts.len(),
{
    if parts.len() == 1 {
        assert(parts.drop_first() =~= Seq::<Seq<char>>::empty());
        assert(parts[0] + Seq::<char>::empty() =~= parts[0]);
    } else {
        let dl = parts.drop_last();
        lemma_join_front(dl);
        assert(parts.drop_first() =~= dl.drop_first().push(parts.last()));
        lemma_comma_items_push(dl.drop_first(), parts.last());
        assert(join_commas(parts) =~= parts[0] + comma_items(parts.drop_first()));
    }
}

proof fn lemma_read_tail<T>(
    item: spec_fn(Seq<char>) -> Option<(T, Seq<char>)>,
    write: spec_fn(T) -> Seq<char>,
    values: Seq<T>,
    rest: Seq<char>,
)
    requires
        forall|v: T, r: Seq<char>| #[trigger] item(write(v) + r) == Some((v, r)),
        forall|v: T| #[trigger] write(v).len() > 0,
    ensures
        read_items_tail(item, comma_items(values.map_values(write)) + seq![']'] + rest) == Some(
            (values, rest),
        ),
    decreases values.len(),
{
    let parts = values.map_values(write);
    let s = comma_items(parts) + seq![']'] + rest;
    if values.len() == 0 {
        assert(s =~= seq![']'] + rest);
        assert(s.skip(1) =~= rest);
        assert(values =~= Seq::<T>::empty());
    } else {
        let v = values[0];
        let tail_text = comma_items(values.drop_first().map_values(write)) + seq![']'] + rest;
        assert(parts.drop_first() =~= values.drop_first().map_values(write));
        assert(s =~= seq![','] + write(v) + tail_text);
        assert(s.skip(1) =~= write(v) + tail_text);
        assert(item(write(v) + tail_text) == Some((v, tail_text)));
        lemma_read_tail(item, write, values.drop_first(), rest);
        assert(seq![v] + values.drop_first() =~= values);
    }
}

/// An array whose items `write` writes and `item` reads back, followed by
/// anything, reads back to its items and leaves what follows.
pub proof fn lemma_read_array<T>(
    item: spec_fn(Seq<char>) -> Option<(T, Seq<char>)>,
    write: spec_fn(T) -> Seq<char>,
    values: Seq<T>,
    rest: Seq<char>,
)
    requires
        forall|v: T, r: Seq<char>| #[trigger] item(write(v) + r) == Some((v, r)),
        forall|v: T| #[trigger] write(v).len() > 0 && write(v)[0] != ']',
    ensures
        read_array(item, json_array(values.map_values(write)) + rest) == Some((values, rest)),
{
    let parts = values.map_values(write);
    let s = json_array(parts) + rest;
    if values.len() == 0 {
        assert(join_commas(parts) =~= Seq::<char>::empty());
        assert(s =~= seq!['[', ']'] + rest);
        assert(s.skip(2) =~= rest);
        assert(values =~= Seq::<T>::empty());
    } else {
        let v = values[0];
        lemma_join_front(parts);
        let tail_text = comma_items(values.drop_first().map_values(write)) + seq![']'] + rest;
        assert(parts.drop_first() =~= values.drop_first().map_values(write));
        assert(s =~= seq!['['] + write(v) + tail_text);
        assert(s[1] == write(v)[0]);
        assert(s.skip(1) =~= write(v) + tail_text);
        assert(item(write(v) + tail_text) == Some((v, tail_text)));
        lemma_read_tail(item, write, values.drop_first(), rest);
        assert(seq![v] + values.drop_first() =~= values);
    }
}

/// Reads an array of string literals.
pub open spec fn read_string_array(s: Seq<char>) -> Option<(Seq<Seq<char>>, Seq<char>)> {
    read_array(|x: Seq<char>| read_string(x), s)
}

/// Reads an array of arrays of string literals, as in the tags of an event.
pub open spec fn read_tags(s: Seq<char>) -> Option<(Seq<Seq<Seq<char>>>, Seq<char>)> {
    read_array(|x: Seq<char>| read_string_array(x), s)
}

/// A JSON array of strings written by this crate, followed by anything,
/// reads back to its strings.
pub proof fn lemma_read_string_array(items: Seq<Seq<char>>, rest: Seq<char>)
    ensures
        read_string_array(string_array_json(items) + rest) == Some((items, rest)),
        string_array_json(items).len() > 0,
        string_array_json(items)[0] == '[',
{
    let item = |x: Seq<char>| read_string(x);
    let write = |t: Seq<char>| json_string_literal(t);
    assert forall|v: Seq<char>, r: Seq<char>| #[trigger] item(write(v) + r) == Some((v, r)) by {
        lemma_read_string(v, r);
    }
    assert forall|v: Seq<char>| #[trigger] write(v).len() > 0 && write(v)[0] != ']' by {
        lemma_read_string(v, Seq::empty());
    }
    lemma_read_array(item, write, items, rest);
    assert(items.map_values(write) =~= items.map_values(|s: Seq<char>| json_string_literal(s)));
}

/// The tags of an event as this crate writes them, followed by anything,
/// read back to the tags.
pub proof fn lemma_read_tags(tags: Seq<Seq<Seq<char>>>, rest: Seq<char>)
    ensures
        read_tags(tags_json(tags) + rest) == Some((tags, rest)),
        tags_json(tags).len() > 0,
        tags_json(tags)[0] == '[',
{
    let item = |x: Seq<char>| read_string_array(x);
    let write = |t: Seq<Seq<char>>| string_array_json(t);
    assert forall|v: Seq<Seq<char>>, r: Seq<char>| #[trigger] item(write(v) + r) == Some((v, r)) by {
        lemma_read_string_array(v, r);
    }
    assert forall|v: Seq<Seq<char>>| #[trigger] write(v).len() > 0 && write(v)[0] != ']' by {
        lemma_read_string_array(v, Seq::empty());
    }
    lemma_read_array(item, write, tags, rest);
    assert(tags.map_values(write) =~= tags.map_values(|t: Seq<Seq<char>>| string_array_json(t)));
}

/// Whether `c` is a decimal digit.
pub open spec fn is_digit(c: char) -> bool {
    '0' <= c && c <= '9'
}

/// The number of decimal digits at the start of `s`.
pub open spec fn digit_run(s: Seq<char>) -> nat
    decreases s.len(),
{
    if s.len() > 0 && is_digit(s[0]) {
        1 + digit_run(s.skip(1))
    } else {
        0
    }
}

/// The value of a sequence of decimal digits.
pub open spec fn digits_value(d: Seq<char>) -> nat
    decreases d.len(),
{
    if d.len() == 0 {
        0
    } else {
        digits_value(d.drop_last()) * 10 + ((d.last() as u32) - 48) as nat
    }
}

/// Reads a natural number at the start of `s`: its value and what follows
/// its digits.
pub open spec fn read_nat(s: Seq<char>) -> Option<(nat, Seq<char>)> {
    if digit_run(s) == 0 {
        None
    } else {
        Some((digits_value(s.take(digit_run(s) as int)), s.skip(digit_run(s) as int)))
    }
}

/// The decimal rendering of a number is a non-empty run of digits whose
/// value is the number.
pub proof fn lemma_decimal_digits(n: nat)
    ensures
        decimal(n).len() > 0,
        forall|i: int| 0 <= i < decimal(n).len() ==> is_digit(#[trigger] decimal(n)[i]),
        digits_value(decimal(n)) == n,
    decreases n,
{
    let k: nat = n % 10;
    assert((digit_char(k) as u32) == k + 48);
    if n < 10 {
        assert(decimal(n).drop_last() =~= Seq::<char>::empty());
        assert(decimal(n).last() == digit_char(k));
        assert(digits_value(decimal(n)) == digits_value(Seq::<char>::empty()) * 10 + k);
    } else {
        lemma_decimal_digits(n / 10);
        let d = decimal(n);
        assert(d.drop_last() =~= decimal(n / 10));
        assert(d.last() == digit_char(k));
        assert(digits_value(d) == digits_value(decimal(n / 10)) * 10 + k);
        assert((n / 10) * 10 + k == n);
        assert forall|i: int| 0 <= i < d.len() implies is_digit(#[trigger] d[i]) by {
            if i < d.len() - 1 {
                assert(d[i] == decimal(n / 10)[i]);
            }
        }
    }
}

proof fn lemma_digit_run(d: Seq<char>, rest: Seq<char>)
    requires
        forall|i: int| 0 <= i < d.len() ==> is_digit(#[trigger] d[i]),
        rest.len() == 0 || !is_digit(rest[0]),
    ensures
        digit_run(d + rest) == d.len(),
    decreases d.len(),
{
    if d.len() == 0 {
        assert(d + rest =~= rest);
    } else {
        assert((d + rest).skip(1) =~= d.skip(1) + rest);
        assert forall|i: int| 0 <= i < d.skip(1).len() implies is_digit(#[trigger] d.skip(1)[i]) by {
            assert(d.skip(1)[i] == d[i + 1]);
        }
        lemma_digit_run(d.skip(1), rest);
    }
}

/// The decimal rendering of a number, followed by a non-digit or nothing,
/// reads back to the number.
pub proof fn lemma_read_nat(n: nat, rest: Seq<char>)
    requires
        rest.len() == 0 || !is_digit(rest[0]),
    ensures
        read_nat(decimal(n) + rest) == Some((n, rest)),
{
    lemma_decimal_digits(n);
    lemma_digit_run(decimal(n), rest);
    let s = decimal(n) + rest;
    assert(s.take(decimal(n).len() as int) =~= decimal(n));
    assert(s.skip(decimal(n).len() as int) =~= rest);
}

/// What follows the text `p` at the start of `s`; `None` when `s` does not
/// start with `p`.
pub open spec fn after_text(s: Seq<char>, p: Seq<char>) -> Option<Seq<char>> {
    if p.len() <= s.len() && s.subrange(0, p.len() as int) == p {
        Some(s.skip(p.len() as int))
    } else {
        None
    }
}

/// Text that starts with `p` is read past `p`.
pub proof fn lemma_after_text(p: Seq<char>, x: Seq<char>)
    ensures
        after_text(p + x, p) == Some(x),
{
    assert((p + x).subrange(0, p.len() as int) =~= p);
    assert((p + x).skip(p.len() as int) =~= x);
}

/// Reads lowercase or uppercase hex text back into bytes, two digits per
/// byte, high nibble first; `None` for text that is not of that form.
pub open spec fn hex_decode(s: Seq<char>) -> Option<Seq<u8>>
    decreases s.len(),
{
    if s.len() == 0 {
        Some(Seq::empty())
    } else if s.len() < 2 || hex_value(s[s.len() - 2]) is None || hex_value(s.last()) is None {
        None
    } else {
        match hex_decode(s.subrange(0, s.len() - 2)) {
            Some(front) => Some(
                front.push((hex_value(s[s.len() - 2])->0 * 16 + hex_value(s.last())->0) as u8),
            ),
            None => None,
        }
    }
}

/// The hex rendering of bytes reads back to the bytes.
pub proof fn law_hex_reads_back(data: Seq<u8>)
    ensures
        hex_decode(crate::digest::hex_lower(data)) == Some(data),
    decreases data.len(),
{
    if data.len() > 0 {
        let b = data.last();
        let hi: u8 = b >> 4;
        let lo: u8 = b & 0x0f;
        assert(hi < 16 && lo < 16 && hi as u32 * 16 + lo as u32 == b as u32) by (bit_vector)
            requires
                hi == b >> 4,
                lo == b & 0x0f,
        ;
        lemma_hex_digit_value(hi);
        lemma_hex_digit_value(lo);
        law_hex_reads_back(data.drop_last());
        crate::digest::lemma_hex_lower(data.drop_last());
        let h = crate::digest::hex_lower(data);
        assert(h.subrange(0, h.len() - 2) =~= crate::digest::hex_lower(data.drop_last()));
        assert(data.drop_last().push(b) =~= data);
    }
}

/// The number of decimal digits at the end of `s`.
pub open spec fn trailing_digit_run(s: Seq<char>) -> nat
    decreases s.len(),
{
    if s.len() > 0 && is_digit(s.last()) {
        1 + trailing_digit_run(s.drop_last())
    } else {
        0
    }
}

/// Reads a natural number at the end of `s`: what comes before its digits,
/// and its value.
pub open spec fn read_trailing_nat(s: Seq<char>) -> Option<(Seq<char>, nat)> {
    let k = trailing_digit_run(s);
    if k == 0 {
        None
    } else {
        Some((s.subrange(0, s.len() - k), digits_value(s.subrange(s.len() - k, s.len() as int))))
    }
}

proof fn lemma_trailing_digit_run(x: Seq<char>, d: Seq<char>)
    requires
        forall|i: int| 0 <= i < d.len() ==> is_digit(#[trigger] d[i]),
        x.len() == 0 || !is_digit(x.last()),
    ensures
        trailing_digit_run(x + d) == d.len(),
    decreases d.len(),
{
    if d.len() == 0 {
        assert(x + d =~= x);
    } else {
        assert((x + d).drop_last() =~= x + d.drop_last());
        assert forall|i: int| 0 <= i < d.drop_last().len() implies is_digit(
            #[trigger] d.drop_last()[i],
        ) by {
            assert(d.drop_last()[i] == d[i]);
        }
        assert((x + d).last() == d.last());
        lemma_trailing_digit_run(x, d.drop_last());
    }
}

/// A number written in decimal at the end of a text that does not end in a
/// digit reads back, with the text before it.
pub proof fn lemma_read_trailing_nat(x: Seq<char>, n: nat)
    requires
        x.len() == 0 || !is_digit(x.last()),
    ensures
        read_trailing_nat(x + decimal(n)) == Some((x, n)),
{
    lemma_decimal_digits(n);
    lemma_trailing_digit_run(x, decimal(n));
    let s = x + decimal(n);
    assert(s.subrange(0, s.len() - decimal(n).len()) =~= x);
    assert(s.subrange(s.len() - decimal(n).len(), s.len() as int) =~= decimal(n));
}

} // verus!
