//! Standard Base64 (RFC 4648, section 4) with `=` padding.
use crate::text::push_char;
use vstd::prelude::*;
use vstd::utf8::{encode_scalar, encode_utf8};

verus! {

/// The character of the standard alphabet for a 6-bit value `v < 64`.
pub open spec fn b64_symbol(v: u8) -> char {
    if v < 26 {
        ((v + 65) as u8) as char
    } else if v < 52 {
        ((v + 71) as u8) as char
    } else if v < 62 {
        ((v - 4) as u8) as char
    } else if v == 62 {
        '+'
    } else {
        '/'
    }
}

/// Splits three bytes into four 6-bit values, most significant bits first.
pub open spec fn sextets(b0: u8, b1: u8, b2: u8) -> (u8, u8, u8, u8) {
    (b0 >> 2, ((b0 & 3) << 4) | (b1 >> 4), ((b1 & 15) << 2) | (b2 >> 6), b2 & 63)
}

/// The four output characters for the group of bytes that starts `bytes`
/// (`bytes` non-empty); a group of one or two bytes is padded with `=`.
pub open spec fn b64_group(bytes: Seq<u8>) -> Seq<char> {
    let b0: u8 = bytes[0];
    let b1: u8 = if bytes.len() > 1 { bytes[1] } else { 0 };
    let b2: u8 = if bytes.len() > 2 { bytes[2] } else { 0 };
    let (s0, s1, s2, s3) = sextets(b0, b1, b2);
    seq![
        b64_symbol(s0),
        b64_symbol(s1),
        if bytes.len() > 1 { b64_symbol(s2) } else { '=' },
        if bytes.len() > 2 { b64_symbol(s3) } else { '=' },
    ]
}

/// The Base64 encoding of a byte sequence.
pub open spec fn base64_of(bytes: Seq<u8>) -> Seq<char>
    decreases bytes.len(),
{
    if bytes.len() == 0 {
        Seq::empty()
    } else if bytes.len() <= 3 {
        b64_group(bytes)
    } else {
        b64_group(bytes) + base64_of(bytes.skip(3))
    }
}


/// Whether `c` belongs to the standard Base64 alphabet.
pub open spec fn is_b64_symbol(c: char) -> bool {
    ('A' <= c && c <= 'Z') || ('a' <= c && c <= 'z') || ('0' <= c && c <= '9') || c == '+'
        || c == '/'
}

proof fn lemma_symbol(v: u8, w: u8)
    requires
        v < 64,
        w < 64,
    ensures
        is_b64_symbol(b64_symbol(v)),
        b64_symbol(v) != '=',
        b64_symbol(v) == b64_symbol(w) ==> v == w,
{
}

proof fn lemma_sextets_bounded(b0: u8, b1: u8, b2: u8)
    ensures
        sextets(b0, b1, b2).0 < 64,
        sextets(b0, b1, b2).1 < 64,
        sextets(b0, b1, b2).2 < 64,
        sextets(b0, b1, b2).3 < 64,
{
    assert((b0 >> 2) < 64 && (((b0 & 3) << 4) | (b1 >> 4)) < 64 && (((b1 & 15) << 2) | (b2 >> 6))
        < 64 && (b2 & 63) < 64) by (bit_vector);
}

proof fn lemma_sextets_recover(b0: u8, b1: u8, b2: u8, c0: u8, c1: u8, c2: u8)
    ensures
        sextets(b0, b1, b2).0 == sextets(c0, c1, c2).0 && sextets(b0, b1, b2).1 == sextets(
            c0,
            c1,
            c2,
        ).1 ==> ((b0 == c0) && (b1 >> 4 == c1 >> 4)),
        sextets(b0, b1, b2).0 == sextets(c0, c1, c2).0 && sextets(b0, b1, b2).1 == sextets(
            c0,
            c1,
            c2,
        ).1 && sextets(b0, b1, b2).2 == sextets(c0, c1, c2).2 ==> ((b0 == c0) && (b1 == c1) && (b2
            >> 6 == c2 >> 6)),
        sextets(b0, b1, b2) == sextets(c0, c1, c2) ==> (b0 == c0 && b1 == c1 && b2 == c2),
{
    assert((b0 >> 2) == (c0 >> 2) && (((b0 & 3) << 4) | (b1 >> 4)) == (((c0 & 3) << 4) | (c1 >> 4))
        ==> ((b0 == c0) && (b1 >> 4 == c1 >> 4))) by (bit_vector);
    assert((b0 >> 2) == (c0 >> 2) && (((b0 & 3) << 4) | (b1 >> 4)) == (((c0 & 3) << 4) | (c1 >> 4))
        && (((b1 & 15) << 2) | (b2 >> 6)) == (((c1 & 15) << 2) | (c2 >> 6)) ==> ((b0 == c0) && (b1
        == c1) && (b2 >> 6 == c2 >> 6))) by (bit_vector);
    assert((b0 >> 2) == (c0 >> 2) && (((b0 & 3) << 4) | (b1 >> 4)) == (((c0 & 3) << 4) | (c1 >> 4))
        && (((b1 & 15) << 2) | (b2 >> 6)) == (((c1 & 15) << 2) | (c2 >> 6)) && (b2 & 63) == (c2
        & 63) ==> (b0 == c0 && b1 == c1 && b2 == c2)) by (bit_vector);
}

proof fn lemma_group(bytes: Seq<u8>)
    requires
        bytes.len() > 0,
    ensures
        b64_group(bytes).len() == 4,
        is_b64_symbol(b64_group(bytes)[0]) && is_b64_symbol(b64_group(bytes)[1]),
        (b64_group(bytes)[2] == '=') == (bytes.len() == 1),
        (b64_group(bytes)[3] == '=') == (bytes.len() <= 2),
        b64_group(bytes)[2] != '=' ==> is_b64_symbol(b64_group(bytes)[2]),
        b64_group(bytes)[3] != '=' ==> is_b64_symbol(b64_group(bytes)[3]),
{
    let b0: u8 = bytes[0];
    let b1: u8 = if bytes.len() > 1 { bytes[1] } else { 0 };
    let b2: u8 = if bytes.len() > 2 { bytes[2] } else { 0 };
    lemma_sextets_bounded(b0, b1, b2);
    let (s0, s1, s2, s3) = sextets(b0, b1, b2);
    lemma_symbol(s0, s0);
    lemma_symbol(s1, s1);
    lemma_symbol(s2, s2);
    lemma_symbol(s3, s3);
}

/// The encoding of `n` bytes is `4 * ceil(n / 3)` characters long, each of
/// them a symbol of the alphabet or the padding `=`; padding occurs only in
/// the last two positions.
pub proof fn lemma_base64_shape(bytes: Seq<u8>)
    ensures
        base64_of(bytes).len() == 4 * ((bytes.len() + 2) / 3),
        forall|i: int|
            0 <= i < base64_of(bytes).len() ==> is_b64_symbol(#[trigger] base64_of(bytes)[i])
                || (base64_of(bytes)[i] == '=' && i >= base64_of(bytes).len() - 2),
    decreases bytes.len(),
{
    if bytes.len() > 0 {
        lemma_group(bytes);
        if bytes.len() > 3 {
            lemma_base64_shape(bytes.skip(3));
            let g = b64_group(bytes);
            let r = base64_of(bytes.skip(3));
            let e = base64_of(bytes);
            assert forall|i: int| 0 <= i < e.len() implies is_b64_symbol(#[trigger] e[i]) || (e[i]
                == '=' && i >= e.len() - 2) by {
                if i >= 4 {
                    assert(e[i] == r[i - 4]);
                } else {
                    assert(e[i] == g[i]);
                }
            }
        }
    }
}

/// Base64 encoding is injective: equal encodings come from equal inputs.
pub proof fn lemma_base64_injective(a: Seq<u8>, b: Seq<u8>)
    requires
        base64_of(a) == base64_of(b),
    ensures
        a == b,
    decreases a.len(),
{
    lemma_base64_shape(a);
    lemma_base64_shape(b);
    if a.len() == 0 || b.len() == 0 {
        assert(a.len() == 0 && b.len() == 0);
        assert(a =~= b);
    } else {
        lemma_group(a);
        lemma_group(b);
        let ea = base64_of(a);
        let ga = b64_group(a);
        let gb = b64_group(b);
        assert(ea.subrange(0, 4) =~= ga);
        assert(base64_of(b).subrange(0, 4) =~= gb);
        assert(ga == gb);
        let a0: u8 = a[0];
        let a1: u8 = if a.len() > 1 { a[1] } else { 0 };
        let a2: u8 = if a.len() > 2 { a[2] } else { 0 };
        let c0: u8 = b[0];
        let c1: u8 = if b.len() > 1 { b[1] } else { 0 };
        let c2: u8 = if b.len() > 2 { b[2] } else { 0 };
        lemma_sextets_bounded(a0, a1, a2);
        lemma_sextets_bounded(c0, c1, c2);
        let sa = sextets(a0, a1, a2);
        let sb = sextets(c0, c1, c2);
        assert(ga[0] == gb[0]);
        assert(ga[1] == gb[1]);
        lemma_symbol(sa.0, sb.0);
        lemma_symbol(sa.1, sb.1);
        lemma_symbol(sa.2, sb.2);
        lemma_symbol(sa.3, sb.3);
        lemma_sextets_recover(a0, a1, a2, c0, c1, c2);
        assert(ga[2] == gb[2]);
        assert(ga[3] == gb[3]);
        if a.len() == 1 {
            assert(b.len() == 1);
            assert(a =~= b);
        } else if a.len() == 2 {
            assert(b.len() == 2);
            assert(sa.0 == sb.0 && sa.1 == sb.1 && sa.2 == sb.2);
            assert(sa.2 == ((a1 & 15) << 2) | (0u8 >> 6));
            assert(sb.2 == ((c1 & 15) << 2) | (0u8 >> 6));
            assert((((a1 & 15) << 2) | (0u8 >> 6)) == (((c1 & 15) << 2) | (0u8 >> 6)) && (a1 >> 4)
                == (c1 >> 4) ==> a1 == c1) by (bit_vector);
            assert(a =~= b);
        } else {
            assert(b.len() >= 3);
            assert(sa == sb);
            if a.len() == 3 || b.len() == 3 {
                assert(a.len() == 3 && b.len() == 3);
                assert(a =~= b);
            } else {
                assert(ea.subrange(4, ea.len() as int) =~= base64_of(a.skip(3)));
                assert(base64_of(b).subrange(4, ea.len() as int) =~= base64_of(b.skip(3)));
                lemma_base64_injective(a.skip(3), b.skip(3));
                assert(a =~= seq![a0, a1, a2] + a.skip(3));
                assert(b =~= seq![c0, c1, c2] + b.skip(3));
            }
        }
    }
}

/// The 6-bit value of a symbol of the alphabet; `None` for other characters.
pub open spec fn b64_value(c: char) -> Option<u8> {
    if 'A' <= c && c <= 'Z' {
        Some((c as u32 - 65) as u8)
    } else if 'a' <= c && c <= 'z' {
        Some((c as u32 - 71) as u8)
    } else if '0' <= c && c <= '9' {
        Some((c as u32 + 4) as u8)
    } else if c == '+' {
        Some(62)
    } else if c == '/' {
        Some(63)
    } else {
        None
    }
}

/// Joins four 6-bit values back into three bytes.
pub open spec fn join_sextets(s0: u8, s1: u8, s2: u8, s3: u8) -> (u8, u8, u8) {
    ((s0 << 2) | (s1 >> 4), (s1 << 4) | (s2 >> 2), (s2 << 6) | s3)
}

/// Standard Base64 decoding: groups of four characters, the last of which
/// may end in one or two `=`; `None` for text that is not of that form.
pub open spec fn base64_decode(text: Seq<char>) -> Option<Seq<u8>>
    decreases text.len(),
{
    if text.len() == 0 {
        Some(Seq::empty())
    } else if text.len() < 4 {
        None
    } else if b64_value(text[0]) is None || b64_value(text[1]) is None {
        None
    } else if text[2] == '=' {
        if text[3] == '=' && text.len() == 4 {
            let (b0, _b1, _b2) = join_sextets(
                b64_value(text[0])->0,
                b64_value(text[1])->0,
                0,
                0,
            );
            Some(seq![b0])
        } else {
            None
        }
    } else if b64_value(text[2]) is None {
        None
    } else if text[3] == '=' {
        if text.len() == 4 {
            let (b0, b1, _b2) = join_sextets(
                b64_value(text[0])->0,
                b64_value(text[1])->0,
                b64_value(text[2])->0,
                0,
            );
            Some(seq![b0, b1])
        } else {
            None
        }
    } else if b64_value(text[3]) is None {
        None
    } else {
        let (b0, b1, b2) = join_sextets(
            b64_value(text[0])->0,
            b64_value(text[1])->0,
            b64_value(text[2])->0,
            b64_value(text[3])->0,
        );
        match base64_decode(text.skip(4)) {
            Some(rest) => Some(seq![b0, b1, b2] + rest),
            None => None,
        }
    }
}

proof fn lemma_symbol_value(v: u8)
    requires
        v < 64,
    ensures
        b64_value(b64_symbol(v)) == Some(v),
{
}

proof fn lemma_join_sextets(b0: u8, b1: u8, b2: u8)
    ensures
        ({
            let (s0, s1, s2, s3) = sextets(b0, b1, b2);
            join_sextets(s0, s1, s2, s3) == (b0, b1, b2)
        }),
{
    assert((((b0 >> 2) << 2) | ((((b0 & 3) << 4) | (b1 >> 4)) >> 4)) == b0 && (((((b0 & 3) << 4) | (
    b1 >> 4)) << 4) | ((((b1 & 15) << 2) | (b2 >> 6)) >> 2)) == b1 && (((((b1 & 15) << 2) | (b2
        >> 6)) << 6) | (b2 & 63)) == b2) by (bit_vector);
}

/// Decoding gives back the bytes that were encoded.
pub proof fn lemma_base64_decode_encode(bytes: Seq<u8>)
    ensures
        base64_decode(base64_of(bytes)) == Some(bytes),
    decreases bytes.len(),
{
    if bytes.len() > 0 {
        lemma_group(bytes);
        lemma_base64_shape(bytes);
        let e = base64_of(bytes);
        let g = b64_group(bytes);
        assert(e.subrange(0, 4) =~= g);
        let b0 = bytes[0];
        let b1: u8 = if bytes.len() > 1 { bytes[1] } else { 0 };
        let b2: u8 = if bytes.len() > 2 { bytes[2] } else { 0 };
        lemma_sextets_bounded(b0, b1, b2);
        let (s0, s1, s2, s3) = sextets(b0, b1, b2);
        lemma_symbol_value(s0);
        lemma_symbol_value(s1);
        lemma_symbol_value(s2);
        lemma_symbol_value(s3);
        lemma_symbol(s2, s2);
        lemma_symbol(s3, s3);
        lemma_join_sextets(b0, b1, b2);
        assert(e[0] == g[0] && e[1] == g[1] && e[2] == g[2] && e[3] == g[3]);
        if bytes.len() == 1 {
            assert(s2 == 0 && s3 == 0) by (bit_vector)
                requires
                    s2 == ((b1 & 15) << 2) | (b2 >> 6),
                    s3 == b2 & 63,
                    b1 == 0,
                    b2 == 0,
            ;
            assert(seq![b0] =~= bytes);
        } else if bytes.len() == 2 {
            assert(s3 == 0) by (bit_vector)
                requires
                    s3 == b2 & 63,
                    b2 == 0,
            ;
            assert(seq![b0, b1] =~= bytes);
        } else if bytes.len() == 3 {
            assert(e.skip(4) =~= Seq::<char>::empty());
            assert(seq![b0, b1, b2] + Seq::<u8>::empty() =~= bytes);
        } else {
            lemma_base64_decode_encode(bytes.skip(3));
            assert(e.skip(4) =~= base64_of(bytes.skip(3)));
            assert(seq![b0, b1, b2] + bytes.skip(3) =~= bytes);
        }
    }
}

/// Encoding a byte sequence whose length is a multiple of three, followed by
/// any bytes, gives the two encodings one after the other.
pub proof fn lemma_base64_concat(a: Seq<u8>, b: Seq<u8>)
    requires
        a.len() % 3 == 0,
    ensures
        base64_of(a + b) == base64_of(a) + base64_of(b),
    decreases a.len(),
{
    let ab = a + b;
    if a.len() == 0 {
        assert(ab =~= b);
        assert(base64_of(a) =~= Seq::<char>::empty());
        assert(Seq::<char>::empty() + base64_of(b) =~= base64_of(b));
    } else {
        assert(ab[0] == a[0] && ab[1] == a[1] && ab[2] == a[2]);
        assert(b64_group(ab) =~= b64_group(a));
        lemma_base64_concat(a.skip(3), b);
        assert(ab.skip(3) =~= a.skip(3) + b);
        if a.len() == 3 {
            assert(a.skip(3) =~= Seq::<u8>::empty());
            assert(a.skip(3) + b =~= b);
            if b.len() == 0 {
                assert(ab =~= a);
                assert(base64_of(a) + Seq::<char>::empty() =~= base64_of(a));
            }
        } else {
            assert((b64_group(a) + base64_of(a.skip(3))) + base64_of(b) =~= b64_group(a) + (
            base64_of(a.skip(3)) + base64_of(b)));
        }
    }
}

proof fn lemma_utf8_concat(x: Seq<char>, y: Seq<char>)
    ensures
        encode_utf8(x + y) == encode_utf8(x) + encode_utf8(y),
    decreases x.len(),
{
    if x.len() == 0 {
        assert(x + y =~= y);
        assert(Seq::<u8>::empty() + encode_utf8(y) =~= encode_utf8(y));
    } else {
        lemma_utf8_concat(x.drop_first(), y);
        assert((x + y).drop_first() =~= x.drop_first() + y);
        assert((x + y)[0] == x[0]);
        assert(encode_scalar(x[0] as u32) + (encode_utf8(x.drop_first()) + encode_utf8(y))
            =~= (encode_scalar(x[0] as u32) + encode_utf8(x.drop_first())) + encode_utf8(y));
    }
}

/// For texts `x` and `y` where the UTF-8 of `x` has a length that is a
/// multiple of three, `base64_encode(x + y)` is `base64_encode(x)` followed
/// by `base64_encode(y)`.
pub proof fn law_base64_encode_concat(x: Seq<char>, y: Seq<char>)
    requires
        encode_utf8(x).len() % 3 == 0,
    ensures
        base64_of(encode_utf8(x + y)) == base64_of(encode_utf8(x)) + base64_of(encode_utf8(y)),
{
    lemma_utf8_concat(x, y);
    lemma_base64_concat(encode_utf8(x), encode_utf8(y));
}

fn symbol(v: u8) -> (c: char)
    requires
        v < 64,
    ensures
        c == b64_symbol(v),
{
    if v < 26 {
        (v + 65) as char
    } else if v < 52 {
        (v + 71) as char
    } else if v < 62 {
        (v - 4) as char
    } else if v == 62 {
        '+'
    } else {
        '/'
    }
}

/// Encodes the UTF-8 bytes of `input` in standard Base64 with padding.
pub fn base64_encode(input: &str) -> (res: String)
    ensures
        res@ == base64_of(vstd::utf8::encode_utf8(input@)),
{
    let bytes = input.as_bytes();
    let len: usize = bytes.len();
    let mut out = String::new();
    let mut i: usize = 0;
    proof {
        assert(bytes@.skip(0) =~= bytes@);
    }
    while i < len
        invariant
            len == bytes@.len(),
            i <= len,
            bytes@ == vstd::utf8::encode_utf8(input@),
            base64_of(bytes@) == out@ + base64_of(bytes@.skip(i as int)),
        decreases len - i,
    {
        let ghost rest = bytes@.skip(i as int);
        let b0: u8 = bytes[i];
        let b1: u8 = if len - i > 1 { bytes[i + 1] } else { 0 };
        let b2: u8 = if len - i > 2 { bytes[i + 2] } else { 0 };
        let s0: u8 = b0 >> 2;
        let s1: u8 = ((b0 & 3) << 4) | (b1 >> 4);
        let s2: u8 = ((b1 & 15) << 2) | (b2 >> 6);
        let s3: u8 = b2 & 63;
        assert(s0 < 64 && s1 < 64 && s2 < 64 && s3 < 64) by (bit_vector)
            requires
                s0 == b0 >> 2,
                s1 == ((b0 & 3) << 4) | (b1 >> 4),
                s2 == ((b1 & 15) << 2) | (b2 >> 6),
                s3 == b2 & 63,
        ;
        let ghost old_out = out@;
        push_char(&mut out, symbol(s0));
        push_char(&mut out, symbol(s1));
        if len - i > 1 {
            push_char(&mut out, symbol(s2));
        } else {
            push_char(&mut out, '=');
        }
        if len - i > 2 {
            push_char(&mut out, symbol(s3));
        } else {
            push_char(&mut out, '=');
        }
        proof {
            assert(out@ =~= old_out + b64_group(rest));
        }
        if len - i <= 3 {
            proof {
                assert(base64_of(rest) == b64_group(rest));
                assert(bytes@.skip(len as int) =~= Seq::<u8>::empty());
            }
            i = len;
        } else {
            proof {
                assert(rest.skip(3) =~= bytes@.skip(i + 3));
            }
            i = i + 3;
        }
    }
    out
}

} // verus!
