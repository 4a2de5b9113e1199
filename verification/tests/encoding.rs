use nostr_bunker::json::json_literal;
use nostr_bunker::base64::base64_encode;

#[test]
fn test_base64() {
    assert_eq!(base64_encode("hello"), "aGVsbG8=");
    assert_eq!(base64_encode("{\"test\":1}"), "eyJ0ZXN0IjoxfQ==");
}

#[test]
fn base64_rfc4648_vectors() {
    assert_eq!(base64_encode(""), "");
    assert_eq!(base64_encode("f"), "Zg==");
    assert_eq!(base64_encode("fo"), "Zm8=");
    assert_eq!(base64_encode("foo"), "Zm9v");
    assert_eq!(base64_encode("foob"), "Zm9vYg==");
    assert_eq!(base64_encode("fooba"), "Zm9vYmE=");
    assert_eq!(base64_encode("foobar"), "Zm9vYmFy");
}

#[test]
fn base64_uses_plus_and_slash() {
    assert_eq!(base64_encode("\u{fbff}"), "76+/");
    assert_eq!(base64_encode("??>"), "Pz8+");
    assert_eq!(base64_encode(">>?"), "Pj4/");
}

#[test]
fn base64_encodes_utf8_bytes() {
    assert_eq!(base64_encode("é"), "w6k=");
}

#[test]
fn base64_length_is_four_per_started_group() {
    for n in 0..20usize {
        let s = "x".repeat(n);
        assert_eq!(base64_encode(&s).len(), 4 * ((n + 2) / 3));
    }
}

#[test]
fn base64_distinct_inputs_give_distinct_outputs() {
    assert_ne!(base64_encode("ab"), base64_encode("ac"));
    assert_ne!(base64_encode("a"), base64_encode("a\u{0}"));
}

#[test]
fn base64_of_aligned_prefix_concatenates() {
    let joined = format!("{}{}", base64_encode("abc"), base64_encode("de"));
    assert_eq!(base64_encode("abcde"), joined);
    assert_eq!(base64_encode("abcdef"), format!("{}{}", base64_encode("abc"), base64_encode("def")));
}

#[test]
fn json_literals_escape_as_serde_json_does() {
    assert_eq!(json_literal("plain"), "\"plain\"");
    assert_eq!(json_literal("a\"b\\c"), "\"a\\\"b\\\\c\"");
    assert_eq!(json_literal("\u{8}\t\n\u{c}\r"), "\"\\b\\t\\n\\f\\r\"");
    assert_eq!(json_literal("\u{1}\u{1f}"), "\"\\u0001\\u001f\"");
    assert_eq!(json_literal("é/\u{7f}"), "\"é/\u{7f}\"");
}
