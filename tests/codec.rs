use base64::Engine;
use stream_queue::codec::{canonical_form, decode_base64, DecodeFailure};

fn url_safe(text: &str) -> String {
    base64::engine::general_purpose::URL_SAFE_NO_PAD.encode(text.as_bytes())
}

fn padded_standard(text: &str) -> String {
    base64::engine::general_purpose::STANDARD.encode(text.as_bytes())
}

#[test]
fn decodes_without_padding_for_each_remainder() {
    // "ab" -> "YWI" (3 mod 4), "a" -> "YQ" (2 mod 4), "abc" -> "YWJj" (0 mod 4)
    assert_eq!(decode_base64("YWI"), Ok("ab".to_string()));
    assert_eq!(decode_base64("YQ"), Ok("a".to_string()));
    assert_eq!(decode_base64("YWJj"), Ok("abc".to_string()));
    assert_eq!(decode_base64(""), Ok(String::new()));
}

#[test]
fn translates_url_safe_symbols() {
    // "?>?" has the standard encoding "Pz4/", URL-safe "Pz4_"
    assert_eq!(decode_base64("Pz4_"), Ok("?>?".to_string()));
    // bytes fb ff encode to "+/8" in the standard alphabet
    assert_eq!(decode_base64("-_8"), Err(DecodeFailure::InvalidUtf8));
}

#[test]
fn trims_surrounding_whitespace() {
    assert_eq!(decode_base64("  YWJj\n"), Ok("abc".to_string()));
}

#[test]
fn remainder_one_returns_trimmed_input() {
    assert_eq!(decode_base64(" YWJjZ "), Ok("YWJjZ".to_string()));
    assert_eq!(decode_base64("a-b_c"), Ok("a-b_c".to_string()));
}

#[test]
fn invalid_base64_is_reported() {
    assert_eq!(decode_base64("a*cd"), Err(DecodeFailure::InvalidBase64));
}

#[test]
fn invalid_utf8_is_reported() {
    // "__4" is "//4=" in the standard alphabet: the bytes ff fe
    assert_eq!(decode_base64("__4"), Err(DecodeFailure::InvalidUtf8));
}

#[test]
fn canonical_form_translates_and_pads() {
    assert_eq!(canonical_form(b"a-b_"), Some(b"a+b/".to_vec()));
    assert_eq!(canonical_form(b"ab"), Some(b"ab==".to_vec()));
    assert_eq!(canonical_form(b"a_c"), Some(b"a/c=".to_vec()));
    assert_eq!(canonical_form(b"abcde"), None);
    assert_eq!(canonical_form(b""), Some(Vec::new()));
}

#[test]
fn canonical_form_is_idempotent() {
    for input in [&b"a-b"[..], b"Pz4_", b"YQ", b""] {
        let once = canonical_form(input).unwrap();
        assert_eq!(canonical_form(&once), Some(once.clone()));
    }
}

#[test]
fn matches_standard_decoding_of_padded_form() {
    for text in ["", "a", "ab", "abc", "abcd", "??>>", "héllo wörld", "<?xml?>"] {
        let standard = padded_standard(text);
        assert_eq!(decode_base64(&url_safe(text)), decode_base64(&standard));
        assert_eq!(decode_base64(&standard), Ok(text.to_string()));
    }
}

#[test]
fn round_trips_url_safe_encoding() {
    let texts = ["", "x", "xy", "xyz", "??>", "??>?", "ÿþ", "é>?~", "{\"urls\":[]}"];
    let mut remainders = [false; 4];
    for text in texts {
        let encoded = url_safe(text);
        remainders[encoded.len() % 4] = true;
        assert_eq!(decode_base64(&encoded), Ok(text.to_string()));
    }
    assert!(remainders[0] && remainders[2] && remainders[3]);
}

#[test]
fn trims_unicode_white_space() {
    assert_eq!(decode_base64("\u{3000}YWJj\u{00a0}\t"), Ok("abc".to_string()));
}
