use base64::Engine;
use vstd::prelude::*;
use vstd::utf8::{decode_utf8, encode_utf8, valid_utf8};

verus! {

/// Why an encoded manifest could not be turned into text.
#[derive(Debug, Clone, Copy, PartialEq, Eq, Structural)]
pub enum DecodeFailure {
    /// The translated and padded text is not standard base64.
    InvalidBase64,
    /// The decoded bytes are not UTF-8.
    InvalidUtf8,
}

#[verifier::external_type_specification]
#[verifier::external_body]
pub struct ExBase64DecodeError(base64::DecodeError);

#[verifier::external_type_specification]
#[verifier::external_body]
pub struct ExFromUtf8Error(std::string::FromUtf8Error);

/// Whether a character has the Unicode White_Space property.
pub open spec fn is_white_space(c: char) -> bool {
    let u = c as u32;
    ||| 0x09 <= u <= 0x0d
    ||| u == 0x20
    ||| u == 0x85
    ||| u == 0xa0
    ||| u == 0x1680
    ||| 0x2000 <= u <= 0x200a
    ||| u == 0x2028
    ||| u == 0x2029
    ||| u == 0x202f
    ||| u == 0x205f
    ||| u == 0x3000
}

/// A text without its leading white space.
pub open spec fn trim_start_of(s: Seq<char>) -> Seq<char>
    decreases s.len(),
{
    if s.len() > 0 && is_white_space(s[0]) {
        trim_start_of(s.drop_first())
    } else {
        s
    }
}

/// A text without its trailing white space.
pub open spec fn trim_end_of(s: Seq<char>) -> Seq<char>
    decreases s.len(),
{
    if s.len() > 0 && is_white_space(s.last()) {
        trim_end_of(s.drop_last())
    } else {
        s
    }
}

/// A text without its leading and trailing white space.
pub open spec fn trim_of(s: Seq<char>) -> Seq<char> {
    trim_end_of(trim_start_of(s))
}

/// What base64's standard engine decodes a byte string to, `None` where it refuses it.
pub uninterp spec fn base64_standard(t: Seq<u8>) -> Option<Seq<u8>>;

pub open spec fn ascii_hyphen() -> u8 { 0x2d }
pub open spec fn ascii_underscore() -> u8 { 0x5f }
pub open spec fn ascii_plus() -> u8 { 0x2b }
pub open spec fn ascii_slash() -> u8 { 0x2f }
pub open spec fn ascii_equals() -> u8 { 0x3d }

/// A byte of the URL-safe alphabet mapped to the standard one.
pub open spec fn standard_byte(c: u8) -> u8 {
    if c == ascii_hyphen() {
        ascii_plus()
    } else if c == ascii_underscore() {
        ascii_slash()
    } else {
        c
    }
}

pub open spec fn translated(b: Seq<u8>) -> Seq<u8> {
    b.map_values(|c: u8| standard_byte(c))
}

/// How many `=` bring a text of `n` symbols to a multiple of four.
pub open spec fn padding_len(n: nat) -> nat {
    if n % 4 == 2 {
        2
    } else if n % 4 == 3 {
        1
    } else {
        0
    }
}

/// The translated text with its padding; meaningful where `b.len() % 4 != 1`.
pub open spec fn canonical(b: Seq<u8>) -> Seq<u8> {
    translated(b) + Seq::new(padding_len(b.len()), |i: int| ascii_equals())
}

/// Decoding of a byte string whose length is not one more than a multiple of four.
pub open spec fn decoded_bytes_text(b: Seq<u8>) -> Result<Seq<char>, DecodeFailure> {
    match base64_standard(canonical(b)) {
        None => Err(DecodeFailure::InvalidBase64),
        Some(raw) => if valid_utf8(raw) {
            Ok(decode_utf8(raw))
        } else {
            Err(DecodeFailure::InvalidUtf8)
        },
    }
}

/// What decoding a manifest gives, from its trimmed text. A length of one more than a
/// multiple of four cannot be base64, and such a text is handed back as it is.
pub open spec fn decoded_text(trimmed: Seq<char>) -> Result<Seq<char>, DecodeFailure> {
    let b = encode_utf8(trimmed);
    if b.len() % 4 == 1 {
        Ok(trimmed)
    } else {
        decoded_bytes_text(b)
    }
}

pub open spec fn text_result(r: Result<String, DecodeFailure>) -> Result<Seq<char>, DecodeFailure> {
    match r {
        Ok(s) => Ok(s@),
        Err(e) => Err(e),
    }
}

/// Relies on `str::trim`: it drops leading and trailing characters with the Unicode
/// White_Space property.
#[verifier::external_body]
pub(crate) fn trim_text(s: &str) -> (r: &str)
    ensures
        r@ == trim_of(s@),
{
    s.trim()
}

/// Relies on base64's `STANDARD.decode`: the bytes, or the refusal, depend on the input alone.
#[verifier::external_body]
fn standard_decode(t: &[u8]) -> (r: Result<Vec<u8>, base64::DecodeError>)
    ensures
        r is Ok <==> base64_standard(t@) is Some,
        r is Ok ==> r->Ok_0@ == base64_standard(t@)->Some_0,
{
    base64::engine::general_purpose::STANDARD.decode(t)
}

/// Relies on `String::from_utf8`: it accepts exactly the valid UTF-8 byte strings and keeps
/// their characters.
#[verifier::external_body]
fn utf8_string(b: Vec<u8>) -> (r: Result<String, std::string::FromUtf8Error>)
    ensures
        r is Ok <==> valid_utf8(b@),
        r is Ok ==> r->Ok_0@ == decode_utf8(b@),
{
    String::from_utf8(b)
}

/// Translates the URL-safe symbols `-` and `_` to `+` and `/` and pads the result with `=`
/// to a multiple of four; `None` where the length is one more than a multiple of four.
pub fn canonical_form(b: &[u8]) -> (r: Option<Vec<u8>>)
    ensures
        r is None <==> b@.len() % 4 == 1,
        r is Some ==> r->Some_0@ == canonical(b@),
{
    let n = b.len();
    if n % 4 == 1 {
        return None;
    }
    let mut out: Vec<u8> = Vec::new();
    let mut i: usize = 0;
    while i < n
        invariant
            n == b@.len(),
            i <= n,
            out@ == translated(b@.subrange(0, i as int)),
        decreases n - i,
    {
        let c = b[i];
        let t: u8 = if c == 0x2d {
            0x2b
        } else if c == 0x5f {
            0x2f
        } else {
            c
        };
        out.push(t);
        i = i + 1;
        assert(b@.subrange(0, i as int) == b@.subrange(0, i - 1) + seq![c]);
        assert(out@ =~= translated(b@.subrange(0, i as int)));
    }
    assert(b@.subrange(0, n as int) == b@);
    let pad: usize = if n % 4 == 2 {
        2
    } else if n % 4 == 3 {
        1
    } else {
        0
    };
    let mut k: usize = 0;
    while k < pad
        invariant
            pad == padding_len(n as nat),
            k <= pad,
            out@ == translated(b@) + Seq::new(k as nat, |j: int| ascii_equals()),
        decreases pad - k,
    {
        out.push(0x3d);
        k = k + 1;
        assert(out@ =~= translated(b@) + Seq::new(k as nat, |j: int| ascii_equals()));
    }
    Some(out)
}

/// Decodes a manifest written in URL-safe base64 without padding. Surrounding whitespace is
/// dropped; a text whose length is one more than a multiple of four is returned unchanged.
pub fn decode_base64(encoded: &str) -> (r: Result<String, DecodeFailure>)
    ensures
        text_result(r) == decoded_text(trim_of(encoded@)),
{
    let stripped = trim_text(encoded);
    let bytes = stripped.as_bytes();
    match canonical_form(bytes) {
        None => Ok(stripped.to_string()),
        Some(padded) => match standard_decode(padded.as_slice()) {
            Err(_) => Err(DecodeFailure::InvalidBase64),
            Ok(raw) => match utf8_string(raw) {
                Err(_) => Err(DecodeFailure::InvalidUtf8),
                Ok(text) => Ok(text),
            },
        },
    }
}

} // verus!

verus! {

/// Where a trimmed text's length in bytes is not one more than a multiple of four, decoding it
/// succeeds exactly when standard base64 decoding of its translated, padded form succeeds and
/// yields UTF-8, and gives that text.
pub proof fn lemma_decode_is_standard(trimmed: Seq<char>)
    requires
        encode_utf8(trimmed).len() % 4 != 1,
    ensures
        decoded_text(trimmed) is Ok <==> (base64_standard(canonical(encode_utf8(trimmed))) is Some
            && valid_utf8(base64_standard(canonical(encode_utf8(trimmed)))->Some_0)),
        decoded_text(trimmed) is Ok ==> decoded_text(trimmed)->Ok_0 == decode_utf8(
            base64_standard(canonical(encode_utf8(trimmed)))->Some_0,
        ),
{
}

/// Translating and padding is idempotent: the canonical form of a canonical form is itself,
/// so decoding the canonical form gives the same text as decoding the input itself.
pub proof fn lemma_canonical_idempotent(b: Seq<u8>)
    requires
        b.len() % 4 != 1,
    ensures
        canonical(b).len() % 4 == 0,
        canonical(canonical(b)) == canonical(b),
        decoded_bytes_text(canonical(b)) == decoded_bytes_text(b),
{
    let c = canonical(b);
    assert(c.len() == b.len() + padding_len(b.len()));
    assert(c.len() % 4 == 0);
    assert(padding_len(c.len()) == 0);
    assert forall|i: int| 0 <= i < c.len() implies standard_byte(#[trigger] c[i]) == c[i] by {
        if i < b.len() {
            assert(c[i] == standard_byte(b[i]));
        } else {
            assert(c[i] == ascii_equals());
        }
    }
    assert(canonical(c) =~= c);
}

} // verus!
