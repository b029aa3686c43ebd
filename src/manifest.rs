use vstd::prelude::*;
use vstd::string::StrSliceExecFns;
use crate::codec::{decode_base64, decoded_text, trim_of, trim_text, DecodeFailure};
use crate::json::{
    array_in, as_array, json_doc, member, parse_model, member_of, JsonModel,
};

verus! {

/// What a structured manifest holds under its URL-list key.
#[derive(Debug, Clone, PartialEq, Eq)]
pub enum UrlField {
    /// No array stands under the key.
    Missing,
    /// The array is there and empty.
    Empty,
    /// The array's first entry: its text where it is a string, `None` where it is not.
    First(Option<String>),
}

/// The shape of a decoded manifest.
#[derive(Debug, Clone, PartialEq, Eq)]
pub enum Manifest {
    /// A streaming-playlist document, kept verbatim.
    PlaylistDocument(String),
    /// A list of direct stream URLs, given by the entry to play, its first.
    UrlList(String),
}

/// Why a decoded manifest gives nothing to play.
#[derive(Debug, Clone, Copy, PartialEq, Eq, Structural)]
pub enum ManifestError {
    /// Neither a playlist document nor structured data.
    NotStructured,
    /// Structured data without an array of URLs.
    NoUrlList,
    /// The array of URLs is empty.
    EmptyUrlList,
    /// The first entry of the array is not a string.
    FirstUrlNotText,
}

/// Why a manifest could not be resolved to something to play.
#[derive(Debug, Clone, Copy, PartialEq, Eq, Structural)]
pub enum ResolveError {
    Decode(DecodeFailure),
    Manifest(ManifestError),
}

pub open spec fn xml_prolog() -> Seq<char> {
    seq!['<', '?', 'x', 'm', 'l']
}

pub open spec fn has_xml_prolog(s: Seq<char>) -> bool {
    s.len() >= 5 && s.subrange(0, 5) == xml_prolog()
}

/// The URL chosen from what the array holds.
pub open spec fn chosen_url(f: UrlField) -> Result<Seq<char>, ManifestError> {
    match f {
        UrlField::Missing => Err(ManifestError::NoUrlList),
        UrlField::Empty => Err(ManifestError::EmptyUrlList),
        UrlField::First(None) => Err(ManifestError::FirstUrlNotText),
        UrlField::First(Some(u)) => Ok(u@),
    }
}

/// Whether a text starts with `<?xml`.
pub fn starts_with_xml_prolog(s: &str) -> (r: bool)
    ensures
        r == has_xml_prolog(s@),
{
    let n = s.unicode_len();
    if n < 5 {
        return false;
    }
    let ok = s.get_char(0) == '<' && s.get_char(1) == '?' && s.get_char(2) == 'x'
        && s.get_char(3) == 'm' && s.get_char(4) == 'l';
    assert(ok ==> s@.subrange(0, 5) =~= xml_prolog());
    assert(s@.subrange(0, 5) == xml_prolog() ==> s@.subrange(0, 5)[0] == '<' && s@.subrange(
        0,
        5,
    )[1] == '?' && s@.subrange(0, 5)[2] == 'x' && s@.subrange(0, 5)[3] == 'm' && s@.subrange(
        0,
        5,
    )[4] == 'l');
    ok
}

/// Picks the URL to play from what the array holds.
pub fn stream_url(field: UrlField) -> (r: Result<String, ManifestError>)
    ensures
        match r {
            Ok(u) => chosen_url(field) == Ok::<Seq<char>, ManifestError>(u@),
            Err(e) => chosen_url(field) == Err::<Seq<char>, ManifestError>(e),
        },
{
    match field {
        UrlField::Missing => Err(ManifestError::NoUrlList),
        UrlField::Empty => Err(ManifestError::EmptyUrlList),
        UrlField::First(None) => Err(ManifestError::FirstUrlNotText),
        UrlField::First(Some(u)) => Ok(u),
    }
}

pub open spec fn urls_key() -> Seq<char> {
    seq!['u', 'r', 'l', 's']
}

/// The `urls` array of a document.
pub open spec fn urls_of(d: JsonModel) -> Option<Seq<JsonModel>> {
    array_in(member_of(d, urls_key()))
}

/// Whether `f` reports what a document holds under its `urls` key.
pub open spec fn reports_urls(f: UrlField, d: JsonModel) -> bool {
    match urls_of(d) {
        None => f == UrlField::Missing,
        Some(items) => if items.len() == 0 {
            f == UrlField::Empty
        } else {
            match items[0] {
                JsonModel::Str(s) => f == UrlField::First(Some(s)),
                _ => f == UrlField::First(None),
            }
        },
    }
}

/// The URL a document's `urls` array offers, or why it offers none.
pub open spec fn url_choice(d: JsonModel) -> Result<Seq<char>, ManifestError> {
    match urls_of(d) {
        None => Err(ManifestError::NoUrlList),
        Some(items) => if items.len() == 0 {
            Err(ManifestError::EmptyUrlList)
        } else {
            match items[0] {
                JsonModel::Str(s) => Ok(s@),
                _ => Err(ManifestError::FirstUrlNotText),
            }
        },
    }
}

/// What decoded text that is no playlist document gives.
pub open spec fn structured_result(text: Seq<char>) -> Result<Seq<char>, ManifestError> {
    match json_doc(text) {
        None => Err(ManifestError::NotStructured),
        Some(d) => url_choice(d),
    }
}

/// Whether a classification result is the URL list or the error that `expected` gives.
pub open spec fn gives(r: Result<Manifest, ManifestError>, expected: Result<Seq<char>, ManifestError>) -> bool {
    match expected {
        Ok(u) => r is Ok && r->Ok_0 is UrlList && r->Ok_0->UrlList_0@ == u,
        Err(e) => r == Err::<Manifest, ManifestError>(e),
    }
}

/// Reads a text as JSON and reports what stands under its `urls` key; `None` where the text
/// is not JSON.
pub fn url_field_of(text: &str) -> (r: Option<UrlField>)
    ensures
        match json_doc(text@) {
            None => r is None,
            Some(d) => r is Some && reports_urls(r->Some_0, d),
        },
{
    proof {
        reveal_strlit("urls");
    }
    match parse_model(text) {
        None => None,
        Some(doc) => {
            let list = member(&doc, "urls");
            assert("urls"@ =~= urls_key());
            match as_array(list) {
                None => Some(UrlField::Missing),
                Some(items) => {
                    if items.len() == 0 {
                        Some(UrlField::Empty)
                    } else {
                        match &items[0] {
                            JsonModel::Str(u) => Some(UrlField::First(Some(u.clone()))),
                            _ => Some(UrlField::First(None)),
                        }
                    }
                },
            }
        },
    }
}

/// Decides the shape of a decoded manifest. A text whose trimmed start is `<?xml` is a
/// playlist document, kept whole; any other is read as JSON with a `urls` array.
pub fn classify(decoded: &str) -> (r: Result<Manifest, ManifestError>)
    ensures
        has_xml_prolog(trim_of(decoded@)) ==> r is Ok && r->Ok_0 is PlaylistDocument
            && r->Ok_0->PlaylistDocument_0@ == decoded@,
        !has_xml_prolog(trim_of(decoded@)) ==> gives(r, structured_result(decoded@)),
{
    let lead = trim_text(decoded);
    if starts_with_xml_prolog(lead) {
        return Ok(Manifest::PlaylistDocument(decoded.to_owned()));
    }
    match url_field_of(decoded) {
        None => Err(ManifestError::NotStructured),
        Some(field) => match stream_url(field) {
            Ok(u) => Ok(Manifest::UrlList(u)),
            Err(e) => Err(e),
        },
    }
}

} // verus!

verus! {

/// Decodes an encoded manifest and decides its shape.
pub fn resolve_manifest(encoded: &str) -> (r: Result<Manifest, ResolveError>)
    ensures
        match decoded_text(trim_of(encoded@)) {
            Err(e) => r == Err::<Manifest, ResolveError>(ResolveError::Decode(e)),
            Ok(t) => {
                &&& has_xml_prolog(trim_of(t)) ==> r is Ok && r->Ok_0 is PlaylistDocument
                    && r->Ok_0->PlaylistDocument_0@ == t
                &&& !has_xml_prolog(trim_of(t)) ==> match structured_result(t) {
                    Ok(u) => r is Ok && r->Ok_0 is UrlList && r->Ok_0->UrlList_0@ == u,
                    Err(e) => r == Err::<Manifest, ResolveError>(ResolveError::Manifest(e)),
                }
            },
        },
{
    match decode_base64(encoded) {
        Err(e) => Err(ResolveError::Decode(e)),
        Ok(text) => match classify(text.as_str()) {
            Ok(m) => Ok(m),
            Err(e) => Err(ResolveError::Manifest(e)),
        },
    }
}

} // verus!
