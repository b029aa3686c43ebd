use base64::Engine;
use stream_queue::codec::DecodeFailure;
use stream_queue::manifest::{
    classify, resolve_manifest, starts_with_xml_prolog, stream_url, url_field_of, Manifest,
    ManifestError, ResolveError, UrlField,
};

fn url_safe(text: &str) -> String {
    base64::engine::general_purpose::URL_SAFE_NO_PAD.encode(text.as_bytes())
}

#[test]
fn xml_document_kept_verbatim() {
    let doc = "<?xml version=\"1.0\"?>\n  <MPD>  </MPD>\n";
    assert_eq!(classify(doc), Ok(Manifest::PlaylistDocument(doc.to_string())));
}

#[test]
fn xml_prolog_after_leading_whitespace() {
    let doc = "\n <?xml version=\"1.0\"?><MPD/>";
    assert_eq!(classify(doc), Ok(Manifest::PlaylistDocument(doc.to_string())));
}

#[test]
fn prolog_check() {
    assert!(starts_with_xml_prolog("<?xml"));
    assert!(!starts_with_xml_prolog("<?xm"));
    assert!(!starts_with_xml_prolog(" <?xml"));
    assert!(!starts_with_xml_prolog("<?XML"));
}

#[test]
fn url_list_gives_first_entry() {
    let text = "{\"urls\":[\"https://a/1.flac\",\"https://a/2.flac\"]}";
    assert_eq!(classify(text), Ok(Manifest::UrlList("https://a/1.flac".to_string())));
}

#[test]
fn empty_url_list() {
    assert_eq!(classify("{\"urls\":[]}"), Err(ManifestError::EmptyUrlList));
}

#[test]
fn first_url_not_text() {
    assert_eq!(classify("{\"urls\":[7,\"https://a\"]}"), Err(ManifestError::FirstUrlNotText));
}

#[test]
fn missing_url_list() {
    assert_eq!(classify("{\"url\":\"https://a\"}"), Err(ManifestError::NoUrlList));
    assert_eq!(classify("{\"urls\":\"https://a\"}"), Err(ManifestError::NoUrlList));
    assert_eq!(classify("[1,2]"), Err(ManifestError::NoUrlList));
}

#[test]
fn unstructured_text() {
    assert_eq!(classify("hello"), Err(ManifestError::NotStructured));
    assert_eq!(classify(""), Err(ManifestError::NotStructured));
}

#[test]
fn url_field_reading() {
    assert_eq!(url_field_of("not json"), None);
    assert_eq!(url_field_of("{}"), Some(UrlField::Missing));
    assert_eq!(url_field_of("{\"urls\":[]}"), Some(UrlField::Empty));
    assert_eq!(url_field_of("{\"urls\":[null]}"), Some(UrlField::First(None)));
    assert_eq!(
        url_field_of("{\"urls\":[\"u\"]}"),
        Some(UrlField::First(Some("u".to_string())))
    );
}

#[test]
fn stream_url_choice() {
    assert_eq!(stream_url(UrlField::Missing), Err(ManifestError::NoUrlList));
    assert_eq!(stream_url(UrlField::Empty), Err(ManifestError::EmptyUrlList));
    assert_eq!(stream_url(UrlField::First(None)), Err(ManifestError::FirstUrlNotText));
    assert_eq!(stream_url(UrlField::First(Some("u".to_string()))), Ok("u".to_string()));
}

#[test]
fn resolve_reports_decode_failures() {
    assert_eq!(
        resolve_manifest("a*cd"),
        Err(ResolveError::Decode(DecodeFailure::InvalidBase64))
    );
    assert_eq!(
        resolve_manifest("__4"),
        Err(ResolveError::Decode(DecodeFailure::InvalidUtf8))
    );
}

#[test]
fn resolve_playlist_document() {
    let doc = "<?xml version=\"1.0\"?><MPD>...</MPD>";
    assert_eq!(
        resolve_manifest(&url_safe(doc)),
        Ok(Manifest::PlaylistDocument(doc.to_string()))
    );
}

#[test]
fn resolve_url_list() {
    let text = "{\"urls\":[\"https://example/stream.m4a\"]}";
    assert_eq!(
        resolve_manifest(&url_safe(text)),
        Ok(Manifest::UrlList("https://example/stream.m4a".to_string()))
    );
}
