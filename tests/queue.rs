use base64::Engine;
use stream_queue::manifest::{resolve_manifest, ManifestError, ResolveError};
use stream_queue::queue::{
    load_mode, playlist_file_content, queue_manifest, queue_playlist_document, queue_url,
    LoadCommand, LoadMode, QueueAction, PLAYLIST_PATH,
};
use stream_queue::request::track_url;
use stream_queue::track::Track;

fn url_safe(text: &str) -> String {
    base64::engine::general_purpose::URL_SAFE_NO_PAD.encode(text.as_bytes())
}

#[test]
fn idle_player_gets_replace() {
    assert_eq!(load_mode(true), LoadMode::Replace);
    let c = queue_url(true, "https://a/s.m4a");
    assert_eq!(c, LoadCommand { target: "https://a/s.m4a".to_string(), mode: LoadMode::Replace });
}

#[test]
fn active_player_gets_append() {
    assert_eq!(load_mode(false), LoadMode::Append);
    let c = queue_url(false, "https://a/s.m4a");
    assert_eq!(c, LoadCommand { target: "https://a/s.m4a".to_string(), mode: LoadMode::Append });
}

#[test]
fn mode_words() {
    assert_eq!(LoadMode::Replace.as_word(), "replace");
    assert_eq!(LoadMode::Append.as_word(), "append");
}

#[test]
fn playlist_document_written_then_loaded() {
    let doc = "<?xml?>\n<MPD> a </MPD>";
    assert_eq!(playlist_file_content(doc), format!("{}\n", doc));
    let action = queue_playlist_document(false, doc);
    assert_eq!(
        action,
        QueueAction {
            write: Some((PLAYLIST_PATH.to_string(), format!("{}\n", doc))),
            load: LoadCommand { target: PLAYLIST_PATH.to_string(), mode: LoadMode::Append },
        }
    );
    assert_eq!(PLAYLIST_PATH, "/tmp/mpv_queue.mpd");
}

#[test]
fn scenario_playlist_document_on_idle_player() {
    let doc = "<?xml version=\"1.0\"?><MPD>...</MPD>";
    let manifest = resolve_manifest(&url_safe(doc)).unwrap();
    let action = queue_manifest(true, &manifest);
    assert_eq!(
        action,
        QueueAction {
            write: Some(("/tmp/mpv_queue.mpd".to_string(), format!("{}\n", doc))),
            load: LoadCommand {
                target: "/tmp/mpv_queue.mpd".to_string(),
                mode: LoadMode::Replace
            },
        }
    );
}

#[test]
fn scenario_url_on_active_player() {
    let manifest =
        resolve_manifest(&url_safe("{\"urls\":[\"https://example/stream.m4a\"]}")).unwrap();
    let action = queue_manifest(false, &manifest);
    assert_eq!(
        action,
        QueueAction {
            write: None,
            load: LoadCommand {
                target: "https://example/stream.m4a".to_string(),
                mode: LoadMode::Append
            },
        }
    );
}

#[test]
fn scenario_empty_urls_gives_no_command() {
    assert_eq!(
        resolve_manifest(&url_safe("{\"urls\":[]}")),
        Err(ResolveError::Manifest(ManifestError::EmptyUrlList))
    );
}

#[test]
fn scenario_hires_tag_raises_fetch_quality() {
    let track = Track {
        id: 77,
        audio_quality: "LOSSLESS".to_string(),
        tags: vec!["LOSSLESS".to_string(), "HIRES_LOSSLESS".to_string()],
    };
    let tier = track.effective_quality();
    assert_eq!(tier, "HI_RES_LOSSLESS");
    assert_eq!(
        track_url(track.id, &tier),
        "https://tidal.kinoplus.online/track/?id=77&quality=HI_RES_LOSSLESS"
    );
}
