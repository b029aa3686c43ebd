use vstd::prelude::*;
use vstd::string::StringExecFns;
use crate::manifest::Manifest;

verus! {

/// Where a playlist document is written for the player to load.
pub const PLAYLIST_PATH: &'static str = "/tmp/mpv_queue.mpd";

/// How a load command places its target in the player's queue.
#[derive(Debug, Clone, Copy, PartialEq, Eq, Structural)]
pub enum LoadMode {
    /// Drop what is loaded and play the target now.
    Replace,
    /// Play the target after what is queued.
    Append,
}

impl LoadMode {
    /// The word the player's `loadfile` command takes for this mode.
    pub fn as_word(&self) -> (r: &'static str)
        ensures
            r@ == mode_word(*self),
    {
        proof {
            reveal_strlit("replace");
            reveal_strlit("append");
        }
        match self {
            LoadMode::Replace => "replace",
            LoadMode::Append => "append",
        }
    }
}

pub open spec fn mode_word(m: LoadMode) -> Seq<char> {
    match m {
        LoadMode::Replace => seq!['r', 'e', 'p', 'l', 'a', 'c', 'e'],
        LoadMode::Append => seq!['a', 'p', 'p', 'e', 'n', 'd'],
    }
}

/// A load command for the player: a URL or a file path, and where it goes in the queue.
#[derive(Debug, Clone, PartialEq, Eq)]
pub struct LoadCommand {
    pub target: String,
    pub mode: LoadMode,
}

/// What queueing a manifest asks of the outside: a file to write first, where the manifest
/// is a playlist document, and the load command.
#[derive(Debug, Clone, PartialEq, Eq)]
pub struct QueueAction {
    /// The path and the full content to write there, replacing what it held.
    pub write: Option<(String, String)>,
    pub load: LoadCommand,
}

pub open spec fn mode_for(idle: bool) -> LoadMode {
    if idle {
        LoadMode::Replace
    } else {
        LoadMode::Append
    }
}

pub open spec fn playlist_path() -> Seq<char> {
    seq!['/', 't', 'm', 'p', '/', 'm', 'p', 'v', '_', 'q', 'u', 'e', 'u', 'e', '.', 'm', 'p', 'd']
}

/// The content a playlist document's file holds: the document and a line end.
pub open spec fn playlist_file_text(document: Seq<char>) -> Seq<char> {
    document.push('\n')
}

/// An idle player has its current item replaced; an active one has the target appended.
pub fn load_mode(idle: bool) -> (r: LoadMode)
    ensures
        r == mode_for(idle),
        (r == LoadMode::Replace) == idle,
{
    if idle {
        LoadMode::Replace
    } else {
        LoadMode::Append
    }
}

/// The command that queues a URL on a player whose idle state was read as `idle`.
pub fn queue_url(idle: bool, url: &str) -> (r: LoadCommand)
    ensures
        r.target@ == url@,
        r.mode == mode_for(idle),
{
    LoadCommand { target: url.to_owned(), mode: load_mode(idle) }
}

/// The text written to the playlist file for a document.
pub fn playlist_file_content(document: &str) -> (r: String)
    ensures
        r@ == playlist_file_text(document@),
{
    proof {
        reveal_strlit("\n");
    }
    let mut content = document.to_owned();
    content.append("\n");
    assert(content@ =~= playlist_file_text(document@));
    content
}

/// Queues a playlist document: it is written whole to the fixed path, which is then loaded.
pub fn queue_playlist_document(idle: bool, document: &str) -> (r: QueueAction)
    ensures
        r.write is Some,
        r.write->Some_0.0@ == playlist_path(),
        r.write->Some_0.1@ == playlist_file_text(document@),
        r.load.target@ == playlist_path(),
        r.load.mode == mode_for(idle),
{
    proof {
        reveal_strlit("/tmp/mpv_queue.mpd");
    }
    let path = PLAYLIST_PATH;
    assert(path@ =~= playlist_path());
    let load = queue_url(idle, path);
    QueueAction { write: Some((path.to_owned(), playlist_file_content(document))), load }
}

/// What to do with a resolved manifest on a player whose idle state was read as `idle`.
pub fn queue_manifest(idle: bool, manifest: &Manifest) -> (r: QueueAction)
    ensures
        match manifest {
            Manifest::PlaylistDocument(doc) => {
                &&& r.write is Some
                &&& r.write->Some_0.0@ == playlist_path()
                &&& r.write->Some_0.1@ == playlist_file_text(doc@)
                &&& r.load.target@ == playlist_path()
            },
            Manifest::UrlList(url) => r.write is None && r.load.target@ == url@,
        },
        r.load.mode == mode_for(idle),
{
    match manifest {
        Manifest::PlaylistDocument(doc) => queue_playlist_document(idle, doc.as_str()),
        Manifest::UrlList(url) => QueueAction { write: None, load: queue_url(idle, url.as_str()) },
    }
}

} // verus!
