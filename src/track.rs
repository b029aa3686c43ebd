use vstd::prelude::*;

verus! {

/// A track picked from search results.
#[derive(Debug, Clone, PartialEq, Eq)]
pub struct Track {
    pub id: i32,
    /// The quality tier the catalogue advertises for it.
    pub audio_quality: String,
    /// Its media metadata tags.
    pub tags: Vec<String>,
}

/// The tag that marks a track as having a high-resolution encode.
pub open spec fn hires_tag() -> Seq<char> {
    seq!['H', 'I', 'R', 'E', 'S', '_', 'L', 'O', 'S', 'S', 'L', 'E', 'S', 'S']
}

/// The quality tier asked for where that tag is present.
pub open spec fn elevated_tier() -> Seq<char> {
    seq!['H', 'I', '_', 'R', 'E', 'S', '_', 'L', 'O', 'S', 'S', 'L', 'E', 'S', 'S']
}

pub open spec fn has_tag(tags: Seq<String>, tag: Seq<char>) -> bool {
    exists|i: int| 0 <= i < tags.len() && #[trigger] tags[i]@ == tag
}

/// The tier a track is fetched at.
pub open spec fn quality_for(advertised: Seq<char>, tags: Seq<String>) -> Seq<char> {
    if has_tag(tags, hires_tag()) {
        elevated_tier()
    } else {
        advertised
    }
}

/// Whether the tags hold the high-resolution marker.
pub fn has_hires_tag(tags: &Vec<String>) -> (r: bool)
    ensures
        r == has_tag(tags@, hires_tag()),
{
    proof {
        reveal_strlit("HIRES_LOSSLESS");
    }
    let marker = "HIRES_LOSSLESS".to_owned();
    assert(marker@ =~= hires_tag());
    let mut i: usize = 0;
    while i < tags.len()
        invariant
            i <= tags@.len(),
            marker@ == hires_tag(),
            forall|j: int| 0 <= j < i ==> #[trigger] tags@[j]@ != hires_tag(),
        decreases tags@.len() - i,
    {
        if tags[i] == marker {
            return true;
        }
        i = i + 1;
    }
    false
}

/// The advertised tier, raised to the high-resolution tier where the tags mark one.
pub fn select_quality(advertised: &str, tags: &Vec<String>) -> (r: String)
    ensures
        r@ == quality_for(advertised@, tags@),
{
    proof {
        reveal_strlit("HI_RES_LOSSLESS");
    }
    if has_hires_tag(tags) {
        let tier = "HI_RES_LOSSLESS".to_owned();
        assert(tier@ =~= elevated_tier());
        tier
    } else {
        advertised.to_owned()
    }
}

impl Track {
    /// The tier this track is fetched at.
    pub fn effective_quality(&self) -> (r: String)
        ensures
            r@ == quality_for(self.audio_quality@, self.tags@),
    {
        select_quality(self.audio_quality.as_str(), &self.tags)
    }
}

} // verus!
