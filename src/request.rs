use vstd::prelude::*;
use vstd::string::{StrSliceExecFns, StringExecFns};
use crate::json::{
    array_in, as_array, as_text, deref_opt, json_doc, member, member_in, member_of, parse_model,
    text_in, JsonModel,
};
use crate::track::Track;
use crate::codec::{trim_of, trim_text};

verus! {

/// The client header sent with every request.
pub const USER_AGENT: &'static str =
    "Mozilla/5.0 (X11; Linux x86_64; rv:145.0) Gecko/20100101 Firefox/145.0";

/// The search endpoint; the query follows it.
pub const SEARCH_BASE: &'static str = "https://maus.qqdl.site/search/?s=";

/// The manifest resolver endpoint; the parameters follow it.
pub const TRACK_BASE: &'static str = "https://tidal.kinoplus.online/track/?";

pub open spec fn digit(d: nat) -> char {
    seq!['0', '1', '2', '3', '4', '5', '6', '7', '8', '9'][d as int]
}

pub open spec fn natural_digits(n: nat) -> Seq<char>
    decreases n,
{
    if n < 10 {
        seq![digit(n)]
    } else {
        natural_digits(n / 10).push(digit(n % 10))
    }
}

/// An integer written in decimal, with a leading `-` where it is negative.
pub open spec fn decimal(n: int) -> Seq<char> {
    if n < 0 {
        seq!['-'] + natural_digits((-n) as nat)
    } else {
        natural_digits(n as nat)
    }
}

/// A query with each space written as `%20`.
pub open spec fn escape_spaces(s: Seq<char>) -> Seq<char>
    decreases s.len(),
{
    if s.len() == 0 {
        seq![]
    } else {
        escape_spaces(s.drop_last()) + if s.last() == ' ' {
            seq!['%', '2', '0']
        } else {
            seq![s.last()]
        }
    }
}

pub open spec fn search_url_text(query: Seq<char>) -> Seq<char> {
    SEARCH_BASE@ + escape_spaces(query)
}

pub open spec fn track_url_text(id: int, quality: Seq<char>) -> Seq<char> {
    TRACK_BASE@ + seq!['i', 'd', '='] + decimal(id) + seq![
        '&',
        'q',
        'u',
        'a',
        'l',
        'i',
        't',
        'y',
        '=',
    ] + quality
}

/// Relies on `i32`'s `to_string`: integers are written in decimal, negative ones after `-`.
#[verifier::external_body]
fn decimal_text(n: i32) -> (r: String)
    ensures
        r@ == decimal(n as int),
{
    n.to_string()
}

/// The search request's URL for a query.
pub fn search_url(query: &str) -> (r: String)
    ensures
        r@ == search_url_text(query@),
{
    let n = query.unicode_len();
    let mut out = SEARCH_BASE.to_owned();
    let mut i: usize = 0;
    while i < n
        invariant
            n == query@.len(),
            i <= n,
            out@ == SEARCH_BASE@ + escape_spaces(query@.subrange(0, i as int)),
        decreases n - i,
    {
        let c = query.get_char(i);
        let ghost before = out@;
        if c == ' ' {
            proof {
                reveal_strlit("%20");
            }
            assert("%20"@ =~= seq!['%', '2', '0']);
            out.append("%20");
        } else {
            let one = query.substring_char(i, i + 1);
            assert(one@ =~= seq![c]);
            out.append(one);
        }
        proof {
            let s = query@.subrange(0, i + 1);
            assert(s.drop_last() =~= query@.subrange(0, i as int));
            assert(s.last() == c);
            let piece = if c == ' ' {
                seq!['%', '2', '0']
            } else {
                seq![c]
            };
            assert(escape_spaces(s) == escape_spaces(query@.subrange(0, i as int)) + piece);
            assert(out@ =~= before + piece);
        }
        i = i + 1;
        assert(out@ =~= SEARCH_BASE@ + escape_spaces(query@.subrange(0, i as int)));
    }
    assert(query@.subrange(0, n as int) =~= query@);
    out
}

/// The manifest request's URL for a track and a quality tier.
pub fn track_url(id: i32, quality: &str) -> (r: String)
    ensures
        r@ == track_url_text(id as int, quality@),
{
    proof {
        reveal_strlit("id=");
        reveal_strlit("&quality=");
    }
    let mut out = TRACK_BASE.to_owned();
    out.append("id=");
    let digits = decimal_text(id);
    out.append(digits.as_str());
    out.append("&quality=");
    out.append(quality);
    assert(out@ =~= track_url_text(id as int, quality@));
    out
}

/// The text at `data.manifest` of a document.
pub open spec fn manifest_at(d: Option<JsonModel>) -> Option<Seq<char>> {
    text_in(member_in(member_in(d, "data"@), "manifest"@))
}

/// Reads the encoded manifest, the string at `data.manifest`, from the resolver's response.
pub fn manifest_from_response(body: &str) -> (r: Option<String>)
    ensures
        match r {
            Some(s) => manifest_at(json_doc(body@)) == Some(s@),
            None => manifest_at(json_doc(body@)) is None,
        },
{
    let doc = match parse_model(body) {
        None => return None,
        Some(d) => d,
    };
    let data = match member(&doc, "data") {
        None => return None,
        Some(x) => x,
    };
    match as_text(member(data, "manifest")) {
        None => None,
        Some(s) => Some(s.clone()),
    }
}

} // verus!

verus! {

/// How many search results are offered for selection.
pub const MAX_HITS: usize = 5;

/// One search result as offered for selection.
#[derive(Debug, Clone, PartialEq, Eq)]
pub struct SearchHit {
    pub title: String,
    pub artist: String,
    pub track: Track,
}

/// The text of a value that is a string, else `fallback`.
pub open spec fn text_or_else(d: Option<JsonModel>, fallback: Seq<char>) -> Seq<char> {
    match text_in(d) {
        Some(s) => s,
        None => fallback,
    }
}

/// The strings among an array's entries, in order.
pub open spec fn strings_in(items: Seq<JsonModel>) -> Seq<Seq<char>>
    decreases items.len(),
{
    if items.len() == 0 {
        seq![]
    } else {
        strings_in(items.drop_last()) + match items.last() {
            JsonModel::Str(s) => seq![s@],
            _ => seq![],
        }
    }
}

pub open spec fn text_views(v: Seq<String>) -> Seq<Seq<char>> {
    v.map_values(|t: String| t@)
}

/// A search item's id: an `i32` cut from its integer, 0 where there is none.
pub open spec fn id_of(item: JsonModel) -> i32 {
    match member_of(item, "id"@) {
        Some(JsonModel::Number(Some(n))) => n as i32,
        _ => 0,
    }
}

/// The strings among a search item's `mediaMetadata.tags`, none where there is no such array.
pub open spec fn tags_of(item: JsonModel) -> Seq<Seq<char>> {
    match array_in(member_in(member_of(item, "mediaMetadata"@), "tags"@)) {
        Some(a) => strings_in(a),
        None => seq![],
    }
}

/// Whether `h` is what a search item reads as, with its fallbacks.
pub open spec fn is_hit_of(h: SearchHit, item: JsonModel) -> bool {
    &&& h.title@ == text_or_else(member_of(item, "title"@), "Unknown Title"@)
    &&& h.artist@ == text_or_else(
        member_in(member_of(item, "artist"@), "name"@),
        "Unknown Artist"@,
    )
    &&& h.track.id == id_of(item)
    &&& h.track.audio_quality@ == text_or_else(member_of(item, "audioQuality"@), "LOSSLESS"@)
    &&& text_views(h.track.tags@) == tags_of(item)
}

/// The `data.items` array of a document.
pub open spec fn items_at(d: Option<JsonModel>) -> Option<Seq<JsonModel>> {
    array_in(member_in(member_in(d, "data"@), "items"@))
}

/// The text of a string value, or `fallback` where there is none.
fn text_or(v: Option<&JsonModel>, fallback: &str) -> (r: String)
    ensures
        r@ == text_or_else(deref_opt(v), fallback@),
{
    match as_text(v) {
        None => fallback.to_owned(),
        Some(s) => s.clone(),
    }
}

/// The strings among a JSON array's entries, in order.
fn string_entries(items: &Vec<JsonModel>) -> (r: Vec<String>)
    ensures
        text_views(r@) == strings_in(items@),
{
    let mut out: Vec<String> = Vec::new();
    let mut i: usize = 0;
    while i < items.len()
        invariant
            i <= items@.len(),
            text_views(out@) == strings_in(items@.subrange(0, i as int)),
        decreases items@.len() - i,
    {
        let ghost before = out@;
        proof {
            let s = items@.subrange(0, i + 1);
            assert(s.drop_last() =~= items@.subrange(0, i as int));
            assert(s.last() == items@[i as int]);
        }
        match &items[i] {
            JsonModel::Str(s) => {
                out.push(s.clone());
                assert(text_views(out@) =~= text_views(before) + seq![s@]);
            },
            _ => {},
        }
        i = i + 1;
    }
    assert(items@.subrange(0, items@.len() as int) =~= items@);
    out
}

/// Reads one search item: its title, artist name, id, advertised quality and tags. A missing
/// title or artist reads as unknown, a missing id as 0, a missing quality as `LOSSLESS`, and
/// missing tags as none; an id beyond `i32` keeps its low 32 bits.
fn search_hit(item: &JsonModel) -> (r: SearchHit)
    ensures
        is_hit_of(r, *item),
{
    let title = text_or(member(item, "title"), "Unknown Title");
    let artist = match member(item, "artist") {
        None => "Unknown Artist".to_owned(),
        Some(a) => text_or(member(a, "name"), "Unknown Artist"),
    };
    let id: i32 = match member(item, "id") {
        Some(JsonModel::Number(Some(n))) => *n as i32,
        _ => 0,
    };
    let audio_quality = text_or(member(item, "audioQuality"), "LOSSLESS");
    let tags = match member(item, "mediaMetadata") {
        None => Vec::new(),
        Some(m) => match as_array(member(m, "tags")) {
            None => Vec::new(),
            Some(items) => string_entries(items),
        },
    };
    assert(text_views(tags@) == tags_of(*item)) by {
        if tags@.len() == 0 {
            assert(text_views(tags@) =~= seq![]);
        }
    }
    SearchHit { title, artist, track: Track { id, audio_quality, tags } }
}

/// Reads the first results, at most `MAX_HITS`, of the search response's `data.items`;
/// `None` where the response is not JSON or holds no such array.
pub fn search_hits(body: &str) -> (r: Option<Vec<SearchHit>>)
    ensures
        match items_at(json_doc(body@)) {
            None => r is None,
            Some(items) => {
                &&& r is Some
                &&& r->Some_0@.len() == if items.len() < MAX_HITS {
                    items.len()
                } else {
                    MAX_HITS as nat
                }
                &&& forall|i: int|
                    0 <= i < r->Some_0@.len() ==> is_hit_of(#[trigger] r->Some_0@[i], items[i])
            },
        },
{
    let doc = match parse_model(body) {
        None => return None,
        Some(d) => d,
    };
    let data = match member(&doc, "data") {
        None => return None,
        Some(x) => x,
    };
    let items = match as_array(member(data, "items")) {
        None => return None,
        Some(a) => a,
    };
    let n = if items.len() < MAX_HITS {
        items.len()
    } else {
        MAX_HITS
    };
    let mut hits: Vec<SearchHit> = Vec::new();
    let mut i: usize = 0;
    while i < n
        invariant
            n <= items@.len(),
            i <= n,
            hits@.len() == i,
            forall|j: int| 0 <= j < i ==> is_hit_of(#[trigger] hits@[j], items@[j]),
        decreases n - i,
    {
        hits.push(search_hit(&items[i]));
        i = i + 1;
    }
    Some(hits)
}

} // verus!

verus! {

pub open spec fn is_digit(c: char) -> bool {
    '0' <= c <= '9'
}

pub open spec fn all_digits(s: Seq<char>) -> bool {
    forall|i: int| 0 <= i < s.len() ==> is_digit(#[trigger] s[i])
}

/// The number that a string of decimal digits writes.
pub open spec fn digits_value(s: Seq<char>) -> nat
    decreases s.len(),
{
    if s.len() == 0 {
        0
    } else {
        digits_value(s.drop_last()) * 10 + ((s.last() as u32 - '0' as u32) as nat)
    }
}

/// What a text reads as an unsigned number: an optional `+`, then one or more decimal digits
/// whose value fits in `usize`.
pub open spec fn usize_parse(s: Seq<char>) -> Option<usize> {
    let body = if s.len() > 0 && s[0] == '+' {
        s.drop_first()
    } else {
        s
    };
    if body.len() > 0 && all_digits(body) && digits_value(body) <= usize::MAX {
        Some(digits_value(body) as usize)
    } else {
        None
    }
}

/// A string of digits writes at least what any of its prefixes writes.
proof fn lemma_prefix_value_le(s: Seq<char>, k: int)
    requires
        all_digits(s),
        0 <= k <= s.len(),
    ensures
        digits_value(s.subrange(0, k)) <= digits_value(s),
    decreases s.len(),
{
    if k < s.len() {
        let t = s.drop_last();
        assert(t.subrange(0, k) =~= s.subrange(0, k));
        assert(all_digits(t)) by {
            assert forall|i: int| 0 <= i < t.len() implies is_digit(#[trigger] t[i]) by {
                assert(t[i] == s[i]);
            }
        }
        lemma_prefix_value_le(t, k);
    } else {
        assert(s.subrange(0, k) =~= s);
    }
}

/// Reads an unsigned number: an optional `+` and decimal digits, as `str::parse::<usize>` does.
pub fn parse_usize(s: &str) -> (r: Option<usize>)
    ensures
        r == usize_parse(s@),
{
    let n = s.unicode_len();
    let start: usize = if n > 0 && s.get_char(0) == '+' {
        1
    } else {
        0
    };
    let ghost body = s@.subrange(start as int, n as int);
    assert(body =~= (if s@.len() > 0 && s@[0] == '+' {
        s@.drop_first()
    } else {
        s@
    }));
    if start >= n {
        return None;
    }
    let mut v: usize = 0;
    let mut i: usize = start;
    while i < n
        invariant
            n == s@.len(),
            start < n,
            start <= i <= n,
            body == s@.subrange(start as int, n as int),
            usize_parse(s@) == if all_digits(body) && digits_value(body) <= usize::MAX {
                Some(digits_value(body) as usize)
            } else {
                None::<usize>
            },
            all_digits(s@.subrange(start as int, i as int)),
            v as nat == digits_value(s@.subrange(start as int, i as int)),
        decreases n - i,
    {
        let c = s.get_char(i);
        let ghost pre = s@.subrange(start as int, i + 1);
        assert(pre.drop_last() =~= s@.subrange(start as int, i as int));
        assert(pre.last() == c);
        if c < '0' || c > '9' {
            assert(body[i - start] == c);
            assert(!is_digit(body[i - start]));
            return None;
        }
        assert(all_digits(pre)) by {
            assert forall|j: int| 0 <= j < pre.len() implies is_digit(#[trigger] pre[j]) by {
                if j < pre.len() - 1 {
                    assert(pre[j] == s@.subrange(start as int, i as int)[j]);
                }
            }
        }
        let d = (c as u32 - '0' as u32) as usize;
        assert(digits_value(pre) == v * 10 + d);
        if v > (usize::MAX - d) / 10 {
            assert(v * 10 + d > usize::MAX) by (nonlinear_arith)
                requires
                    v > (usize::MAX - d) / 10,
                    d <= 9,
            ;
            proof {
                if all_digits(body) {
                    assert(pre =~= body.subrange(0, i + 1 - start));
                    lemma_prefix_value_le(body, i + 1 - start);
                    assert(digits_value(body) > usize::MAX);
                }
            }
            return None;
        }
        assert(v * 10 + d <= usize::MAX) by (nonlinear_arith)
            requires
                v <= (usize::MAX - d) / 10,
                d <= 9,
        ;
        v = v * 10 + d;
        i = i + 1;
    }
    Some(v)
}

/// The index of the result picked by a 1-based choice among `count` results.
pub open spec fn picked(choice: usize, count: usize) -> Option<usize> {
    if 1 <= choice <= count {
        Some((choice - 1) as usize)
    } else {
        None
    }
}

/// The index picked by a 1-based choice; `None` where it is 0 or beyond the results.
pub fn pick_index(choice: usize, count: usize) -> (r: Option<usize>)
    ensures
        r == picked(choice, count),
{
    if choice >= 1 && choice <= count {
        Some(choice - 1)
    } else {
        None
    }
}

/// The index picked by a typed answer: its trimmed text read as a 1-based number, where a
/// text that is no number counts as 0, that is, as no choice.
pub fn selection(input: &str, count: usize) -> (r: Option<usize>)
    ensures
        r == picked(
            match usize_parse(trim_of(input@)) {
                Some(n) => n,
                None => 0,
            },
            count,
        ),
{
    let choice = match parse_usize(trim_text(input)) {
        Some(n) => n,
        None => 0,
    };
    pick_index(choice, count)
}

} // verus!
