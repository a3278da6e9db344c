//! Candidate matching: the shapes returned by the lyrics-metadata search
//! service and the selection of the best candidate song among them, by
//! type filtering and approximate case-insensitive text containment.

use vstd::prelude::*;

use crate::text::contains_seq;
use crate::text::lower_char;
use crate::text::lower_char_exec;
use crate::text::str_to_chars;
use crate::text::contains_chars;

verus! {

/// The artist attached to one search result.
pub struct GeniusArtist {
    pub name: String,
}

/// One entry of the ranked candidate list returned by the search service.
/// `result_type` mirrors the service's optional `type` field.
pub struct GeniusResult {
    pub url: String,
    pub title: String,
    pub primary_artist: GeniusArtist,
    pub result_type: Option<String>,
}

/// One hit wrapping a result, as the search response nests them.
pub struct GeniusHit {
    pub result: GeniusResult,
}

/// The `response` object of the search service's reply.
pub struct GeniusResponseData {
    pub hits: Vec<GeniusHit>,
}

/// The top-level search reply.
pub struct GeniusSearchResponse {
    pub response: GeniusResponseData,
}

impl Clone for GeniusArtist {
    fn clone(&self) -> (r: Self)
        ensures
            r == *self,
    {
        GeniusArtist { name: self.name.clone() }
    }
}

impl Clone for GeniusResult {
    fn clone(&self) -> (r: Self)
        ensures
            r == *self,
    {
        GeniusResult {
            url: self.url.clone(),
            title: self.title.clone(),
            primary_artist: self.primary_artist.clone(),
            result_type: match &self.result_type {
                Some(t) => Some(t.clone()),
                None => None,
            },
        }
    }
}

/// `s` lowercased character by character.
pub open spec fn lower_seq(s: Seq<char>) -> Seq<char> {
    s.map_values(|c: char| lower_char(c))
}

/// Lowercases a string into its character sequence.
pub fn lower_chars(s: &str) -> (r: Vec<char>)
    ensures
        r@ == lower_seq(s@),
{
    let cs = str_to_chars(s);
    let mut r: Vec<char> = Vec::new();
    let mut i: usize = 0;
    while i < cs.len()
        invariant
            i <= cs@.len(),
            cs@ == s@,
            r@ == cs@.subrange(0, i as int).map_values(|c: char| lower_char(c)),
        decreases cs@.len() - i,
    {
        r.push(lower_char_exec(cs[i]));
        i = i + 1;
        proof {
            assert(r@ =~= cs@.subrange(0, i as int).map_values(|c: char| lower_char(c)));
        }
    }
    proof {
        assert(cs@.subrange(0, cs@.len() as int) =~= cs@);
    }
    r
}

/// Lowercases a character vector.
pub fn lower_chars_vec(v: &Vec<char>) -> (r: Vec<char>)
    ensures
        r@ == lower_seq(v@),
{
    let mut r: Vec<char> = Vec::new();
    let mut i: usize = 0;
    while i < v.len()
        invariant
            i <= v@.len(),
            r@ == v@.subrange(0, i as int).map_values(|c: char| lower_char(c)),
        decreases v@.len() - i,
    {
        r.push(lower_char_exec(v[i]));
        i = i + 1;
        proof {
            assert(r@ =~= v@.subrange(0, i as int).map_values(|c: char| lower_char(c)));
        }
    }
    proof {
        assert(v@.subrange(0, v@.len() as int) =~= v@);
    }
    r
}

/// The candidate declares itself a song.
pub open spec fn result_is_song(c: GeniusResult) -> bool {
    match c.result_type {
        Some(t) => t@ == "song"@,
        None => false,
    }
}

/// The candidate is admissible: its declared type is `song`, or, when the
/// type is absent, its URL suggests no non-song content (no literature or
/// book path segment).
pub open spec fn admissible(c: GeniusResult) -> bool {
    match c.result_type {
        Some(t) => t@ == "song"@,
        None => !contains_seq(lower_seq(c.url@), "/literature/"@) && !contains_seq(
            lower_seq(c.url@),
            "/books/"@,
        ),
    }
}

/// The candidate's artist and title approximately match the query, case
/// insensitively: for each of the two fields, either string contains the
/// other.
pub open spec fn text_match(c: GeniusResult, artist: Seq<char>, clean_title: Seq<char>) -> bool {
    let ra = lower_seq(c.primary_artist.name@);
    let sa = lower_seq(artist);
    let rt = lower_seq(c.title@);
    let st = lower_seq(clean_title);
    &&& (contains_seq(ra, sa) || contains_seq(sa, ra))
    &&& (contains_seq(rt, st) || contains_seq(st, rt))
}

/// A hit is a primary pick when it is admissible and its text matches.
pub open spec fn primary_pick(h: GeniusHit, artist: Seq<char>, clean_title: Seq<char>) -> bool {
    admissible(h.result) && text_match(h.result, artist, clean_title)
}

/// A hit qualifies for the fallback pick only when its type is explicitly
/// `song`; absent-type candidates are not accepted there.
pub open spec fn fallback_pick(h: GeniusHit) -> bool {
    result_is_song(h.result)
}

/// Decides whether the candidate declares itself a song.
pub fn result_is_song_exec(c: &GeniusResult) -> (r: bool)
    ensures
        r == result_is_song(*c),
{
    match &c.result_type {
        Some(t) => {
            let song: String = "song".to_owned();
            *t == song
        },
        None => false,
    }
}

/// Decides admissibility.
pub fn admissible_exec(c: &GeniusResult) -> (r: bool)
    ensures
        r == admissible(*c),
{
    match &c.result_type {
        Some(t) => {
            let song: String = "song".to_owned();
            *t == song
        },
        None => {
            let url_lower = lower_chars(c.url.as_str());
            let lit = str_to_chars("/literature/");
            let books = str_to_chars("/books/");
            !contains_chars(&url_lower, &lit) && !contains_chars(&url_lower, &books)
        },
    }
}

/// Decides the approximate text match.
pub fn text_match_exec(c: &GeniusResult, artist: &str, clean_title: &str) -> (r: bool)
    ensures
        r == text_match(*c, artist@, clean_title@),
{
    let ra = lower_chars(c.primary_artist.name.as_str());
    let sa = lower_chars(artist);
    let rt = lower_chars(c.title.as_str());
    let st = lower_chars(clean_title);
    let artist_match = contains_chars(&ra, &sa) || contains_chars(&sa, &ra);
    let title_match = contains_chars(&rt, &st) || contains_chars(&st, &rt);
    artist_match && title_match
}

/// Index `i` is the match's pick: the first primary pick, or, when no
/// primary pick exists at all, the first fallback pick.
pub open spec fn is_selected(
    hits: Seq<GeniusHit>,
    artist: Seq<char>,
    clean_title: Seq<char>,
    i: int,
) -> bool {
    &&& 0 <= i < hits.len()
    &&& ((primary_pick(hits[i], artist, clean_title) && forall|j: int|
        0 <= j < i ==> !primary_pick(hits[j], artist, clean_title)) || (fallback_pick(hits[i]) && (
    forall|j: int| 0 <= j < hits.len() ==> !primary_pick(hits[j], artist, clean_title)) && forall|
        j: int,
    | 0 <= j < i ==> !fallback_pick(hits[j])))
}

/// No hit qualifies, neither as a primary nor as a fallback pick.
pub open spec fn none_selected(hits: Seq<GeniusHit>, artist: Seq<char>, clean_title: Seq<char>) -> bool {
    forall|j: int|
        0 <= j < hits.len() ==> !primary_pick(hits[j], artist, clean_title) && !fallback_pick(
            hits[j],
        )
}

/// Selects the best candidate among the hits: the first admissible hit
/// whose artist and title approximately match the query; failing that, the
/// first hit whose type is explicitly `song`; failing that, none.
pub fn select_candidate(hits: &Vec<GeniusHit>, artist: &str, clean_title: &str) -> (r: Option<
    usize,
>)
    ensures
        match r {
            Some(i) => is_selected(hits@, artist@, clean_title@, i as int),
            None => none_selected(hits@, artist@, clean_title@),
        },
{
    let mut i: usize = 0;
    while i < hits.len()
        invariant
            i <= hits@.len(),
            forall|j: int| 0 <= j < i ==> !primary_pick(hits@[j], artist@, clean_title@),
        decreases hits@.len() - i,
    {
        let h = &hits[i];
        if admissible_exec(&h.result) && text_match_exec(&h.result, artist, clean_title) {
            return Some(i);
        }
        i = i + 1;
    }
    let mut k: usize = 0;
    while k < hits.len()
        invariant
            k <= hits@.len(),
            forall|j: int| 0 <= j < hits@.len() ==> !primary_pick(hits@[j], artist@, clean_title@),
            forall|j: int| 0 <= j < k ==> !fallback_pick(hits@[j]),
        decreases hits@.len() - k,
    {
        if result_is_song_exec(&hits[k].result) {
            return Some(k);
        }
        k = k + 1;
    }
    None
}

/// The raw ranked candidate list cut to the first ten entries, for
/// interactive disambiguation; no type or URL filtering is applied here.
pub fn search_lyrics(resp: &GeniusSearchResponse) -> (r: Vec<GeniusResult>)
    ensures
        r@.len() == if resp.response.hits@.len() < 10 {
            resp.response.hits@.len()
        } else {
            10nat
        },
        forall|i: int| 0 <= i < r@.len() ==> r@[i] == resp.response.hits@[i].result,
{
    let hits = &resp.response.hits;
    let n = if hits.len() < 10 {
        hits.len()
    } else {
        10
    };
    let mut r: Vec<GeniusResult> = Vec::new();
    let mut i: usize = 0;
    while i < n
        invariant
            n <= hits@.len(),
            i <= n,
            r@.len() == i,
            forall|j: int| 0 <= j < i ==> r@[j] == hits@[j].result,
        decreases n - i,
    {
        r.push(hits[i].result.clone());
        i = i + 1;
    }
    r
}

} // verus!
