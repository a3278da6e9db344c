//! The persistent content cache's in-memory shape: three mappings keyed by
//! the normalized cache key, one for lyrics, two structurally identical
//! siblings for artist summaries and song context. A lyrics entry is only
//! handed out when it passes the validity test that distinguishes genuine
//! lyrics from mis-cached prose; entries written by an older, buggier
//! writer may violate it, so every read re-validates.

use vstd::prelude::*;

use crate::text::contains_seq;
use crate::text::str_contains;
use crate::text::trim_spec;
use crate::text::trim_chars;
use crate::text::str_to_chars;

verus! {

/// True of every key-value sequence without repeated keys.
pub open spec fn distinct_keys(es: Seq<(String, String)>) -> bool {
    forall|i: int, j: int| 0 <= i < j < es.len() ==> es[i].0@ != es[j].0@
}

/// Some entry carries the key.
pub open spec fn has_key(es: Seq<(String, String)>, k: Seq<char>) -> bool {
    exists|i: int| 0 <= i < es.len() && es[i].0@ == k
}

/// The mathematical mapping an entry sequence denotes.
pub open spec fn map_of(es: Seq<(String, String)>) -> Map<Seq<char>, Seq<char>> {
    Map::new(
        |k: Seq<char>| has_key(es, k),
        |k: Seq<char>|
            {
                let i = choose|i: int| 0 <= i < es.len() && es[i].0@ == k;
                es[i].1@
            },
    )
}

/// With distinct keys, the entry at any witnessing index gives the map's
/// value.
proof fn lemma_map_of_at(es: Seq<(String, String)>, i: int)
    requires
        distinct_keys(es),
        0 <= i < es.len(),
    ensures
        map_of(es).contains_key(es[i].0@),
        map_of(es)[es[i].0@] == es[i].1@,
{
    let k = es[i].0@;
    let j = choose|j: int| 0 <= j < es.len() && es[j].0@ == k;
    if j != i {
        assert(es[i].0@ != es[j].0@);
    }
}

/// Finds the index of the entry carrying the key, if any.
fn find_key(es: &Vec<(String, String)>, key: &String) -> (r: Option<usize>)
    ensures
        match r {
            Some(i) => i < es@.len() && es@[i as int].0@ == key@ && forall|j: int|
                0 <= j < i ==> es@[j].0@ != key@,
            None => forall|j: int| 0 <= j < es@.len() ==> es@[j].0@ != key@,
        },
{
    let mut i: usize = 0;
    while i < es.len()
        invariant
            i <= es@.len(),
            forall|j: int| 0 <= j < i ==> es@[j].0@ != key@,
        decreases es@.len() - i,
    {
        if es[i].0 == *key {
            return Some(i);
        }
        i = i + 1;
    }
    None
}

/// One string-to-string mapping of the cache.
pub struct StringMap {
    entries: Vec<(String, String)>,
}

impl StringMap {
    /// No key occurs twice among the entries.
    #[verifier::type_invariant]
    pub closed spec fn wf(self) -> bool {
        distinct_keys(self.entries@)
    }
}

impl View for StringMap {
    type V = Map<Seq<char>, Seq<char>>;

    closed spec fn view(&self) -> Map<Seq<char>, Seq<char>> {
        map_of(self.entries@)
    }
}

impl StringMap {
    /// An empty mapping.
    pub fn new() -> (r: Self)
        ensures
            r@ == Map::<Seq<char>, Seq<char>>::empty(),
    {
        let r = StringMap { entries: Vec::new() };
        proof {
            assert(r@ =~~= Map::<Seq<char>, Seq<char>>::empty());
        }
        r
    }

    /// How many entries the mapping holds.
    pub fn len(&self) -> (r: usize)
        ensures
            r == self@.dom().len(),
    {
        proof {
            use_type_invariant(self);
            lemma_map_dom_len(self.entries@);
        }
        self.entries.len()
    }

    /// Looks the key up.
    pub fn get(&self, key: &str) -> (r: Option<String>)
        ensures
            match r {
                Some(v) => self@.contains_key(key@) && v@ == self@[key@],
                None => !self@.contains_key(key@),
            },
    {
        proof {
            use_type_invariant(self);
        }
        let k: String = key.to_owned();
        let mut i: usize = 0;
        while i < self.entries.len()
            invariant
                i <= self.entries@.len(),
                k@ == key@,
                distinct_keys(self.entries@),
                forall|j: int| 0 <= j < i ==> self.entries@[j].0@ != key@,
            decreases self.entries@.len() - i,
        {
            if self.entries[i].0 == k {
                proof {
                    lemma_map_of_at(self.entries@, i as int);
                }
                return Some(self.entries[i].1.clone());
            }
            i = i + 1;
        }
        None
    }

    /// The entries as a list of pairs, with distinct keys, denoting
    /// exactly this mapping.
    pub fn to_pairs(&self) -> (r: Vec<(String, String)>)
        ensures
            distinct_keys(r@),
            map_of(r@) == self@,
    {
        proof {
            use_type_invariant(self);
        }
        let mut r: Vec<(String, String)> = Vec::new();
        let mut i: usize = 0;
        while i < self.entries.len()
            invariant
                i <= self.entries@.len(),
                distinct_keys(self.entries@),
                r@.len() == i,
                forall|j: int| 0 <= j < i ==> r@[j] == self.entries@[j],
            decreases self.entries@.len() - i,
        {
            let e = &self.entries[i];
            r.push((e.0.clone(), e.1.clone()));
            i = i + 1;
        }
        proof {
            assert(r@ =~= self.entries@);
        }
        r
    }

    /// Inserts the pair, overwriting any entry under the same key.
    pub fn insert(&mut self, key: String, value: String)
        ensures
            final(self)@ == old(self)@.insert(key@, value@),
    {
        proof {
            use_type_invariant(&*self);
        }
        let ghost oldes = self.entries@;
        let n = self.entries.len();
        let idx = find_key(&self.entries, &key);
        let mut kept: Vec<(String, String)> = Vec::new();
        let skip: usize = match idx {
            Some(i) => i,
            None => n,
        };
        proof {
            assert forall|t: int| 0 <= t < n && t != skip implies self.entries@[t].0@ != key@ by {
                if skip < n && t > skip {
                    assert(self.entries@[skip as int].0@ != self.entries@[t].0@);
                }
            }
        }
        let mut j: usize = 0;
        while j < n
            invariant
                j <= n,
                skip <= n,
                n == self.entries@.len(),
                skip < n ==> self.entries@[skip as int].0@ == key@,
                forall|t: int| 0 <= t < n && t != skip ==> self.entries@[t].0@ != key@,
                kept@.len() == if j <= skip {
                    j as int
                } else {
                    j - 1
                },
                forall|t: int| 0 <= t < kept@.len() ==> kept@[t] == self.entries@[
                    if t < skip {
                        t
                    } else {
                        t + 1
                    }
                ],
            decreases n - j,
        {
            if j != skip {
                let e = &self.entries[j];
                kept.push((e.0.clone(), e.1.clone()));
            }
            j = j + 1;
        }
        kept.push((key, value));
        let ghost key_v = key@;
        let ghost value_v = value@;
        proof {
            let newes = kept@;
            let m = newes.len() - 1;
            assert(newes[m].0@ == key_v && newes[m].1@ == value_v);
            // Every retained entry keeps another key, so the keys stay
            // distinct and the denoted map gains exactly one binding.
            assert(distinct_keys(newes));
            let target = map_of(oldes).insert(key_v, value_v);
            assert forall|k2: Seq<char>| #[trigger] target.contains_key(k2) implies map_of(
                newes,
            ).contains_key(k2) && map_of(newes)[k2] == target[k2] by {
                if k2 == key_v {
                    lemma_map_of_at(newes, m);
                } else {
                    let i2 = choose|t: int| 0 <= t < oldes.len() && oldes[t].0@ == k2;
                    lemma_map_of_at(oldes, i2);
                    let t2: int = if i2 < skip {
                        i2
                    } else {
                        i2 - 1
                    };
                    assert(newes[t2] == oldes[i2]);
                    lemma_map_of_at(newes, t2);
                }
            }
            assert forall|k2: Seq<char>| #[trigger] map_of(newes).contains_key(k2)
                implies target.contains_key(k2) by {
                if k2 != key_v {
                    let t3 = choose|t: int| 0 <= t < newes.len() && newes[t].0@ == k2;
                    assert(t3 != m);
                    assert(newes[t3] == oldes[
                        if t3 < skip {
                            t3
                        } else {
                            t3 + 1
                        }
                    ]);
                    assert(has_key(oldes, k2));
                }
            }
            assert(map_of(newes) =~~= target);
        }
        self.entries = kept;
    }
}

/// The cached value looks like narrative prose rather than lyrics: it
/// carries a narrative marker, or it is long, holds the word `the` between
/// spaces, and has neither a chorus nor a verse section marker. Such
/// entries stem from a historical bug that mis-cached literature pages;
/// they are treated as absent so the caller re-resolves and overwrites.
pub open spec fn looks_like_prose(v: Seq<char>) -> bool {
    ||| contains_seq(v, "he said"@)
    ||| contains_seq(v, "she said"@)
    ||| contains_seq(v, "he sat"@)
    ||| contains_seq(v, "she sat"@)
    ||| (contains_seq(v, " the "@) && v.len() > 500 && !contains_seq(v, "[Chorus]"@)
        && !contains_seq(v, "[Verse]"@))
}

/// Decides the validity test on a cached lyrics value.
pub fn looks_like_prose_exec(v: &str) -> (r: bool)
    ensures
        r == looks_like_prose(v@),
{
    let cs = str_to_chars(v);
    if str_contains(v, "he said") || str_contains(v, "she said") || str_contains(v, "he sat")
        || str_contains(v, "she sat") {
        return true;
    }
    str_contains(v, " the ") && cs.len() > 500 && !str_contains(v, "[Chorus]") && !str_contains(
        v,
        "[Verse]",
    )
}

/// The sibling maps' usefulness test: a cached artist summary or song
/// context is usable only when it is non-empty after trimming; empty
/// values left by earlier failed calls are treated as absent.
pub open spec fn usable_info(v: Seq<char>) -> bool {
    trim_spec(v).len() > 0
}

/// The full cached content: lyrics plus the two sibling maps, all keyed by
/// the normalized cache key.
pub struct CachedData {
    pub artist_info: StringMap,
    pub song_context: StringMap,
    pub lyrics: StringMap,
}

impl CachedData {
    /// An empty store: what loading yields when the persisted file is
    /// missing or unparsable.
    pub fn new() -> (r: Self)
        ensures
            r.artist_info@ == Map::<Seq<char>, Seq<char>>::empty(),
            r.song_context@ == Map::<Seq<char>, Seq<char>>::empty(),
            r.lyrics@ == Map::<Seq<char>, Seq<char>>::empty(),
    {
        CachedData { artist_info: StringMap::new(), song_context: StringMap::new(), lyrics: StringMap::new() }
    }

    /// Looks up cached lyrics, re-validating on every read: an entry that
    /// looks like prose is treated as absent, forcing re-resolution.
    pub fn get_lyrics(&self, key: &str) -> (r: Option<String>)
        ensures
            match r {
                Some(v) => self.lyrics@.contains_key(key@) && v@ == self.lyrics@[key@]
                    && !looks_like_prose(v@),
                None => !self.lyrics@.contains_key(key@) || looks_like_prose(self.lyrics@[key@]),
            },
    {
        match self.lyrics.get(key) {
            Some(v) => {
                if looks_like_prose_exec(v.as_str()) {
                    None
                } else {
                    Some(v)
                }
            },
            None => None,
        }
    }

    /// Inserts or overwrites cached lyrics.
    pub fn update_lyrics(&mut self, key: String, value: String)
        ensures
            final(self).lyrics@ == old(self).lyrics@.insert(key@, value@),
            final(self).artist_info@ == old(self).artist_info@,
            final(self).song_context@ == old(self).song_context@,
    {
        self.lyrics.insert(key, value);
    }

    /// Looks up a cached artist summary; an entry that is empty after
    /// trimming is treated as absent.
    pub fn get_artist_info(&self, key: &str) -> (r: Option<String>)
        ensures
            match r {
                Some(v) => self.artist_info@.contains_key(key@) && v@ == self.artist_info@[key@]
                    && usable_info(v@),
                None => !self.artist_info@.contains_key(key@) || !usable_info(
                    self.artist_info@[key@],
                ),
            },
    {
        match self.artist_info.get(key) {
            Some(v) => {
                let t = trim_chars(&str_to_chars(v.as_str()));
                if t.len() > 0 {
                    Some(v)
                } else {
                    None
                }
            },
            None => None,
        }
    }

    /// Inserts or overwrites a cached artist summary.
    pub fn update_artist_info(&mut self, key: String, value: String)
        ensures
            final(self).artist_info@ == old(self).artist_info@.insert(key@, value@),
            final(self).song_context@ == old(self).song_context@,
            final(self).lyrics@ == old(self).lyrics@,
    {
        self.artist_info.insert(key, value);
    }

    /// Looks up cached song context; an entry that is empty after trimming
    /// is treated as absent.
    pub fn get_song_context(&self, key: &str) -> (r: Option<String>)
        ensures
            match r {
                Some(v) => self.song_context@.contains_key(key@) && v@ == self.song_context@[key@]
                    && usable_info(v@),
                None => !self.song_context@.contains_key(key@) || !usable_info(
                    self.song_context@[key@],
                ),
            },
    {
        match self.song_context.get(key) {
            Some(v) => {
                let t = trim_chars(&str_to_chars(v.as_str()));
                if t.len() > 0 {
                    Some(v)
                } else {
                    None
                }
            },
            None => None,
        }
    }

    /// Inserts or overwrites cached song context.
    pub fn update_song_context(&mut self, key: String, value: String)
        ensures
            final(self).song_context@ == old(self).song_context@.insert(key@, value@),
            final(self).artist_info@ == old(self).artist_info@,
            final(self).lyrics@ == old(self).lyrics@,
    {
        self.song_context.insert(key, value);
    }
}

/// The domain of the denoted map has as many keys as there are entries,
/// keys being distinct.
proof fn lemma_map_dom_len(es: Seq<(String, String)>)
    requires
        distinct_keys(es),
    ensures
        map_of(es).dom().len() == es.len(),
        map_of(es).dom().finite(),
    decreases es.len(),
{
    if es.len() == 0 {
        assert(map_of(es).dom() =~= Set::<Seq<char>>::empty());
    } else {
        let head = es.subrange(0, es.len() - 1);
        lemma_map_dom_len(head);
        let last_key = es[es.len() - 1].0@;
        assert(forall|i: int| 0 <= i < head.len() ==> head[i] == es[i]);
        assert(!has_key(head, last_key));
        assert(map_of(es).dom() =~= map_of(head).dom().insert(last_key));
        vstd::set::axiom_set_insert_len(map_of(head).dom(), last_key);
    }
}

} // verus!
