//! Cache keys: one normalized string identifies one song. Two raw
//! artist/title pairs that differ only by case, leading or trailing
//! whitespace, or the fixed diacritic substitutions yield the same key;
//! the proof functions at the bottom state that law.

use vstd::prelude::*;

use crate::text::is_space;
use crate::text::fold_char;
use crate::text::trim_start_spec;
use crate::text::trim_end_spec;
use crate::text::trim_spec;
use crate::text::normalize_spec;
use crate::text::normalize_string;

verus! {

/// The cache key of a song: normalized artist and normalized title joined
/// by `|`, a separator that normalization never produces from whitespace
/// or letters and that thus keeps the two fields apart.
pub open spec fn cache_key_spec(artist: Seq<char>, title: Seq<char>) -> Seq<char> {
    normalize_spec(artist) + seq!['|'] + normalize_spec(title)
}

/// Derives the cache key identifying the song of a raw artist/title pair.
pub fn cache_key(artist: &str, title: &str) -> (r: String)
    ensures
        r@ == cache_key_spec(artist@, title@),
{
    let mut out = normalize_string(artist);
    let nt = normalize_string(title);
    out.append("|");
    out.append(nt.as_str());
    proof {
        reveal_strlit("|");
        assert(out@ =~= cache_key_spec(artist@, title@));
    }
    out
}

/// Every character of the sequence is whitespace.
pub open spec fn all_space(s: Seq<char>) -> bool {
    forall|i: int| 0 <= i < s.len() ==> is_space(s[i])
}

/// The two sequences have equal length and corresponding characters are
/// variants of one another: equal up to case or up to one of the fixed
/// diacritic substitutions.
pub open spec fn differs_only_by_variants(x: Seq<char>, y: Seq<char>) -> bool {
    &&& x.len() == y.len()
    &&& forall|i: int| 0 <= i < x.len() ==> fold_char(x[i]) == fold_char(y[i])
}

/// The two raw strings differ only by leading/trailing whitespace and by
/// per-character case or diacritic variants.
pub open spec fn differs_only_by_case_space_diacritics(x: Seq<char>, y: Seq<char>) -> bool {
    exists|px: Seq<char>, cx: Seq<char>, qx: Seq<char>, py: Seq<char>, cy: Seq<char>, qy: Seq<char>|
        {
            &&& x == px + cx + qx
            &&& y == py + cy + qy
            &&& all_space(px)
            &&& all_space(qx)
            &&& all_space(py)
            &&& all_space(qy)
            &&& differs_only_by_variants(cx, cy)
        }
}

/// Canonicalization leaves whitespace exactly where it was: a character is
/// whitespace before folding if and only if it is after.
proof fn lemma_fold_preserves_space(c: char)
    ensures
        is_space(fold_char(c)) == is_space(c),
{
}

proof fn lemma_trim_start_drops_space_prefix(p: Seq<char>, t: Seq<char>)
    requires
        all_space(p),
    ensures
        trim_start_spec(p + t) == trim_start_spec(t),
    decreases p.len(),
{
    if p.len() == 0 {
        assert(p + t =~= t);
    } else {
        assert((p + t)[0] == p[0]);
        assert((p + t).subrange(1, (p + t).len() as int) =~= p.subrange(1, p.len() as int) + t);
        lemma_trim_start_drops_space_prefix(p.subrange(1, p.len() as int), t);
    }
}

proof fn lemma_trim_end_drops_space_suffix(t: Seq<char>, q: Seq<char>)
    requires
        all_space(q),
    ensures
        trim_end_spec(t + q) == trim_end_spec(t),
    decreases q.len(),
{
    if q.len() == 0 {
        assert(t + q =~= t);
    } else {
        assert((t + q)[(t + q).len() - 1] == q[q.len() - 1]);
        assert((t + q).subrange(0, (t + q).len() - 1) =~= t + q.subrange(0, q.len() - 1));
        lemma_trim_end_drops_space_suffix(t, q.subrange(0, q.len() - 1));
    }
}

proof fn lemma_trim_start_all_space(s: Seq<char>)
    requires
        all_space(s),
    ensures
        trim_start_spec(s) =~= Seq::<char>::empty(),
    decreases s.len(),
{
    if s.len() > 0 {
        lemma_trim_start_all_space(s.subrange(1, s.len() as int));
    }
}

/// Law: surrounding a string with whitespace does not change its
/// normalized form.
pub proof fn lemma_normalize_ignores_padding(p: Seq<char>, s: Seq<char>, q: Seq<char>)
    requires
        all_space(p),
        all_space(q),
    ensures
        normalize_spec(p + s + q) == normalize_spec(s),
{
    assert(p + s + q =~= p + (s + q));
    lemma_trim_start_drops_space_prefix(p, s + q);
    // Either some character of `s` survives start-trimming or `s` is all
    // whitespace; the two cases are handled separately.
    if trim_start_spec(s).len() > 0 {
        lemma_trim_start_suffix_concat(s, q);
        lemma_trim_end_drops_space_suffix(trim_start_spec(s), q);
    } else {
        // `s` is all whitespace, so start-trimming walks on into `q`.
        lemma_trim_start_empty_means_space(s);
        lemma_trim_start_drops_space_prefix(s, q);
        lemma_trim_start_all_space(q);
        assert(trim_spec(s) =~= Seq::<char>::empty());
        assert(normalize_spec(p + s + q) =~= normalize_spec(s));
    }
}

/// If start-trimming leaves nothing, every character was whitespace.
proof fn lemma_trim_start_empty_means_space(s: Seq<char>)
    requires
        trim_start_spec(s).len() == 0,
    ensures
        all_space(s),
    decreases s.len(),
{
    if s.len() > 0 {
        assert(is_space(s[0]));
        lemma_trim_start_empty_means_space(s.subrange(1, s.len() as int));
        assert(forall|i: int|
            1 <= i < s.len() ==> is_space(#[trigger] s.subrange(1, s.len() as int)[i - 1]));
        assert(forall|i: int| 1 <= i < s.len() ==> s[i] == s.subrange(1, s.len() as int)[i - 1]);
    }
}

/// When something survives start-trimming `s`, appending `q` trims the same
/// prefix and keeps `q` attached.
proof fn lemma_trim_start_suffix_concat(s: Seq<char>, q: Seq<char>)
    requires
        trim_start_spec(s).len() > 0,
    ensures
        trim_start_spec(s + q) == trim_start_spec(s) + q,
    decreases s.len(),
{
    if s.len() == 0 {
    } else if is_space(s[0]) {
        let t = s.subrange(1, s.len() as int);
        assert((s + q).subrange(1, (s + q).len() as int) =~= t + q);
        lemma_trim_start_suffix_concat(t, q);
    } else {
        assert(!is_space((s + q)[0]));
        assert(trim_start_spec(s + q) == s + q);
        assert(trim_start_spec(s) == s);
    }
}

proof fn lemma_trim_start_variants(x: Seq<char>, y: Seq<char>)
    requires
        differs_only_by_variants(x, y),
    ensures
        differs_only_by_variants(trim_start_spec(x), trim_start_spec(y)),
    decreases x.len(),
{
    if x.len() == 0 {
    } else {
        lemma_fold_preserves_space(x[0]);
        lemma_fold_preserves_space(y[0]);
        if is_space(x[0]) {
            let xt = x.subrange(1, x.len() as int);
            let yt = y.subrange(1, y.len() as int);
            assert(differs_only_by_variants(xt, yt));
            lemma_trim_start_variants(xt, yt);
        }
    }
}

proof fn lemma_trim_end_variants(x: Seq<char>, y: Seq<char>)
    requires
        differs_only_by_variants(x, y),
    ensures
        differs_only_by_variants(trim_end_spec(x), trim_end_spec(y)),
    decreases x.len(),
{
    if x.len() == 0 {
    } else {
        lemma_fold_preserves_space(x[x.len() - 1]);
        lemma_fold_preserves_space(y[y.len() - 1]);
        if is_space(x[x.len() - 1]) {
            let xt = x.subrange(0, x.len() - 1);
            let yt = y.subrange(0, y.len() - 1);
            assert(differs_only_by_variants(xt, yt));
            lemma_trim_end_variants(xt, yt);
        }
    }
}

/// Law: strings equal up to per-character case or diacritic variants
/// normalize identically.
pub proof fn lemma_normalize_ignores_variants(x: Seq<char>, y: Seq<char>)
    requires
        differs_only_by_variants(x, y),
    ensures
        normalize_spec(x) == normalize_spec(y),
{
    lemma_trim_start_variants(x, y);
    lemma_trim_end_variants(trim_start_spec(x), trim_start_spec(y));
    assert(normalize_spec(x) =~= normalize_spec(y));
}

/// Law: for all artist/title pairs differing only by case, leading or
/// trailing whitespace, or the fixed diacritic substitutions, the derived
/// cache keys are identical.
pub proof fn lemma_cache_key_insensitive(
    artist1: Seq<char>,
    title1: Seq<char>,
    artist2: Seq<char>,
    title2: Seq<char>,
)
    requires
        differs_only_by_case_space_diacritics(artist1, artist2),
        differs_only_by_case_space_diacritics(title1, title2),
    ensures
        cache_key_spec(artist1, title1) == cache_key_spec(artist2, title2),
{
    lemma_normalize_equiv(artist1, artist2);
    lemma_normalize_equiv(title1, title2);
}

/// Law: two raw strings related by `differs_only_by_case_space_diacritics`
/// have the same normalized form.
pub proof fn lemma_normalize_equiv(x: Seq<char>, y: Seq<char>)
    requires
        differs_only_by_case_space_diacritics(x, y),
    ensures
        normalize_spec(x) == normalize_spec(y),
{
    let (px, cx, qx, py, cy, qy) = choose|px: Seq<char>, cx: Seq<char>, qx: Seq<char>, py: Seq<char>, cy: Seq<char>, qy: Seq<char>|
        {
            &&& x == px + cx + qx
            &&& y == py + cy + qy
            &&& all_space(px)
            &&& all_space(qx)
            &&& all_space(py)
            &&& all_space(qy)
            &&& differs_only_by_variants(cx, cy)
        };
    lemma_normalize_ignores_padding(px, cx, qx);
    lemma_normalize_ignores_padding(py, cy, qy);
    lemma_normalize_ignores_variants(cx, cy);
}

} // verus!
