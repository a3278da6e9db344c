//! Lyrics extraction: turns a fetched song page's markup into raw
//! line-oriented text. All elements flagged with the stable
//! `data-lyrics-container` attribute are selected; inside each, text is
//! appended verbatim, each `br` element becomes a newline, and a blank-line
//! separator follows each container. The final text is trimmed; an empty
//! result is an extraction failure, signalling that the page structure did
//! not match expectations.

use vstd::prelude::*;

use crate::errors::LyricsError;
use crate::text::is_space;
use crate::text::is_space_char;
use crate::text::contains_seq;
use crate::text::contains_chars;
use crate::text::find_char_from;
use crate::text::str_to_chars;
use crate::text::subvec;
use crate::text::trim_spec;
use crate::text::trim_chars;
use crate::text::chars_to_string;
use crate::search::lower_seq;

verus! {

/// The first index at or after `from` holding `c`, or the length of `s`.
pub open spec fn first_from(s: Seq<char>, from: int, c: char) -> int
    decreases s.len() - from,
{
    if from < 0 || from >= s.len() {
        s.len() as int
    } else if s[from] == c {
        from
    } else {
        first_from(s, from + 1, c)
    }
}

/// `first_from` stays within `[from, s.len()]`.
pub proof fn lemma_first_from_bounds(s: Seq<char>, from: int, c: char)
    requires
        0 <= from <= s.len(),
    ensures
        from <= first_from(s, from, c) <= s.len(),
    decreases s.len() - from,
{
    if from < s.len() && s[from] != c {
        lemma_first_from_bounds(s, from + 1, c);
    }
}

/// Characterizes `first_from` by the facts an executable search returns.
pub proof fn lemma_first_from(s: Seq<char>, from: int, c: char, j: int)
    requires
        0 <= from <= j <= s.len(),
        forall|k: int| from <= k < j ==> s[k] != c,
        j < s.len() ==> s[j] == c,
    ensures
        first_from(s, from, c) == if j < s.len() {
            j
        } else {
            s.len() as int
        },
    decreases j - from,
{
    if from < j {
        lemma_first_from(s, from + 1, c, j);
    }
}

/// The tag text names a closing tag.
pub open spec fn tag_is_closing(tc: Seq<char>) -> bool {
    tc.len() > 0 && tc[0] == '/'
}

/// Where the element name inside the tag text ends: the first whitespace
/// or slash at or after `from`, or the end of the tag text.
pub open spec fn name_end_from(tc: Seq<char>, from: int) -> int
    decreases tc.len() - from,
{
    if from < 0 || from >= tc.len() {
        tc.len() as int
    } else if is_space(tc[from]) || tc[from] == '/' {
        from
    } else {
        name_end_from(tc, from + 1)
    }
}

proof fn lemma_name_end_from(tc: Seq<char>, from: int, j: int)
    requires
        0 <= from <= j <= tc.len(),
        forall|k: int| from <= k < j ==> !is_space(tc[k]) && tc[k] != '/',
        j < tc.len() ==> (is_space(tc[j]) || tc[j] == '/'),
    ensures
        name_end_from(tc, from) == j,
    decreases j - from,
{
    if from < j {
        lemma_name_end_from(tc, from + 1, j);
    }
}

/// The element name of the tag text, lowercased: the characters after the
/// optional leading slash, up to the first whitespace or slash.
pub open spec fn tag_name_of(tc: Seq<char>) -> Seq<char> {
    let start: int = if tag_is_closing(tc) {
        1
    } else {
        0
    };
    lower_seq(tc.subrange(start, name_end_from(tc, start)))
}

/// The tag text opens a lyrics container: it is not a closing tag and it
/// carries the container marker attribute (with either quoting).
pub open spec fn tag_opens_container(tc: Seq<char>) -> bool {
    &&& !tag_is_closing(tc)
    &&& (contains_seq(tc, "data-lyrics-container=\"true\""@) || contains_seq(
        tc,
        "data-lyrics-container='true'"@,
    ))
}

/// The text contributed by the document from position `p` onward while
/// outside any lyrics container: nothing until a container opens.
pub open spec fn scan_outside(h: Seq<char>, p: int) -> Seq<char>
    decreases h.len() - p, 0nat,
        via scan_outside_decreases
{
    if p < 0 || p >= h.len() {
        Seq::<char>::empty()
    } else if h[p] == '<' {
        let q = first_from(h, p + 1, '>');
        if q >= h.len() {
            Seq::<char>::empty()
        } else {
            let tc = h.subrange(p + 1, q);
            if tag_opens_container(tc) {
                scan_inside(h, q + 1, tag_name_of(tc), 1)
            } else {
                scan_outside(h, q + 1)
            }
        }
    } else {
        scan_outside(h, p + 1)
    }
}

/// The text contributed from position `p` onward while inside a container
/// element named `nm`, `d` levels deep: text characters verbatim, a
/// newline for each `br`, a blank-line separator when the container
/// closes, nothing for an unterminated container's missing close.
pub open spec fn scan_inside(h: Seq<char>, p: int, nm: Seq<char>, d: int) -> Seq<char>
    decreases h.len() - p, 1nat,
        via scan_inside_decreases
{
    if p < 0 || p >= h.len() {
        Seq::<char>::empty()
    } else if h[p] == '<' {
        let q = first_from(h, p + 1, '>');
        if q >= h.len() {
            Seq::<char>::empty()
        } else {
            let tc = h.subrange(p + 1, q);
            if tag_is_closing(tc) && tag_name_of(tc) == nm {
                if d <= 1 {
                    seq!['\n', '\n'] + scan_outside(h, q + 1)
                } else {
                    scan_inside(h, q + 1, nm, d - 1)
                }
            } else if !tag_is_closing(tc) && tag_name_of(tc) == nm {
                scan_inside(h, q + 1, nm, d + 1)
            } else if !tag_is_closing(tc) && tag_name_of(tc) == "br"@ {
                seq!['\n'] + scan_inside(h, q + 1, nm, d)
            } else {
                scan_inside(h, q + 1, nm, d)
            }
        }
    } else {
        seq![h[p]] + scan_inside(h, p + 1, nm, d)
    }
}

#[via_fn]
proof fn scan_outside_decreases(h: Seq<char>, p: int) {
    if 0 <= p < h.len() {
        lemma_first_from_bounds(h, p + 1, '>');
    }
}

#[via_fn]
proof fn scan_inside_decreases(h: Seq<char>, p: int, nm: Seq<char>, d: int) {
    if 0 <= p < h.len() {
        lemma_first_from_bounds(h, p + 1, '>');
    }
}

/// The extracted raw lyrics of a page: the concatenated container text,
/// trimmed.
pub open spec fn extract_spec(h: Seq<char>) -> Seq<char> {
    trim_spec(scan_outside(h, 0))
}

/// Compares two character vectors.
fn chars_eq(a: &Vec<char>, b: &Vec<char>) -> (r: bool)
    ensures
        r == (a@ == b@),
{
    if a.len() != b.len() {
        return false;
    }
    let mut i: usize = 0;
    while i < a.len()
        invariant
            a@.len() == b@.len(),
            i <= a@.len(),
            forall|k: int| 0 <= k < i ==> a@[k] == b@[k],
        decreases a@.len() - i,
    {
        if a[i] != b[i] {
            return false;
        }
        i = i + 1;
    }
    proof {
        assert(a@ =~= b@);
    }
    true
}

/// Computes the lowercased element name of a tag text.
fn tag_name_exec(tc: &Vec<char>) -> (r: Vec<char>)
    ensures
        r@ == tag_name_of(tc@),
{
    let closing = tc.len() > 0 && tc[0] == '/';
    let start: usize = if closing {
        1
    } else {
        0
    };
    let mut e: usize = start;
    while e < tc.len() && !is_space_char(tc[e]) && tc[e] != '/'
        invariant
            start <= e <= tc@.len(),
            forall|k: int| start <= k < e ==> !is_space(tc@[k]) && tc@[k] != '/',
        decreases tc@.len() - e,
    {
        e = e + 1;
    }
    proof {
        lemma_name_end_from(tc@, start as int, e as int);
    }
    let raw = subvec(tc, start, e);
    crate::search::lower_chars_vec(&raw)
}

/// Decides whether the tag text opens a lyrics container.
fn tag_opens_container_exec(tc: &Vec<char>) -> (r: bool)
    ensures
        r == tag_opens_container(tc@),
{
    let closing = tc.len() > 0 && tc[0] == '/';
    if closing {
        return false;
    }
    let dq = str_to_chars("data-lyrics-container=\"true\"");
    let sq = str_to_chars("data-lyrics-container='true'");
    contains_chars(tc, &dq) || contains_chars(tc, &sq)
}

/// Extracts the raw lyric text from a song page's markup. Fails exactly
/// when the extracted, trimmed text is empty: the page held no
/// lyrics-container text.
pub fn extract_raw_lyrics_from_html(html: &str) -> (r: Result<String, LyricsError>)
    ensures
        match r {
            Ok(s) => s@ == extract_spec(html@) && s@.len() > 0,
            Err(e) => e is Extraction && extract_spec(html@).len() == 0,
        },
{
    let h = str_to_chars(html);
    let n = h.len();
    let mut out: Vec<char> = Vec::new();
    let mut inside = false;
    let mut nm: Vec<char> = Vec::new();
    let mut depth: usize = 0;
    let mut p: usize = 0;
    let br = str_to_chars("br");
    proof {
        assert(Seq::<char>::empty() + scan_outside(h@, 0) =~= scan_outside(h@, 0));
    }
    while p < n
        invariant
            n == h@.len(),
            p <= n,
            br@ == "br"@,
            inside ==> depth >= 1 && depth <= p,
            scan_outside(h@, 0) == out@ + (if inside {
                scan_inside(h@, p as int, nm@, depth as int)
            } else {
                scan_outside(h@, p as int)
            }),
        decreases n - p,
    {
        if h[p] == '<' {
            match find_char_from(&h, p + 1, '>') {
                None => {
                    proof {
                        lemma_first_from(h@, p + 1, '>', n as int);
                    }
                    p = n;
                },
                Some(q) => {
                    proof {
                        lemma_first_from(h@, p + 1, '>', q as int);
                    }
                    let tc = subvec(&h, p + 1, q);
                    if !inside {
                        if tag_opens_container_exec(&tc) {
                            nm = tag_name_exec(&tc);
                            depth = 1;
                            inside = true;
                        }
                    } else {
                        let closing = tc.len() > 0 && tc[0] == '/';
                        let name = tag_name_exec(&tc);
                        if closing && chars_eq(&name, &nm) {
                            if depth == 1 {
                                let ghost prev = out@;
                                out.push('\n');
                                out.push('\n');
                                inside = false;
                                proof {
                                    assert(out@ =~= prev + seq!['\n', '\n']);
                                    assert(prev + (seq!['\n', '\n'] + scan_outside(h@, q + 1))
                                        =~= out@ + scan_outside(h@, q + 1));
                                }
                            } else {
                                depth = depth - 1;
                            }
                        } else if !closing && chars_eq(&name, &nm) {
                            depth = depth + 1;
                        } else if !closing && chars_eq(&name, &br) {
                            let ghost prev = out@;
                            out.push('\n');
                            proof {
                                assert(out@ =~= prev + seq!['\n']);
                                assert(prev + (seq!['\n'] + scan_inside(h@, q + 1, nm@, depth as int))
                                    =~= out@ + scan_inside(h@, q + 1, nm@, depth as int));
                            }
                        }
                    }
                    p = q + 1;
                },
            }
        } else {
            if inside {
                let ghost prev = out@;
                out.push(h[p]);
                proof {
                    assert(out@ =~= prev + seq![h@[p as int]]);
                    assert(prev + (seq![h@[p as int]] + scan_inside(h@, p + 1, nm@, depth as int))
                        =~= out@ + scan_inside(h@, p + 1, nm@, depth as int));
                }
            }
            p = p + 1;
        }
    }
    let trimmed = trim_chars(&out);
    if trimmed.len() == 0 {
        Err(LyricsError::Extraction)
    } else {
        Ok(chars_to_string(&trimmed))
    }
}

} // verus!
