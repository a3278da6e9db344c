//! Character-level canonicalization: whitespace trimming, case folding over
//! the Latin range the key scheme cares about, and the fixed diacritic table
//! used to derive cache keys.

use vstd::prelude::*;

verus! {

/// Characters treated as whitespace when trimming.
pub open spec fn is_space(c: char) -> bool {
    c == ' ' || c == '\t' || c == '\n' || c == '\r' || c == '\u{b}' || c == '\u{c}'
}

/// Executable whitespace test.
pub fn is_space_char(c: char) -> (r: bool)
    ensures
        r == is_space(c),
{
    c == ' ' || c == '\t' || c == '\n' || c == '\r' || c == '\u{b}' || c == '\u{c}'
}

/// Lowercases ASCII letters and the accented Latin letters of the diacritic
/// table; every other character passes through unchanged.
pub open spec fn lower_char(c: char) -> char {
    if 'A' <= c && c <= 'Z' {
        ((c as u8) + 32) as char
    } else {
        match c {
            '\u{c0}' => '\u{e0}',  // A-grave
            '\u{c1}' => '\u{e1}',  // A-acute
            '\u{c2}' => '\u{e2}',  // A-circumflex
            '\u{c3}' => '\u{e3}',  // A-tilde
            '\u{c5}' => '\u{e5}',  // A-ring
            '\u{c7}' => '\u{e7}',  // C-cedilla
            '\u{c8}' => '\u{e8}',  // E-grave
            '\u{c9}' => '\u{e9}',  // E-acute
            '\u{ca}' => '\u{ea}',  // E-circumflex
            '\u{cc}' => '\u{ec}',  // I-grave
            '\u{cd}' => '\u{ed}',  // I-acute
            '\u{ce}' => '\u{ee}',  // I-circumflex
            '\u{d1}' => '\u{f1}',  // N-tilde
            '\u{d2}' => '\u{f2}',  // O-grave
            '\u{d3}' => '\u{f3}',  // O-acute
            '\u{d4}' => '\u{f4}',  // O-circumflex
            '\u{d5}' => '\u{f5}',  // O-tilde
            '\u{d9}' => '\u{f9}',  // U-grave
            '\u{da}' => '\u{fa}',  // U-acute
            '\u{db}' => '\u{fb}',  // U-circumflex
            '\u{dd}' => '\u{fd}',  // Y-acute
            '\u{178}' => '\u{ff}',  // Y-diaeresis
            _ => c,
        }
    }
}

/// Executable case folding; mirrors `lower_char`.
pub fn lower_char_exec(c: char) -> (r: char)
    ensures
        r == lower_char(c),
{
    if 'A' <= c && c <= 'Z' {
        ((c as u8) + 32) as char
    } else {
        match c {
            '\u{c0}' => '\u{e0}',
            '\u{c1}' => '\u{e1}',
            '\u{c2}' => '\u{e2}',
            '\u{c3}' => '\u{e3}',
            '\u{c5}' => '\u{e5}',
            '\u{c7}' => '\u{e7}',
            '\u{c8}' => '\u{e8}',
            '\u{c9}' => '\u{e9}',
            '\u{ca}' => '\u{ea}',
            '\u{cc}' => '\u{ec}',
            '\u{cd}' => '\u{ed}',
            '\u{ce}' => '\u{ee}',
            '\u{d1}' => '\u{f1}',
            '\u{d2}' => '\u{f2}',
            '\u{d3}' => '\u{f3}',
            '\u{d4}' => '\u{f4}',
            '\u{d5}' => '\u{f5}',
            '\u{d9}' => '\u{f9}',
            '\u{da}' => '\u{fa}',
            '\u{db}' => '\u{fb}',
            '\u{dd}' => '\u{fd}',
            '\u{178}' => '\u{ff}',
            _ => c,
        }
    }
}

/// Maps each lowercase accented Latin variant of the fixed table to its
/// unaccented ASCII base letter; every other character passes through.
pub open spec fn strip_diacritic(c: char) -> char {
    match c {
        '\u{e0}' => 'a',  // a-grave
        '\u{e1}' => 'a',  // a-acute
        '\u{e2}' => 'a',  // a-circumflex
        '\u{e3}' => 'a',  // a-tilde
        '\u{e5}' => 'a',  // a-ring
        '\u{e7}' => 'c',  // c-cedilla
        '\u{e8}' => 'e',  // e-grave
        '\u{e9}' => 'e',  // e-acute
        '\u{ea}' => 'e',  // e-circumflex
        '\u{ec}' => 'i',  // i-grave
        '\u{ed}' => 'i',  // i-acute
        '\u{ee}' => 'i',  // i-circumflex
        '\u{f1}' => 'n',  // n-tilde
        '\u{f2}' => 'o',  // o-grave
        '\u{f3}' => 'o',  // o-acute
        '\u{f4}' => 'o',  // o-circumflex
        '\u{f5}' => 'o',  // o-tilde
        '\u{f9}' => 'u',  // u-grave
        '\u{fa}' => 'u',  // u-acute
        '\u{fb}' => 'u',  // u-circumflex
        '\u{fd}' => 'y',  // y-acute
        '\u{ff}' => 'y',  // y-diaeresis
        _ => c,
    }
}

/// Executable diacritic stripping; mirrors `strip_diacritic`.
pub fn strip_diacritic_exec(c: char) -> (r: char)
    ensures
        r == strip_diacritic(c),
{
    match c {
        '\u{e0}' => 'a',
        '\u{e1}' => 'a',
        '\u{e2}' => 'a',
        '\u{e3}' => 'a',
        '\u{e5}' => 'a',
        '\u{e7}' => 'c',
        '\u{e8}' => 'e',
        '\u{e9}' => 'e',
        '\u{ea}' => 'e',
        '\u{ec}' => 'i',
        '\u{ed}' => 'i',
        '\u{ee}' => 'i',
        '\u{f1}' => 'n',
        '\u{f2}' => 'o',
        '\u{f3}' => 'o',
        '\u{f4}' => 'o',
        '\u{f5}' => 'o',
        '\u{f9}' => 'u',
        '\u{fa}' => 'u',
        '\u{fb}' => 'u',
        '\u{fd}' => 'y',
        '\u{ff}' => 'y',
        _ => c,
    }
}

/// The full canonicalization applied per character when a cache key is
/// derived: case folding followed by diacritic stripping.
pub open spec fn fold_char(c: char) -> char {
    strip_diacritic(lower_char(c))
}

/// Converts a string slice into its character sequence.
pub fn str_to_chars(s: &str) -> (r: Vec<char>)
    ensures
        r@ == s@,
{
    let n = s.unicode_len();
    let mut r: Vec<char> = Vec::new();
    let mut i: usize = 0;
    while i < n
        invariant
            n == s@.len(),
            i <= n,
            r@ == s@.subrange(0, i as int),
        decreases n - i,
    {
        r.push(s.get_char(i));
        i = i + 1;
        proof {
            assert(r@ =~= s@.subrange(0, i as int));
        }
    }
    proof {
        assert(r@ =~= s@);
    }
    r
}

/// Relies on `String: FromIterator<char>` (via `Iterator::collect`): the
/// resulting string holds exactly the characters of the vector, in order.
#[verifier::external_body]
pub fn chars_to_string(v: &Vec<char>) -> (r: String)
    ensures
        r@ == v@,
{
    v.iter().collect()
}

/// The sequence without its leading whitespace.
pub open spec fn trim_start_spec(s: Seq<char>) -> Seq<char>
    decreases s.len(),
{
    if s.len() == 0 {
        s
    } else if is_space(s[0]) {
        trim_start_spec(s.subrange(1, s.len() as int))
    } else {
        s
    }
}

/// The sequence without its trailing whitespace.
pub open spec fn trim_end_spec(s: Seq<char>) -> Seq<char>
    decreases s.len(),
{
    if s.len() == 0 {
        s
    } else if is_space(s[s.len() - 1]) {
        trim_end_spec(s.subrange(0, s.len() - 1))
    } else {
        s
    }
}

/// The sequence without leading or trailing whitespace.
pub open spec fn trim_spec(s: Seq<char>) -> Seq<char> {
    trim_end_spec(trim_start_spec(s))
}

/// Trimming removes exactly the leading and trailing whitespace run: the
/// result is the subrange between the first and the last non-space character.
proof fn lemma_trim_start_as_subrange(s: Seq<char>, i: int)
    requires
        0 <= i <= s.len(),
        forall|j: int| 0 <= j < i ==> is_space(s[j]),
        i < s.len() ==> !is_space(s[i]),
    ensures
        trim_start_spec(s) == s.subrange(i, s.len() as int),
    decreases i,
{
    if i == 0 {
        assert(s.subrange(0, s.len() as int) =~= s);
    } else {
        let t = s.subrange(1, s.len() as int);
        lemma_trim_start_as_subrange(t, i - 1);
        assert(t.subrange(i - 1, t.len() as int) =~= s.subrange(i, s.len() as int));
    }
}

proof fn lemma_trim_end_as_subrange(s: Seq<char>, i: int)
    requires
        0 <= i <= s.len(),
        forall|j: int| i <= j < s.len() ==> is_space(s[j]),
        i > 0 ==> !is_space(s[i - 1]),
    ensures
        trim_end_spec(s) == s.subrange(0, i),
    decreases s.len() - i,
{
    if i == s.len() {
        assert(s.subrange(0, s.len() as int) =~= s);
    } else {
        let t = s.subrange(0, s.len() - 1);
        lemma_trim_end_as_subrange(t, i);
        assert(t.subrange(0, i) =~= s.subrange(0, i));
    }
}

/// Removes leading and trailing whitespace from a character sequence.
pub fn trim_chars(s: &Vec<char>) -> (r: Vec<char>)
    ensures
        r@ == trim_spec(s@),
{
    let n = s.len();
    let mut start: usize = 0;
    while start < n && is_space_char(s[start])
        invariant
            n == s@.len(),
            start <= n,
            forall|j: int| 0 <= j < start ==> is_space(s@[j]),
        decreases n - start,
    {
        start = start + 1;
    }
    proof {
        lemma_trim_start_as_subrange(s@, start as int);
    }
    let ghost head = s@.subrange(start as int, n as int);
    let mut end: usize = n;
    while end > start && is_space_char(s[end - 1])
        invariant
            n == s@.len(),
            start <= end <= n,
            forall|j: int| end <= j < n ==> is_space(s@[j]),
        decreases end,
    {
        end = end - 1;
    }
    proof {
        assert(forall|j: int| end - start <= j < head.len() ==> is_space(head[j]));
        lemma_trim_end_as_subrange(head, end - start);
    }
    let mut r: Vec<char> = Vec::new();
    let mut i: usize = start;
    while i < end
        invariant
            start <= i <= end <= n,
            n == s@.len(),
            r@ == s@.subrange(start as int, i as int),
        decreases end - i,
    {
        r.push(s[i]);
        i = i + 1;
        proof {
            assert(r@ =~= s@.subrange(start as int, i as int));
        }
    }
    proof {
        assert(r@ =~= head.subrange(0, end - start));
    }
    r
}

/// `pat` occurs in `s` starting at index `i`.
pub open spec fn contains_at(s: Seq<char>, i: int, pat: Seq<char>) -> bool {
    0 <= i && i + pat.len() <= s.len() && s.subrange(i, i + pat.len() as int) == pat
}

/// `pat` occurs somewhere in `s`.
pub open spec fn contains_seq(s: Seq<char>, pat: Seq<char>) -> bool {
    exists|i: int| contains_at(s, i, pat)
}

/// Decides whether `pat` occurs in `s` at exactly index `i`.
pub fn match_at(s: &Vec<char>, i: usize, pat: &Vec<char>) -> (r: bool)
    ensures
        r == contains_at(s@, i as int, pat@),
{
    if s.len() < pat.len() || i > s.len() - pat.len() {
        return false;
    }
    let n = s.len();
    let mut j: usize = 0;
    while j < pat.len()
        invariant
            n == s@.len(),
            i + pat@.len() <= s@.len(),
            j <= pat@.len(),
            s@.subrange(i as int, i + j as int) == pat@.subrange(0, j as int),
        decreases pat@.len() - j,
    {
        if s[i + j] != pat[j] {
            proof {
                assert(s@.subrange(i as int, i + pat@.len() as int)[j as int] == s@[i + j]);
            }
            return false;
        }
        j = j + 1;
        proof {
            assert(s@.subrange(i as int, i + j as int) =~= pat@.subrange(0, j as int));
        }
    }
    proof {
        assert(s@.subrange(i as int, i + pat@.len() as int) =~= pat@);
    }
    true
}

/// Decides whether `pat` occurs anywhere in `s`.
pub fn contains_chars(s: &Vec<char>, pat: &Vec<char>) -> (r: bool)
    ensures
        r == contains_seq(s@, pat@),
{
    if s.len() < pat.len() {
        proof {
            assert(forall|i: int| !contains_at(s@, i, pat@));
        }
        return false;
    }
    if pat.len() == 0 {
        proof {
            assert(s@.subrange(0, 0) =~= pat@);
            assert(contains_at(s@, 0, pat@));
        }
        return true;
    }
    let mut i: usize = 0;
    while i <= s.len() - pat.len()
        invariant
            1 <= pat@.len() <= s@.len(),
            i <= s@.len() - pat@.len() + 1,
            forall|k: int| 0 <= k < i ==> !contains_at(s@, k, pat@),
        decreases s@.len() - i,
    {
        if match_at(s, i, pat) {
            return true;
        }
        i = i + 1;
    }
    proof {
        assert(forall|k: int| k >= i ==> !contains_at(s@, k, pat@));
    }
    false
}

/// Decides whether the string `pat` occurs anywhere in the string `s`.
pub fn str_contains(s: &str, pat: &str) -> (r: bool)
    ensures
        r == contains_seq(s@, pat@),
{
    let sc = str_to_chars(s);
    let pc = str_to_chars(pat);
    contains_chars(&sc, &pc)
}

/// An ASCII decimal digit.
pub open spec fn is_digit(c: char) -> bool {
    '0' <= c && c <= '9'
}

/// Executable digit test.
pub fn is_digit_char(c: char) -> (r: bool)
    ensures
        r == is_digit(c),
{
    '0' <= c && c <= '9'
}

/// `s` holds a run of four consecutive ASCII digits starting at `i`.
pub open spec fn digit_run4_at(s: Seq<char>, i: int) -> bool {
    0 <= i && i + 4 <= s.len() && forall|j: int| i <= j < i + 4 ==> is_digit(s[j])
}

/// `s` holds a run of four consecutive ASCII digits somewhere: the shape of
/// a year qualifier.
pub open spec fn has_digit_run4(s: Seq<char>) -> bool {
    exists|i: int| digit_run4_at(s, i)
}

/// Decides whether `s` holds four consecutive ASCII digits anywhere.
pub fn contains_digit_run4(s: &Vec<char>) -> (r: bool)
    ensures
        r == has_digit_run4(s@),
{
    if s.len() < 4 {
        return false;
    }
    let mut i: usize = 0;
    while i <= s.len() - 4
        invariant
            4 <= s@.len(),
            i <= s@.len() - 3,
            forall|k: int| 0 <= k < i ==> !digit_run4_at(s@, k),
        decreases s@.len() - i,
    {
        if is_digit_char(s[i]) && is_digit_char(s[i + 1]) && is_digit_char(s[i + 2])
            && is_digit_char(s[i + 3]) {
            proof {
                assert forall|j: int| i <= j < i + 4 implies is_digit(s@[j]) by {
                    assert(j == i || j == i + 1 || j == i + 2 || j == i + 3);
                }
                assert(digit_run4_at(s@, i as int));
            }
            return true;
        }
        i = i + 1;
    }
    false
}

/// The canonical form of a raw artist or title string: trimmed, case-folded,
/// diacritics stripped.
pub open spec fn normalize_spec(s: Seq<char>) -> Seq<char> {
    trim_spec(s).map_values(|c: char| fold_char(c))
}

/// Canonicalizes a raw artist or title string into the form used for cache
/// keys: trims leading and trailing whitespace, lowercases, and maps the
/// fixed table of accented Latin variants to their ASCII base letters.
pub fn normalize_string(s: &str) -> (r: String)
    ensures
        r@ == normalize_spec(s@),
{
    let cs = str_to_chars(s);
    let t = trim_chars(&cs);
    let mut out: Vec<char> = Vec::new();
    let mut i: usize = 0;
    while i < t.len()
        invariant
            i <= t@.len(),
            out@ == t@.subrange(0, i as int).map_values(|c: char| fold_char(c)),
        decreases t@.len() - i,
    {
        out.push(strip_diacritic_exec(lower_char_exec(t[i])));
        i = i + 1;
        proof {
            assert(out@ =~= t@.subrange(0, i as int).map_values(|c: char| fold_char(c)));
        }
    }
    proof {
        assert(t@.subrange(0, t@.len() as int) =~= t@);
    }
    chars_to_string(&out)
}

/// Finds the first occurrence of `c` at or after `from`.
pub fn find_char_from(s: &Vec<char>, from: usize, c: char) -> (r: Option<usize>)
    requires
        from <= s@.len(),
    ensures
        match r {
            Some(j) => from <= j < s@.len() && s@[j as int] == c && forall|k: int|
                from <= k < j ==> s@[k] != c,
            None => forall|k: int| from <= k < s@.len() ==> s@[k] != c,
        },
{
    let mut j: usize = from;
    while j < s.len()
        invariant
            from <= j <= s@.len(),
            forall|k: int| from <= k < j ==> s@[k] != c,
        decreases s@.len() - j,
    {
        if s[j] == c {
            return Some(j);
        }
        j = j + 1;
    }
    None
}

/// Copies `s[a..b)` into a fresh vector.
pub fn subvec(s: &Vec<char>, a: usize, b: usize) -> (r: Vec<char>)
    requires
        a <= b <= s@.len(),
    ensures
        r@ == s@.subrange(a as int, b as int),
{
    let mut r: Vec<char> = Vec::new();
    let mut i: usize = a;
    while i < b
        invariant
            a <= i <= b <= s@.len(),
            r@ == s@.subrange(a as int, i as int),
        decreases b - i,
    {
        r.push(s[i]);
        i = i + 1;
        proof {
            assert(r@ =~= s@.subrange(a as int, i as int));
        }
    }
    r
}

} // verus!
