//! Text cleaning. The deterministic heuristic cleaner trims leading lines
//! that look like page chrome and trailing lines that look like footers; it
//! never fails and returns its input unchanged when no chrome is detected.
//! The AI cleaner lives outside the library; this module supplies the
//! refusal test applied to its output and the selection between the two.

use vstd::prelude::*;

use crate::text::contains_seq;
use crate::text::contains_chars;
use crate::text::match_at;
use crate::text::str_to_chars;
use crate::text::subvec;
use crate::text::trim_spec;
use crate::text::trim_chars;
use crate::text::chars_to_string;
use crate::extract::first_from;
use crate::search::lower_seq;
use crate::search::lower_chars;

verus! {

/// An ASCII letter.
pub open spec fn is_alpha(c: char) -> bool {
    ('a' <= c && c <= 'z') || ('A' <= c && c <= 'Z')
}

/// An uppercase ASCII letter.
pub open spec fn is_upper(c: char) -> bool {
    'A' <= c && c <= 'Z'
}

/// How many ASCII letters the sequence holds.
pub open spec fn count_alpha(s: Seq<char>) -> nat
    decreases s.len(),
{
    if s.len() == 0 {
        0
    } else {
        count_alpha(s.subrange(0, s.len() - 1)) + if is_alpha(s[s.len() - 1]) {
            1nat
        } else {
            0nat
        }
    }
}

/// How many uppercase ASCII letters the sequence holds.
pub open spec fn count_upper(s: Seq<char>) -> nat
    decreases s.len(),
{
    if s.len() == 0 {
        0
    } else {
        count_upper(s.subrange(0, s.len() - 1)) + if is_upper(s[s.len() - 1]) {
            1nat
        } else {
            0nat
        }
    }
}

/// `s` ends with `suf`.
pub open spec fn ends_with(s: Seq<char>, suf: Seq<char>) -> bool {
    s.len() >= suf.len() && s.subrange(s.len() - suf.len(), s.len() as int) == suf
}

/// `s` starts with `pre`.
pub open spec fn starts_with(s: Seq<char>, pre: Seq<char>) -> bool {
    s.len() >= pre.len() && s.subrange(0, pre.len() as int) == pre
}

/// A short line most of whose letters are uppercase: the shape of shouted
/// page chrome. Short means at most thirty characters; heavy means more
/// uppercase letters than half of all its letters, with at least one
/// letter present.
pub open spec fn caps_heavy(t: Seq<char>) -> bool {
    t.len() <= 30 && count_alpha(t) > 0 && 2 * count_upper(t) > count_alpha(t)
}

/// The trimmed line looks like leading page chrome: empty, a contributor
/// or lyrics header, a pull quote, an editorial teaser, or a short
/// caps-heavy banner.
pub open spec fn leading_chrome(line: Seq<char>) -> bool {
    let t = trim_spec(line);
    ||| t.len() == 0
    ||| ends_with(t, "Contributors"@)
    ||| ends_with(t, "Lyrics"@)
    ||| (t.len() > 0 && t[0] == '"')
    ||| contains_seq(t, "is a song about"@)
    ||| contains_seq(t, "Read More"@)
    ||| caps_heavy(t)
}

/// The trimmed line looks like a trailing footer: empty, an embed prompt,
/// a see-also link, or a lyrics banner.
pub open spec fn trailing_chrome(line: Seq<char>) -> bool {
    let t = trim_spec(line);
    ||| t.len() == 0
    ||| contains_seq(t, "Embed"@)
    ||| starts_with(t, "See "@)
    ||| contains_seq(t, "Lyrics"@)
}

/// The lines of `s`, split at newline characters.
pub open spec fn split_lines(s: Seq<char>) -> Seq<Seq<char>>
    decreases s.len(),
        via split_lines_decreases
{
    let j = first_from(s, 0, '\n');
    if j >= s.len() {
        seq![s]
    } else {
        seq![s.subrange(0, j)] + split_lines(s.subrange(j + 1, s.len() as int))
    }
}

#[via_fn]
proof fn split_lines_decreases(s: Seq<char>) {
    crate::extract::lemma_first_from_bounds(s, 0, '\n');
}

/// The lines joined back with newlines: the first line, then each further
/// line prefixed by a newline.
pub open spec fn join_tail(ls: Seq<Seq<char>>) -> Seq<char>
    decreases ls.len(),
{
    if ls.len() == 0 {
        Seq::<char>::empty()
    } else {
        seq!['\n'] + ls[0] + join_tail(ls.subrange(1, ls.len() as int))
    }
}

/// The lines joined with newline separators.
pub open spec fn join_lines(ls: Seq<Seq<char>>) -> Seq<char> {
    if ls.len() == 0 {
        Seq::<char>::empty()
    } else {
        ls[0] + join_tail(ls.subrange(1, ls.len() as int))
    }
}

/// The lines without their leading chrome.
pub open spec fn drop_leading(ls: Seq<Seq<char>>) -> Seq<Seq<char>>
    decreases ls.len(),
{
    if ls.len() == 0 {
        ls
    } else if leading_chrome(ls[0]) {
        drop_leading(ls.subrange(1, ls.len() as int))
    } else {
        ls
    }
}

/// The lines without their trailing footers.
pub open spec fn drop_trailing(ls: Seq<Seq<char>>) -> Seq<Seq<char>>
    decreases ls.len(),
{
    if ls.len() == 0 {
        ls
    } else if trailing_chrome(ls[ls.len() - 1]) {
        drop_trailing(ls.subrange(0, ls.len() - 1))
    } else {
        ls
    }
}

/// The heuristically cleaned text: leading chrome lines and trailing
/// footer lines removed, the rest rejoined and trimmed.
pub open spec fn clean_spec(s: Seq<char>) -> Seq<char> {
    trim_spec(join_lines(drop_trailing(drop_leading(split_lines(s)))))
}

/// Counts the letters and the uppercase letters of a line.
fn count_letters(t: &Vec<char>) -> (r: (usize, usize))
    ensures
        r.0 == count_alpha(t@),
        r.1 == count_upper(t@),
        r.1 <= r.0 <= t@.len(),
{
    let mut alpha: usize = 0;
    let mut upper: usize = 0;
    let mut i: usize = 0;
    while i < t.len()
        invariant
            i <= t@.len(),
            alpha == count_alpha(t@.subrange(0, i as int)),
            upper == count_upper(t@.subrange(0, i as int)),
            upper <= alpha <= i,
        decreases t@.len() - i,
    {
        let c = t[i];
        proof {
            assert(t@.subrange(0, i + 1).subrange(0, i as int) =~= t@.subrange(0, i as int));
            assert(t@.subrange(0, i + 1)[i as int] == t@[i as int]);
        }
        if ('a' <= c && c <= 'z') || ('A' <= c && c <= 'Z') {
            alpha = alpha + 1;
        }
        if 'A' <= c && c <= 'Z' {
            upper = upper + 1;
        }
        i = i + 1;
    }
    proof {
        assert(t@.subrange(0, t@.len() as int) =~= t@);
    }
    (alpha, upper)
}

/// Decides whether a line is leading page chrome.
fn leading_chrome_exec(line: &Vec<char>) -> (r: bool)
    ensures
        r == leading_chrome(line@),
{
    let t = trim_chars(line);
    if t.len() == 0 {
        return true;
    }
    let contributors = str_to_chars("Contributors");
    let lyrics = str_to_chars("Lyrics");
    let about = str_to_chars("is a song about");
    let readmore = str_to_chars("Read More");
    if t.len() >= contributors.len() && match_at(&t, t.len() - contributors.len(), &contributors) {
        return true;
    }
    if t.len() >= lyrics.len() && match_at(&t, t.len() - lyrics.len(), &lyrics) {
        return true;
    }
    if t[0] == '"' {
        return true;
    }
    if contains_chars(&t, &about) || contains_chars(&t, &readmore) {
        return true;
    }
    let (alpha, upper) = count_letters(&t);
    t.len() <= 30 && alpha > 0 && 2 * upper > alpha
}

/// Decides whether a line is a trailing footer.
fn trailing_chrome_exec(line: &Vec<char>) -> (r: bool)
    ensures
        r == trailing_chrome(line@),
{
    let t = trim_chars(line);
    if t.len() == 0 {
        return true;
    }
    let embed = str_to_chars("Embed");
    let see = str_to_chars("See ");
    let lyrics = str_to_chars("Lyrics");
    if contains_chars(&t, &embed) || contains_chars(&t, &lyrics) {
        return true;
    }
    t.len() >= see.len() && match_at(&t, 0, &see)
}

/// Splits a character sequence into its lines.
fn split_lines_exec(s: &Vec<char>) -> (r: Vec<Vec<char>>)
    ensures
        r.deep_view() == split_lines(s@),
{
    let mut pieces: Vec<Vec<char>> = Vec::new();
    let mut start: usize = 0;
    let n = s.len();
    proof {
        assert(pieces.deep_view() =~~= Seq::<Seq<char>>::empty());
        assert(s@.subrange(0, n as int) =~= s@);
        assert(Seq::<Seq<char>>::empty() + split_lines(s@) =~~= split_lines(s@));
    }
    loop
        invariant
            start <= n,
            n == s@.len(),
            split_lines(s@) == pieces.deep_view() + split_lines(
                s@.subrange(start as int, n as int),
            ),
        decreases n - start,
    {
        let ghost t = s@.subrange(start as int, n as int);
        match crate::text::find_char_from(s, start, '\n') {
            Some(j) => {
                let ghost prev = pieces.deep_view();
                let piece = subvec(s, start, j);
                pieces.push(piece);
                proof {
                    crate::extract::lemma_first_from(t, 0, '\n', j - start);
                    assert(t.subrange(0, j - start) =~= s@.subrange(start as int, j as int));
                    assert(t.subrange(j - start + 1, t.len() as int) =~= s@.subrange(
                        j + 1,
                        n as int,
                    ));
                    assert(pieces.deep_view() =~~= prev + seq![s@.subrange(start as int, j as int)]);
                    assert(prev + (seq![s@.subrange(start as int, j as int)] + split_lines(
                        s@.subrange(j + 1, n as int),
                    )) =~~= pieces.deep_view() + split_lines(s@.subrange(j + 1, n as int)));
                }
                start = j + 1;
            },
            None => {
                let ghost prev = pieces.deep_view();
                let piece = subvec(s, start, n);
                pieces.push(piece);
                proof {
                    crate::extract::lemma_first_from(t, 0, '\n', t.len() as int);
                    assert(split_lines(t) =~~= seq![t]);
                    assert(pieces.deep_view() =~~= prev + seq![t]);
                }
                return pieces;
            },
        }
    }
}

/// Appending one more line extends the joined tail by a newline and that
/// line.
proof fn lemma_join_tail_snoc(ls: Seq<Seq<char>>, x: Seq<char>)
    ensures
        join_tail(ls.push(x)) == join_tail(ls) + seq!['\n'] + x,
    decreases ls.len(),
{
    if ls.len() == 0 {
        assert(ls.push(x).subrange(1, 1) =~~= Seq::<Seq<char>>::empty());
        assert(join_tail(Seq::<Seq<char>>::empty()) == Seq::<char>::empty());
        assert(join_tail(ls) == Seq::<char>::empty());
        assert(ls.push(x)[0] == x);
        assert(join_tail(ls.push(x)) =~= seq!['\n'] + x);
        assert(join_tail(ls) + seq!['\n'] + x =~= seq!['\n'] + x);
    } else {
        let tail = ls.subrange(1, ls.len() as int);
        assert(ls.push(x)[0] == ls[0]);
        assert(ls.push(x).subrange(1, ls.len() as int + 1) =~~= tail.push(x));
        lemma_join_tail_snoc(tail, x);
        assert(join_tail(ls.push(x)) =~= seq!['\n'] + ls[0] + join_tail(tail.push(x)));
        assert(join_tail(ls.push(x)) =~= join_tail(ls) + seq!['\n'] + x);
    }
}

/// Joins the lines `ls[a..b)` with newline separators.
fn join_range(ls: &Vec<Vec<char>>, a: usize, b: usize) -> (r: Vec<char>)
    requires
        a <= b <= ls@.len(),
    ensures
        r@ == join_lines(ls.deep_view().subrange(a as int, b as int)),
{
    let mut out: Vec<char> = Vec::new();
    if a == b {
        proof {
            assert(ls.deep_view().subrange(a as int, b as int) =~= Seq::<Seq<char>>::empty());
        }
        return out;
    }
    let ghost target = ls.deep_view().subrange(a as int, b as int);
    let mut i: usize = a;
    while i < b
        invariant
            a <= i <= b <= ls@.len(),
            target == ls.deep_view().subrange(a as int, b as int),
            a < b,
            i > a ==> out@ == target[0] + join_tail(
                ls.deep_view().subrange(a + 1, i as int),
            ),
            i == a ==> out@ == Seq::<char>::empty(),
        decreases b - i,
    {
        let ghost prev = out@;
        if i > a {
            out.push('\n');
        }
        let line = &ls[i];
        let mut k: usize = 0;
        while k < line.len()
            invariant
                k <= line@.len(),
                out@ == prev + (if i > a {
                    seq!['\n']
                } else {
                    Seq::<char>::empty()
                }) + line@.subrange(0, k as int),
            decreases line@.len() - k,
        {
            out.push(line[k]);
            k = k + 1;
            proof {
                assert(out@ =~= prev + (if i > a {
                    seq!['\n']
                } else {
                    Seq::<char>::empty()
                }) + line@.subrange(0, k as int));
            }
        }
        proof {
            assert(line@.subrange(0, line@.len() as int) =~= line@);
            assert(line@ == ls.deep_view()[i as int]);
            if i == a {
                assert(ls.deep_view()[a as int] == target[0]);
                assert(ls.deep_view().subrange(a + 1, a + 1) =~= Seq::<Seq<char>>::empty());
                assert(out@ =~= target[0] + join_tail(ls.deep_view().subrange(a + 1, a + 1)));
            } else {
                lemma_join_tail_snoc(ls.deep_view().subrange(a + 1, i as int), line@);
                assert(ls.deep_view().subrange(a + 1, i + 1) =~= ls.deep_view().subrange(
                    a + 1,
                    i as int,
                ).push(line@));
                assert(out@ =~= target[0] + join_tail(ls.deep_view().subrange(a + 1, i + 1)));
            }
        }
        i = i + 1;
    }
    proof {
        assert(ls.deep_view().subrange(a + 1, b as int) =~= target.subrange(1, target.len() as int));
    }
    out
}

/// The kept middle of the lines runs from the first non-chrome line to the
/// last non-footer line.
proof fn lemma_drop_leading_as_subrange(ls: Seq<Seq<char>>, a: int)
    requires
        0 <= a <= ls.len(),
        forall|j: int| 0 <= j < a ==> leading_chrome(ls[j]),
        a < ls.len() ==> !leading_chrome(ls[a]),
    ensures
        drop_leading(ls) == ls.subrange(a, ls.len() as int),
    decreases a,
{
    if a == 0 {
        assert(ls.subrange(0, ls.len() as int) =~= ls);
    } else {
        let t = ls.subrange(1, ls.len() as int);
        lemma_drop_leading_as_subrange(t, a - 1);
        assert(t.subrange(a - 1, t.len() as int) =~= ls.subrange(a, ls.len() as int));
    }
}

proof fn lemma_drop_trailing_as_subrange(ls: Seq<Seq<char>>, b: int)
    requires
        0 <= b <= ls.len(),
        forall|j: int| b <= j < ls.len() ==> trailing_chrome(ls[j]),
        b > 0 ==> !trailing_chrome(ls[b - 1]),
    ensures
        drop_trailing(ls) == ls.subrange(0, b),
    decreases ls.len() - b,
{
    if b == ls.len() {
        assert(ls.subrange(0, ls.len() as int) =~= ls);
    } else {
        let t = ls.subrange(0, ls.len() - 1);
        lemma_drop_trailing_as_subrange(t, b);
        assert(t.subrange(0, b) =~= ls.subrange(0, b));
    }
}

/// Cleans raw scraped lyrics heuristically: strips leading lines that look
/// like page chrome and trailing lines that look like footers, then joins
/// the rest and trims. Returns the input unchanged (up to trimming) when
/// no chrome is detected.
pub fn clean_lyrics_with_regex(lyrics: &str) -> (r: String)
    ensures
        r@ == clean_spec(lyrics@),
{
    let cs = str_to_chars(lyrics);
    let pieces = split_lines_exec(&cs);
    let ghost ls = pieces.deep_view();
    let mut a: usize = 0;
    while a < pieces.len() && leading_chrome_exec(&pieces[a])
        invariant
            a <= pieces@.len(),
            ls == pieces.deep_view(),
            forall|j: int| 0 <= j < a ==> leading_chrome(ls[j]),
        decreases pieces@.len() - a,
    {
        proof {
            assert(pieces@[a as int]@ == ls[a as int]);
        }
        a = a + 1;
    }
    proof {
        if a < pieces@.len() {
            assert(pieces@[a as int]@ == ls[a as int]);
        }
        lemma_drop_leading_as_subrange(ls, a as int);
    }
    let ghost kept = ls.subrange(a as int, ls.len() as int);
    let mut b: usize = pieces.len();
    while b > a && trailing_chrome_exec(&pieces[b - 1])
        invariant
            a <= b <= pieces@.len(),
            ls == pieces.deep_view(),
            forall|j: int| b <= j < ls.len() ==> trailing_chrome(ls[j]),
        decreases b,
    {
        proof {
            assert(pieces@[b - 1]@ == ls[b - 1]);
        }
        b = b - 1;
    }
    proof {
        if b > a {
            assert(pieces@[b - 1]@ == ls[b - 1]);
        }
        assert(forall|j: int| 0 <= j < kept.len() ==> kept[j] == ls[a + j]);
        assert forall|j: int| b - a <= j < kept.len() implies trailing_chrome(kept[j]) by {
            assert(kept[j] == ls[a + j]);
        }
        lemma_drop_trailing_as_subrange(kept, b - a);
        assert(kept.subrange(0, b - a) =~= ls.subrange(a as int, b as int));
    }
    let joined = join_range(&pieces, a, b);
    let trimmed = trim_chars(&joined);
    chars_to_string(&trimmed)
}

/// The AI output contains one of the fixed refusal markers, case
/// insensitively.
pub open spec fn is_refusal(s: Seq<char>) -> bool {
    ||| contains_seq(lower_seq(s), "i can't provide"@)
    ||| contains_seq(lower_seq(s), "i cannot provide"@)
    ||| contains_seq(lower_seq(s), "i'm sorry"@)
}

/// Decides whether an AI cleaner output is a refusal.
pub fn is_refusal_exec(s: &str) -> (r: bool)
    ensures
        r == is_refusal(s@),
{
    let low = lower_chars(s);
    let a = str_to_chars("i can't provide");
    let b = str_to_chars("i cannot provide");
    let c = str_to_chars("i'm sorry");
    contains_chars(&low, &a) || contains_chars(&low, &b) || contains_chars(&low, &c)
}

/// What the cleaned lyrics are, given the raw text and the AI cleaner's
/// outcome: the AI output when it exists and is no refusal, the heuristic
/// cleaning of the raw text otherwise.
pub open spec fn cleaned_choice(raw: Seq<char>, ai: Option<Seq<char>>) -> Seq<char> {
    match ai {
        Some(out) => if is_refusal(out) {
            clean_spec(raw)
        } else {
            out
        },
        None => clean_spec(raw),
    }
}

/// Selects the final cleaned text: the AI output unless the AI failed
/// (`None`) or refused, in which case the heuristic cleaner's result is
/// used. This is the one place a failure is absorbed rather than
/// propagated: a degraded-but-present result beats none.
pub fn select_cleaned(raw: &str, ai: Option<String>) -> (r: String)
    ensures
        r@ == cleaned_choice(raw@, match ai {
            Some(s) => Some(s@),
            None => None,
        }),
{
    match ai {
        Some(out) => {
            if is_refusal_exec(out.as_str()) {
                clean_lyrics_with_regex(raw)
            } else {
                out
            }
        },
        None => clean_lyrics_with_regex(raw),
    }
}

} // verus!
