//! Title decluttering: strips version/remaster/live/edit qualifiers from a
//! raw song title before it is used as a search term. A fixed ordered list
//! of pattern rules is applied; each rule is a global strip over the whole
//! string (leftmost match first, scanning resumes after each removal), and
//! the final result is trimmed.

use vstd::prelude::*;

use crate::text::is_space;
use crate::text::is_space_char;
use crate::text::is_digit;
use crate::text::contains_seq;
use crate::text::contains_at;
use crate::text::contains_chars;
use crate::text::contains_digit_run4;
use crate::text::has_digit_run4;
use crate::text::match_at;
use crate::text::str_to_chars;
use crate::text::find_char_from;
use crate::text::subvec;
use crate::text::trim_spec;
use crate::text::trim_chars;
use crate::text::chars_to_string;

verus! {

/// One qualifier-stripping rule. The paren and bracket rules remove a
/// delimited group whose interior holds the given marker (or any four-digit
/// year); the dash rules remove a trailing-style `- ... Remaster...`
/// qualifier running up to the next dash or the end of the string.
#[derive(Clone, Copy, PartialEq, Eq, Structural)]
pub enum TitleRule {
    ParenRemaster,
    BracketRemaster,
    ParenAcoustic,
    ParenLive,
    ParenVersion,
    ParenEdit,
    ParenYear,
    BracketYear,
    DashYearRemaster,
    DashRemaster,
}

/// The rule removes a `- ...` suffix rather than a delimited group.
pub open spec fn is_dash_rule(rule: TitleRule) -> bool {
    rule == TitleRule::DashYearRemaster || rule == TitleRule::DashRemaster
}

/// The dash rule demands a four-digit year between the dash and the marker.
pub open spec fn dash_needs_year(rule: TitleRule) -> bool {
    rule == TitleRule::DashYearRemaster
}

/// Opening delimiter of a group rule.
pub open spec fn rule_open(rule: TitleRule) -> char {
    match rule {
        TitleRule::BracketRemaster | TitleRule::BracketYear => '[',
        _ => '(',
    }
}

/// Closing delimiter of a group rule.
pub open spec fn rule_close(rule: TitleRule) -> char {
    match rule {
        TitleRule::BracketRemaster | TitleRule::BracketYear => ']',
        _ => ')',
    }
}

/// The interior of a delimited group satisfies the rule's marker: it holds
/// the rule's keyword (with its first letter in either case) or, for the
/// year rules, four consecutive digits.
pub open spec fn span_pred(rule: TitleRule, span: Seq<char>) -> bool {
    match rule {
        TitleRule::ParenRemaster | TitleRule::BracketRemaster => contains_seq(span, "remast"@)
            || contains_seq(span, "Remast"@),
        TitleRule::ParenAcoustic => contains_seq(span, "acoustic"@) || contains_seq(
            span,
            "Acoustic"@,
        ),
        TitleRule::ParenLive => contains_seq(span, "live"@) || contains_seq(span, "Live"@),
        TitleRule::ParenVersion => contains_seq(span, "version"@) || contains_seq(span, "Version"@),
        TitleRule::ParenEdit => contains_seq(span, "edit"@) || contains_seq(span, "Edit"@),
        TitleRule::ParenYear | TitleRule::BracketYear => has_digit_run4(span),
        _ => false,
    }
}

/// A delimited-group rule matches a prefix of `s` of length `l`: `s` opens
/// with the rule's opening delimiter, `s[l-1]` is the first closing
/// delimiter after it, and the interior satisfies the rule's marker.
pub open spec fn delim_match_at(s: Seq<char>, rule: TitleRule, l: int) -> bool {
    &&& 2 <= l <= s.len()
    &&& s[0] == rule_open(rule)
    &&& s[l - 1] == rule_close(rule)
    &&& forall|k: int| 1 <= k < l - 1 ==> s[k] != rule_close(rule)
    &&& span_pred(rule, s.subrange(1, l - 1))
}

/// Every character in `s[a..b)` is whitespace.
pub open spec fn space_run(s: Seq<char>, a: int, b: int) -> bool {
    forall|k: int| a <= k < b ==> is_space(s[k])
}

/// No character in `s[a..b)` is a dash.
pub open spec fn no_dash(s: Seq<char>, a: int, b: int) -> bool {
    forall|k: int| a <= k < b ==> s[k] != '-'
}

/// The remaster marker (first letter in either case) starts at `m`.
pub open spec fn remast_at(s: Seq<char>, m: int) -> bool {
    &&& 0 <= m
    &&& m + 6 <= s.len()
    &&& (s[m] == 'r' || s[m] == 'R')
    &&& s.subrange(m + 1, m + 6) == "emast"@
}

/// The positions backing a dash-rule match of length `l`: `m` is the first
/// non-whitespace position after the dash; with a year demanded, four
/// digits stand at `m` and `m2` is the marker's position after further
/// whitespace; without, the marker stands at `m` itself. The match runs to
/// the next dash or the end.
pub open spec fn dash_witness(s: Seq<char>, year: bool, m: int, m2: int, l: int) -> bool {
    &&& 1 <= m
    &&& space_run(s, 1, m)
    &&& (if year {
        &&& m + 4 <= s.len()
        &&& forall|k: int| m <= k < m + 4 ==> is_digit(s[k])
        &&& m + 4 <= m2
        &&& space_run(s, m + 4, m2)
    } else {
        m2 == m
    })
    &&& remast_at(s, m2)
    &&& m2 + 6 <= l <= s.len()
    &&& no_dash(s, m2 + 6, l)
    &&& (l == s.len() || s[l] == '-')
}

/// A dash rule matches a prefix of `s` of length `l`.
pub open spec fn dash_match_at(s: Seq<char>, year: bool, l: int) -> bool {
    &&& s.len() >= 1
    &&& s[0] == '-'
    &&& exists|m: int, m2: int| dash_witness(s, year, m, m2, l)
}

/// The rule matches a prefix of `s` of length `l`.
pub open spec fn rule_match_at(s: Seq<char>, rule: TitleRule, l: int) -> bool {
    if is_dash_rule(rule) {
        dash_match_at(s, dash_needs_year(rule), l)
    } else {
        delim_match_at(s, rule, l)
    }
}

/// A rule's match length is determined: at most one prefix length matches.
proof fn lemma_rule_match_unique(s: Seq<char>, rule: TitleRule, l1: int, l2: int)
    requires
        rule_match_at(s, rule, l1),
        rule_match_at(s, rule, l2),
    ensures
        l1 == l2,
{
    if is_dash_rule(rule) {
        let year = dash_needs_year(rule);
        let (m1, m21) = choose|m: int, m2: int| dash_witness(s, year, m, m2, l1);
        let (m2_, m22) = choose|m: int, m2: int| dash_witness(s, year, m, m2, l2);
        lemma_dash_witness_unique(s, year, m1, m21, m2_, m22);
        if l1 < l2 {
            assert(s[l1] == '-');
            assert(no_dash(s, m22 + 6, l2));
        } else if l2 < l1 {
            assert(s[l2] == '-');
            assert(no_dash(s, m21 + 6, l1));
        }
    } else {
        if l1 < l2 {
            assert(s[l1 - 1] == rule_close(rule));
        } else if l2 < l1 {
            assert(s[l2 - 1] == rule_close(rule));
        }
    }
}

/// The positions backing a dash-rule match are determined.
proof fn lemma_dash_witness_unique(
    s: Seq<char>,
    year: bool,
    ma: int,
    m2a: int,
    mb: int,
    m2b: int,
)
    requires
        exists|l: int| dash_witness(s, year, ma, m2a, l),
        exists|l: int| dash_witness(s, year, mb, m2b, l),
    ensures
        ma == mb,
        m2a == m2b,
{
    // The first position after the dash that is not whitespace is unique:
    // a digit or the marker's first letter is never whitespace.
    if ma < mb {
        assert(is_space(s[ma]));
    } else if mb < ma {
        assert(is_space(s[mb]));
    }
    if year {
        if m2a < m2b {
            assert(is_space(s[m2a]));
        } else if m2b < m2a {
            assert(is_space(s[m2b]));
        }
    }
}

/// The string with every match of the rule removed, scanning left to
/// right and resuming after each removed span.
pub open spec fn strip_rule_spec(s: Seq<char>, rule: TitleRule) -> Seq<char>
    decreases s.len(),
{
    if s.len() == 0 {
        s
    } else if exists|l: int| rule_match_at(s, rule, l) {
        let l = choose|l: int| rule_match_at(s, rule, l);
        if 2 <= l <= s.len() {
            strip_rule_spec(s.subrange(l, s.len() as int), rule)
        } else {
            s
        }
    } else {
        seq![s[0]] + strip_rule_spec(s.subrange(1, s.len() as int), rule)
    }
}

/// Finds the first position at or after `from` holding a non-whitespace
/// character, or the length of `s` if there is none.
fn skip_spaces_from(s: &Vec<char>, from: usize) -> (m: usize)
    requires
        from <= s@.len(),
    ensures
        from <= m <= s@.len(),
        forall|k: int| from <= k < m ==> is_space(s@[k]),
        m < s@.len() ==> !is_space(s@[m as int]),
{
    let mut m: usize = from;
    while m < s.len()
        invariant
            from <= m <= s@.len(),
            forall|k: int| from <= k < m ==> is_space(s@[k]),
        decreases s@.len() - m,
    {
        if !is_space_char(s[m]) {
            return m;
        }
        m = m + 1;
    }
    m
}

/// Decides whether the interior of a delimited group satisfies the rule's
/// marker.
fn span_pred_exec(rule: TitleRule, span: &Vec<char>) -> (r: bool)
    ensures
        r == span_pred(rule, span@),
{
    match rule {
        TitleRule::ParenRemaster | TitleRule::BracketRemaster => {
            let a = str_to_chars("remast");
            let b = str_to_chars("Remast");
            contains_chars(span, &a) || contains_chars(span, &b)
        },
        TitleRule::ParenAcoustic => {
            let a = str_to_chars("acoustic");
            let b = str_to_chars("Acoustic");
            contains_chars(span, &a) || contains_chars(span, &b)
        },
        TitleRule::ParenLive => {
            let a = str_to_chars("live");
            let b = str_to_chars("Live");
            contains_chars(span, &a) || contains_chars(span, &b)
        },
        TitleRule::ParenVersion => {
            let a = str_to_chars("version");
            let b = str_to_chars("Version");
            contains_chars(span, &a) || contains_chars(span, &b)
        },
        TitleRule::ParenEdit => {
            let a = str_to_chars("edit");
            let b = str_to_chars("Edit");
            contains_chars(span, &a) || contains_chars(span, &b)
        },
        TitleRule::ParenYear | TitleRule::BracketYear => contains_digit_run4(span),
        _ => false,
    }
}

/// Classifies a rule: dash rule or group rule, year demanded, delimiters.
fn rule_parts(rule: TitleRule) -> (r: (bool, bool, char, char))
    ensures
        r.0 == is_dash_rule(rule),
        r.1 == dash_needs_year(rule),
        r.2 == rule_open(rule),
        r.3 == rule_close(rule),
{
    match rule {
        TitleRule::BracketRemaster | TitleRule::BracketYear => (false, false, '[', ']'),
        TitleRule::DashYearRemaster => (true, true, '(', ')'),
        TitleRule::DashRemaster => (true, false, '(', ')'),
        _ => (false, false, '(', ')'),
    }
}

/// Decides whether the rule matches a prefix of `s[i..]`, and if so how
/// long that match is.
fn rule_match_len(s: &Vec<char>, i: usize, rule: TitleRule) -> (r: Option<usize>)
    requires
        i < s@.len(),
    ensures
        ({
            let t = s@.subrange(i as int, s@.len() as int);
            match r {
                Some(l) => 2 <= l <= t.len() && rule_match_at(t, rule, l as int),
                None => forall|l: int| !rule_match_at(t, rule, l),
            }
        }),
{
    let ghost t = s@.subrange(i as int, s@.len() as int);
    let n = s.len();
    proof {
        assert(forall|k: int| 0 <= k < t.len() ==> t[k] == s@[i + k]);
    }
    let (dash, year, open, close) = rule_parts(rule);
    if dash {
        dash_match_len(s, i, year, rule)
    } else {
        if s[i] != open {
            return None;
        }
        match find_char_from(s, i + 1, close) {
            None => {
                proof {
                    assert forall|l: int| !rule_match_at(t, rule, l) by {
                        if delim_match_at(t, rule, l) {
                            assert(s@[i + l - 1] == rule_close(rule));
                        }
                    }
                }
                None
            },
            Some(j) => {
                let interior = subvec(s, i + 1, j);
                if span_pred_exec(rule, &interior) {
                    proof {
                        let l = j - i + 1;
                        assert(t[l - 1] == s@[j as int]);
                        assert forall|k: int| 1 <= k < l - 1 implies t[k] != rule_close(rule) by {
                            assert(t[k] == s@[i + k]);
                        }
                        assert(interior@ =~= t.subrange(1, l - 1));
                    }
                    Some(j - i + 1)
                } else {
                    proof {
                        // Any match would have to end at the first closing
                        // delimiter, whose interior fails the marker test.
                        assert forall|l: int| !rule_match_at(t, rule, l) by {
                            if delim_match_at(t, rule, l) {
                                assert(s@[i + l - 1] == rule_close(rule));
                                if i + l - 1 < j {
                                } else if i + l - 1 > j {
                                    assert(t[j - i] == s@[j as int]);
                                } else {
                                    assert(t.subrange(1, l - 1) =~= interior@);
                                }
                            }
                        }
                    }
                    None
                }
            },
        }
    }
}

/// Decides a dash rule's match against a prefix of `s[i..]`.
fn dash_match_len(s: &Vec<char>, i: usize, year: bool, rule: TitleRule) -> (r: Option<usize>)
    requires
        i < s@.len(),
        is_dash_rule(rule),
        year == dash_needs_year(rule),
    ensures
        ({
            let t = s@.subrange(i as int, s@.len() as int);
            match r {
                Some(l) => 2 <= l <= t.len() && rule_match_at(t, rule, l as int),
                None => forall|l: int| !rule_match_at(t, rule, l),
            }
        }),
{
    let ghost t = s@.subrange(i as int, s@.len() as int);
    let n = s.len();
    proof {
        reveal_strlit("emast");
        assert(forall|k: int| 0 <= k < t.len() ==> t[k] == s@[i + k]);
    }
    if s[i] != '-' {
        return None;
    }
    // First non-whitespace position after the dash.
    let m = skip_spaces_from(s, i + 1);
    // With a year demanded: four digits, then more whitespace, then the
    // marker; without: the marker at once.
    let m2: usize;
    if year {
        if n - m < 4 || !four_digits_at(s, m) {
            proof {
                lemma_dash_none(s@, i as int, m as int, year, rule);
            }
            return None;
        }
        m2 = skip_spaces_from(s, m + 4);
    } else {
        m2 = m;
    }
    let emast = str_to_chars("emast");
    let marker_ok = m2 < n && (s[m2] == 'r' || s[m2] == 'R') && match_at(s, m2 + 1, &emast);
    if !marker_ok {
        proof {
            assert(!remast_at(t, m2 - i)) by {
                if remast_at(t, m2 - i) {
                    assert(m2 + 6 <= s@.len());
                    assert(t[m2 - i] == s@[m2 as int]);
                    assert(t.subrange(m2 - i + 1, m2 - i + 6) =~= s@.subrange(m2 + 1, m2 + 6));
                    assert(contains_at(s@, m2 + 1, "emast"@));
                }
            }
            if year {
                lemma_dash_year_none(s@, i as int, m as int, m2 as int);
            } else {
                lemma_dash_none(s@, i as int, m as int, year, rule);
            }
        }
        return None;
    }
    let end = match find_char_from(s, m2 + 6, '-') {
        Some(j) => j,
        None => n,
    };
    proof {
        let l = end - i;
        let mm = m - i;
        let mm2 = m2 - i;
        assert(t.subrange(mm2 + 1, mm2 + 6) =~= s@.subrange(m2 + 1, m2 + 6));
        assert(s@.subrange(m2 + 1, m2 + 6) =~= emast@);
        assert(dash_witness(t, year, mm, mm2, l));
    }
    Some(end - i)
}

/// Decides whether four consecutive digits stand at `m`.
fn four_digits_at(s: &Vec<char>, m: usize) -> (r: bool)
    requires
        m + 4 <= s@.len(),
    ensures
        r == forall|k: int| m <= k < m + 4 ==> is_digit(s@[k]),
{
    let n = s.len();
    let r = crate::text::is_digit_char(s[m]) && crate::text::is_digit_char(s[m + 1])
        && crate::text::is_digit_char(s[m + 2]) && crate::text::is_digit_char(s[m + 3]);
    proof {
        if r {
            assert forall|k: int| m <= k < m + 4 implies is_digit(s@[k]) by {
                assert(k == m || k == m + 1 || k == m + 2 || k == m + 3);
            }
        }
    }
    r
}

/// When the first non-whitespace position after the dash fails the rule's
/// demand (digits for the year form, the marker otherwise), no match
/// length exists.
proof fn lemma_dash_none(s: Seq<char>, i: int, m: int, year: bool, rule: TitleRule)
    requires
        0 <= i < s.len(),
        i + 1 <= m <= s.len(),
        forall|k: int| i + 1 <= k < m ==> is_space(s[k]),
        m < s.len() ==> !is_space(s[m]),
        year ==> !(m + 4 <= s.len() && forall|k: int| m <= k < m + 4 ==> is_digit(s[k])),
        !year ==> !remast_at(s.subrange(i, s.len() as int), m - i),
        is_dash_rule(rule),
        year == dash_needs_year(rule),
    ensures
        forall|l: int| !rule_match_at(s.subrange(i, s.len() as int), rule, l),
{
    let t = s.subrange(i, s.len() as int);
    assert(forall|k: int| 0 <= k < t.len() ==> t[k] == s[i + k]);
    assert forall|l: int| !dash_match_at(t, year, l) by {
        if dash_match_at(t, year, l) {
            let (ma, m2a) = choose|ma: int, m2a: int| dash_witness(t, year, ma, m2a, l);
            // The witness position must be the first non-whitespace one.
            if i + ma < m {
                assert(is_space(s[i + ma]));
                if year {
                    assert(is_digit(t[ma]));
                } else {
                    assert(t[ma] == 'r' || t[ma] == 'R');
                }
            } else if i + ma > m {
                assert(m < s.len());
                assert(is_space(t[m - i]));
            } else {
                if year {
                    assert(ma + 4 <= t.len());
                    assert forall|k: int| m <= k < m + 4 implies is_digit(s[k]) by {
                        assert(is_digit(t[k - i]));
                    }
                } else {
                    assert(remast_at(t, m - i));
                }
            }
        }
    }
}

/// With the four digits present but the marker missing at the first
/// non-whitespace position after them, no year-form match length exists.
proof fn lemma_dash_year_none(s: Seq<char>, i: int, m: int, m2: int)
    requires
        0 <= i < s.len(),
        i + 1 <= m,
        m + 4 <= m2 <= s.len(),
        forall|k: int| i + 1 <= k < m ==> is_space(s[k]),
        m < s.len() ==> !is_space(s[m]),
        m + 4 <= s.len(),
        forall|k: int| m <= k < m + 4 ==> is_digit(s[k]),
        forall|k: int| m + 4 <= k < m2 ==> is_space(s[k]),
        m2 < s.len() ==> !is_space(s[m2]),
        !remast_at(s.subrange(i, s.len() as int), m2 - i),
    ensures
        forall|l: int| !rule_match_at(s.subrange(i, s.len() as int), TitleRule::DashYearRemaster, l),
{
    let t = s.subrange(i, s.len() as int);
    assert(forall|k: int| 0 <= k < t.len() ==> t[k] == s[i + k]);
    assert forall|l: int| !dash_match_at(t, true, l) by {
        if dash_match_at(t, true, l) {
            let (ma, m2a) = choose|ma: int, m2a: int| dash_witness(t, true, ma, m2a, l);
            if i + ma < m {
                assert(is_space(s[i + ma]));
                assert(is_digit(t[ma]));
            } else if i + ma > m {
                assert(m < s.len());
                assert(is_space(t[m - i]));
            }
            // ma lines up with m; now m2a must line up with m2.
            if i + m2a < m2 {
                assert(is_space(s[i + m2a]));
                assert(t[m2a] == 'r' || t[m2a] == 'R');
            } else if i + m2a > m2 {
                assert(m2 < s.len());
                assert(is_space(t[m2 - i]));
            }
        }
    }
}

/// Removes every match of the rule from `s`, scanning left to right.
pub fn strip_rule(s: &Vec<char>, rule: TitleRule) -> (r: Vec<char>)
    ensures
        r@ == strip_rule_spec(s@, rule),
{
    let mut out: Vec<char> = Vec::new();
    let mut i: usize = 0;
    proof {
        assert(s@.subrange(0, s@.len() as int) =~= s@);
        assert(Seq::<char>::empty() + strip_rule_spec(s@, rule) =~= strip_rule_spec(s@, rule));
    }
    while i < s.len()
        invariant
            i <= s@.len(),
            strip_rule_spec(s@, rule) == out@ + strip_rule_spec(
                s@.subrange(i as int, s@.len() as int),
                rule,
            ),
        decreases s@.len() - i,
    {
        let ghost t = s@.subrange(i as int, s@.len() as int);
        match rule_match_len(s, i, rule) {
            Some(l) => {
                proof {
                    let lc = choose|lc: int| rule_match_at(t, rule, lc);
                    lemma_rule_match_unique(t, rule, lc, l as int);
                    assert(t.subrange(l as int, t.len() as int) =~= s@.subrange(
                        i + l,
                        s@.len() as int,
                    ));
                }
                i = i + l;
            },
            None => {
                let ghost prev = out@;
                out.push(s[i]);
                proof {
                    assert(t[0] == s@[i as int]);
                    assert(t.subrange(1, t.len() as int) =~= s@.subrange(i + 1, s@.len() as int));
                    assert(out@ =~= prev + seq![t[0]]);
                    assert(prev + (seq![t[0]] + strip_rule_spec(
                        s@.subrange(i + 1, s@.len() as int),
                        rule,
                    )) =~= out@ + strip_rule_spec(s@.subrange(i + 1, s@.len() as int), rule));
                }
                i = i + 1;
            },
        }
    }
    proof {
        assert(s@.subrange(i as int, s@.len() as int) =~= Seq::<char>::empty());
        assert(out@ =~= out@ + strip_rule_spec(Seq::<char>::empty(), rule));
    }
    out
}

/// The fixed order in which the rules are applied. Each rule strips
/// globally and independently of the others.
pub open spec fn rule_order() -> Seq<TitleRule> {
    seq![
        TitleRule::ParenRemaster,
        TitleRule::BracketRemaster,
        TitleRule::ParenAcoustic,
        TitleRule::ParenLive,
        TitleRule::ParenVersion,
        TitleRule::ParenEdit,
        TitleRule::ParenYear,
        TitleRule::BracketYear,
        TitleRule::DashYearRemaster,
        TitleRule::DashRemaster,
    ]
}

/// The string after the first `k` rules of the fixed order have stripped
/// their matches in turn.
pub open spec fn strip_rules_upto(s: Seq<char>, k: int) -> Seq<char>
    decreases k,
{
    if k <= 0 {
        s
    } else {
        strip_rule_spec(strip_rules_upto(s, k - 1), rule_order()[k - 1])
    }
}

/// A decluttered title: every rule of the fixed order applied in turn,
/// then trimmed.
pub open spec fn declutter_spec(s: Seq<char>) -> Seq<char> {
    trim_spec(strip_rules_upto(s, rule_order().len() as int))
}

/// Strips version/remaster/live/edit qualifiers and year markers from a
/// raw song title and trims the result: the form used as a search term.
pub fn clean_song_title(title: &str) -> (r: String)
    ensures
        r@ == declutter_spec(title@),
{
    let rules: [TitleRule; 10] = [
        TitleRule::ParenRemaster,
        TitleRule::BracketRemaster,
        TitleRule::ParenAcoustic,
        TitleRule::ParenLive,
        TitleRule::ParenVersion,
        TitleRule::ParenEdit,
        TitleRule::ParenYear,
        TitleRule::BracketYear,
        TitleRule::DashYearRemaster,
        TitleRule::DashRemaster,
    ];
    let mut cur = str_to_chars(title);
    let mut k: usize = 0;
    while k < 10
        invariant
            k <= 10,
            rules@ == rule_order(),
            cur@ == strip_rules_upto(title@, k as int),
        decreases 10 - k,
    {
        cur = strip_rule(&cur, rules[k]);
        k = k + 1;
    }
    let trimmed = trim_chars(&cur);
    chars_to_string(&trimmed)
}

} // verus!
