//! Text search over terminal lines: plain matching with optional ASCII case
//! folding, and match navigation that wraps around.

use vstd::prelude::*;

use crate::text::{char_from_u32, chars_of, find_chars_from, find_from, lemma_find_from_found};

verus! {

/// One occurrence of a search pattern: its line, first column and length.
#[derive(Debug, Clone, Copy, PartialEq, Eq, Structural)]
pub struct SearchMatch {
    pub row: usize,
    pub col: usize,
    pub len: usize,
}

/// A search in progress: its query, all matches in order, and the one the
/// user is on.
#[derive(Debug, Clone)]
pub struct SearchState {
    pub query: String,
    pub matches: Vec<SearchMatch>,
    pub current: Option<usize>,
    pub case_sensitive: bool,
    pub regex: bool,
}

impl Default for SearchState {
    /// No query and no matches.
    fn default() -> (r: Self)
        ensures
            r.query@.len() == 0,
            r.matches@.len() == 0,
            r.current is None,
            !r.case_sensitive,
            !r.regex,
    {
        SearchState {
            query: String::new(),
            matches: Vec::new(),
            current: None,
            case_sensitive: false,
            regex: false,
        }
    }
}

/// A character as compared by a search: ASCII capitals fold to lower case
/// unless the search is case-sensitive.
pub open spec fn fold_char(c: char, case_sensitive: bool) -> char {
    if !case_sensitive && 'A' <= c <= 'Z' {
        ((c as u32) + 32) as char
    } else {
        c
    }
}

pub open spec fn fold(s: Seq<char>, case_sensitive: bool) -> Seq<char> {
    s.map_values(|c: char| fold_char(c, case_sensitive))
}

/// The starting columns of the non-overlapping occurrences of `q` in `text`
/// at or after `from`, scanning left to right. An empty pattern occurs nowhere.
pub open spec fn occurrences(text: Seq<char>, q: Seq<char>, from: int) -> Seq<int>
    decreases text.len() - from,
{
    if q.len() == 0 || from < 0 || from > text.len() {
        Seq::empty()
    } else {
        match find_from(text, q, from) {
            None => Seq::empty(),
            Some(i) => if i >= from && i + q.len() <= text.len() {
                seq![i] + occurrences(text, q, i + q.len())
            } else {
                Seq::empty()
            },
        }
    }
}

/// The matches of `q` on one line.
pub open spec fn line_matches(row: int, text: Seq<char>, q: Seq<char>, case_sensitive: bool) -> Seq<
    SearchMatch,
> {
    occurrences(fold(text, case_sensitive), fold(q, case_sensitive), 0).map_values(
        |col: int| SearchMatch { row: row as usize, col: col as usize, len: q.len() as usize },
    )
}

/// The matches of `q` on every line, line by line, left to right.
pub open spec fn all_matches(lines: Seq<Seq<char>>, q: Seq<char>, case_sensitive: bool) -> Seq<
    SearchMatch,
>
    decreases lines.len(),
{
    if lines.len() == 0 {
        Seq::empty()
    } else {
        all_matches(lines.drop_last(), q, case_sensitive) + line_matches(
            lines.len() - 1,
            lines.last(),
            q,
            case_sensitive,
        )
    }
}

/// The match after `current`, wrapping from the last (or from an index past
/// it) to the first; the first one where none is current.
pub open spec fn spec_next_index(current: Option<usize>, len: nat) -> Option<usize> {
    if len == 0 {
        None
    } else {
        match current {
            Some(i) => if i + 1 < len {
                Some((i + 1) as usize)
            } else {
                Some(0)
            },
            None => Some(0),
        }
    }
}

/// The match before `current`, wrapping from the first to the last; the last
/// one where none is current.
pub open spec fn spec_prev_index(current: Option<usize>, len: nat) -> Option<usize> {
    if len == 0 {
        None
    } else {
        match current {
            Some(i) => if i == 0 || i >= len {
                Some((len - 1) as usize)
            } else {
                Some((i - 1) as usize)
            },
            None => Some((len - 1) as usize),
        }
    }
}

/// The index of the match after `current`, wrapping around.
pub fn next_match_index(current: Option<usize>, len: usize) -> (r: Option<usize>)
    ensures
        r == spec_next_index(current, len as nat),
{
    if len == 0 {
        None
    } else {
        match current {
            Some(i) => Some(if i >= len - 1 { 0 } else { i + 1 }),
            None => Some(0),
        }
    }
}

/// The index of the match before `current`, wrapping around.
pub fn prev_match_index(current: Option<usize>, len: usize) -> (r: Option<usize>)
    ensures
        r == spec_prev_index(current, len as nat),
{
    if len == 0 {
        None
    } else {
        match current {
            Some(i) => Some(if i == 0 || i >= len { len - 1 } else { i - 1 }),
            None => Some(len - 1),
        }
    }
}

/// Fold a character for comparison.
pub(crate) fn fold_char_exec(c: char, case_sensitive: bool) -> (r: char)
    ensures
        r == fold_char(c, case_sensitive),
{
    if !case_sensitive && 'A' <= c && c <= 'Z' {
        match char_from_u32((c as u32) + 32) {
            Some(l) => l,
            None => c,
        }
    } else {
        c
    }
}

/// Fold every character of a line for comparison.
fn fold_chars(s: &[char], case_sensitive: bool) -> (r: Vec<char>)
    ensures
        r@ == fold(s@, case_sensitive),
{
    let mut r: Vec<char> = Vec::new();
    let mut i: usize = 0;
    while i < s.len()
        invariant
            0 <= i <= s@.len(),
            r@ == fold(s@.take(i as int), case_sensitive),
        decreases s@.len() - i,
    {
        r.push(fold_char_exec(s[i], case_sensitive));
        i = i + 1;
        proof {
            assert(r@ =~= fold(s@.take(i as int), case_sensitive));
        }
    }
    proof {
        assert(s@.take(s@.len() as int) =~= s@);
    }
    r
}

/// Append the matches of `query` on line `row` (whose text is `line`) to `out`.
pub fn push_line_matches(
    out: &mut Vec<SearchMatch>,
    row: usize,
    line: &[char],
    query: &[char],
    case_sensitive: bool,
)
    ensures
        final(out)@ == old(out)@ + line_matches(row as int, line@, query@, case_sensitive),
{
    let text = fold_chars(line, case_sensitive);
    let q = fold_chars(query, case_sensitive);
    let ghost t = text@;
    let ghost qs = q@;
    let ghost mk = |col: int| SearchMatch { row: row as usize, col: col as usize, len: query@.len() as usize };
    let ghost out0 = out@;
    if q.len() == 0 {
        proof {
            assert(line_matches(row as int, line@, query@, case_sensitive) =~= Seq::<SearchMatch>::empty());
            assert(out@ =~= out0 + Seq::<SearchMatch>::empty());
        }
        return;
    }
    let mut pos: usize = 0;
    let mut done = false;
    let tn = text.len();
    while !done
        invariant
            tn == t.len(),
            t == text@,
            qs == q@,
            qs.len() == query@.len(),
            qs.len() >= 1,
            !done ==> pos <= t.len(),
            !done ==> out0 + occurrences(t, qs, 0).map_values(mk) == out@ + occurrences(
                t,
                qs,
                pos as int,
            ).map_values(mk),
            done ==> out@ == out0 + occurrences(t, qs, 0).map_values(mk),
            mk == (|col: int| SearchMatch { row: row as usize, col: col as usize, len: query@.len() as usize }),
        decreases t.len() + 1 - pos + (if done { 0int } else { 1int }),
    {
        match find_chars_from(text.as_slice(), q.as_slice(), pos) {
            Some(i) => {
                proof {
                    let rest = occurrences(t, qs, (i + qs.len()) as int);
                    assert(occurrences(t, qs, pos as int) == seq![i as int] + rest);
                    assert((seq![i as int] + rest).map_values(mk) =~= seq![mk(i as int)]
                        + rest.map_values(mk));
                    assert(out@.push(mk(i as int)) + rest.map_values(mk) =~= out@ + (seq![mk(
                        i as int,
                    )] + rest.map_values(mk)));
                }
                out.push(SearchMatch { row, col: i, len: query.len() });
                pos = i + q.len();
            },
            None => {
                proof {
                    assert(occurrences(t, qs, pos as int) =~= Seq::<int>::empty());
                    assert(out@ + Seq::<int>::empty().map_values(mk) =~= out@);
                }
                done = true;
            },
        }
    }
    proof {
        assert(fold(query@, case_sensitive).len() == query@.len());
    }
}

/// All matches of `query` in `texts`, line by line, left to right.
pub fn find_all_matches(texts: &[String], query: &str, case_sensitive: bool) -> (r: Vec<SearchMatch>)
    ensures
        r@ == all_matches(texts@.map_values(|t: String| t@), query@, case_sensitive),
{
    let q = chars_of(query);
    let ghost lines = texts@.map_values(|t: String| t@);
    let mut out: Vec<SearchMatch> = Vec::new();
    let mut row: usize = 0;
    while row < texts.len()
        invariant
            0 <= row <= texts@.len(),
            lines == texts@.map_values(|t: String| t@),
            q@ == query@,
            out@ == all_matches(lines.take(row as int), query@, case_sensitive),
        decreases texts@.len() - row,
    {
        let line = chars_of(texts[row].as_str());
        push_line_matches(&mut out, row, line.as_slice(), q.as_slice(), case_sensitive);
        proof {
            assert(lines.take(row + 1).drop_last() =~= lines.take(row as int));
            assert(lines.take(row + 1).last() == texts@[row as int]@);
        }
        row = row + 1;
    }
    proof {
        assert(lines.take(texts@.len() as int) =~= lines);
    }
    out
}

/// Moving forward through every match once comes back to where it started.
pub proof fn law_next_cycles(i: usize, len: nat)
    requires
        i < len,
        len <= usize::MAX,
    ensures
        spec_prev_index(spec_next_index(Some(i), len), len) == Some(i),
        spec_next_index(spec_prev_index(Some(i), len), len) == Some(i),
{
}

/// The match reached after moving to the next one `k` times.
pub open spec fn next_steps(current: Option<usize>, len: nat, k: nat) -> Option<usize>
    decreases k,
{
    if k == 0 {
        current
    } else {
        spec_next_index(next_steps(current, len, (k - 1) as nat), len)
    }
}

/// Moving to the next match `k` times from match `i` lands on match
/// `(i + k) mod len`: navigation wraps around.
pub proof fn law_next_wraps_around(i: usize, len: nat, k: nat)
    requires
        i < len,
        len <= usize::MAX,
    ensures
        next_steps(Some(i), len, k) == Some(((i + k) % (len as int)) as usize),
    decreases k,
{
    if k == 0 {
        vstd::arithmetic::div_mod::lemma_fundamental_div_mod_converse(i as int, len as int, 0, i as int);
    } else {
        law_next_wraps_around(i, len, (k - 1) as nat);
        let a: int = i + k - 1;
        let q = a / (len as int);
        let r = a % (len as int);
        vstd::arithmetic::div_mod::lemma_fundamental_div_mod(a, len as int);
        assert(a == q * len + r) by (nonlinear_arith)
            requires
                a == len * q + r,
        ;
        vstd::arithmetic::div_mod::lemma_mod_bound(a, len as int);
        if r + 1 < len {
            assert(a + 1 == q * len + (r + 1));
            vstd::arithmetic::div_mod::lemma_fundamental_div_mod_converse(a + 1, len as int, q, r + 1);
        } else {
            assert(a + 1 == (q + 1) * len + 0) by (nonlinear_arith)
                requires
                    a == q * len + r,
                    r + 1 == len,
            ;
            vstd::arithmetic::div_mod::lemma_fundamental_div_mod_converse(a + 1, len as int, q + 1, 0);
        }
    }
}

/// Moving to the next match as many times as there are matches comes back
/// to where it started.
pub proof fn law_next_returns_to_start(i: usize, len: nat)
    requires
        i < len,
        len <= usize::MAX,
    ensures
        next_steps(Some(i), len, len) == Some(i),
{
    law_next_wraps_around(i, len, len);
    vstd::arithmetic::div_mod::lemma_fundamental_div_mod_converse(i + len, len as int, 1, i as int);
}


/// Whether `q` occurs in `text` starting at column `c`.
pub open spec fn occurs_at(text: Seq<char>, q: Seq<char>, c: int) -> bool {
    0 <= c && c + q.len() <= text.len() && text.subrange(c, c + q.len()) == q
}

/// `find_from` finds the first occurrence at or after `from`, and finds one
/// whenever there is one.
proof fn lemma_find_from_first(s: Seq<char>, pat: Seq<char>, from: int, c: int)
    requires
        0 <= from <= c,
        occurs_at(s, pat, c),
    ensures
        find_from(s, pat, from) matches Some(i) && i <= c,
    decreases c - from,
{
    if from + pat.len() > s.len() {
    } else if s.subrange(from, from + pat.len()) == pat {
    } else {
        assert(from != c);
        lemma_find_from_first(s, pat, from + 1, c);
    }
}

/// Plain-text search reports occurrences, and all the ones it can: every
/// column it reports (at or after `from`) is where the pattern occurs, the
/// columns come in increasing order without overlapping; and every column
/// where the pattern occurs, not overlapped by a match reported before it,
/// is reported. So two separate occurrences on one line give two matches.
pub proof fn law_occurrences_are_all_separate_matches(text: Seq<char>, q: Seq<char>, from: int, c: int)
    requires
        q.len() > 0,
        0 <= from,
    ensures
        forall|k: int| 0 <= k < occurrences(text, q, from).len() ==> from <= #[trigger] occurrences(text, q, from)[k]
            && occurs_at(text, q, occurrences(text, q, from)[k]),
        forall|k1: int, k2: int| 0 <= k1 < k2 < occurrences(text, q, from).len() ==>
            #[trigger] occurrences(text, q, from)[k1] + q.len() <= #[trigger] occurrences(text, q, from)[k2],
        from <= c && occurs_at(text, q, c) && (forall|k: int| 0 <= k < occurrences(text, q, from).len()
            && #[trigger] occurrences(text, q, from)[k] < c ==> occurrences(text, q, from)[k] + q.len() <= c)
            ==> occurrences(text, q, from).contains(c),
    decreases text.len() - from,
{
    let occ = occurrences(text, q, from);
    if from <= text.len() {
        lemma_find_from_found(text, q, from);
        match find_from(text, q, from) {
            None => {
                if from <= c && occurs_at(text, q, c) {
                    lemma_find_from_first(text, q, from, c);
                }
            },
            Some(i) => {
                if i >= from && i + q.len() <= text.len() {
                    let next = i + q.len();
                    let rest = occurrences(text, q, next);
                    assert(occ == seq![i] + rest);
                    law_occurrences_are_all_separate_matches(text, q, next, c);
                    assert forall|k: int| 0 <= k < rest.len() implies next <= #[trigger] rest[k] by {}
                    assert forall|k: int| 0 <= k < occ.len() implies from <= #[trigger] occ[k] && occurs_at(
                        text,
                        q,
                        occ[k],
                    ) by {
                        if k > 0 {
                            assert(occ[k] == rest[k - 1]);
                        }
                    }
                    assert forall|k1: int, k2: int| 0 <= k1 < k2 < occ.len() implies #[trigger] occ[k1] + q.len()
                        <= #[trigger] occ[k2] by {
                        assert(occ[k2] == rest[k2 - 1]);
                        if k1 > 0 {
                            assert(occ[k1] == rest[k1 - 1]);
                        }
                    }
                    if from <= c && occurs_at(text, q, c) && (forall|k: int| 0 <= k < occ.len()
                        && #[trigger] occ[k] < c ==> occ[k] + q.len() <= c) {
                        lemma_find_from_first(text, q, from, c);
                        if i == c {
                            assert(occ[0] == c);
                        } else {
                            assert(occ[0] < c);
                            assert forall|k: int| 0 <= k < rest.len() && #[trigger] rest[k] < c implies rest[k]
                                + q.len() <= c by {
                                assert(occ[k + 1] == rest[k]);
                            }
                            let k = choose|k: int| 0 <= k < rest.len() && rest[k] == c;
                            assert(occ[k + 1] == c);
                        }
                    }
                }
            },
        }
    }
}

} // verus!
