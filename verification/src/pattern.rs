//! Regular-expression search over terminal lines, with the `regex` crate.
//!
//! The regex crate compiles patterns and finds their matches; this module
//! turns the byte offsets it reports into character columns.

use vstd::prelude::*;
use crate::search::SearchMatch;
use crate::statusbar::{chars_within, utf8_len};
use crate::text::{chars_of, push_str, string_from_chars};

verus! {

#[verifier::external_type_specification]
#[verifier::external_body]
pub struct ExRegex(regex::Regex);

#[verifier::external_type_specification]
#[verifier::external_body]
pub struct ExRegexError(regex::Error);

/// Whether `regex::Regex::new` compiles a pattern (it refuses invalid
/// patterns and ones whose compiled form exceeds the default size limit).
pub uninterp spec fn regex_accepts(pattern: Seq<char>) -> bool;

/// The byte spans, start and end, of the successive non-overlapping matches
/// that `regex::Regex::find_iter` yields for the compiled `pattern` over
/// `haystack`.
pub uninterp spec fn regex_spans(pattern: Seq<char>, haystack: Seq<char>) -> Seq<(usize, usize)>;

/// Calls `regex::Regex::new`; it succeeds exactly when the pattern is
/// accepted, which is left named.
#[verifier::external_body]
fn regex_new(pattern: &str) -> (r: Result<regex::Regex, regex::Error>)
    ensures
        r is Ok <==> regex_accepts(pattern@),
{
    regex::Regex::new(pattern)
}

/// A compiled regular expression, viewed as the pattern it was compiled from.
pub struct Pattern {
    regex: regex::Regex,
    source: String,
}

impl View for Pattern {
    type V = Seq<char>;

    closed spec fn view(&self) -> Seq<char> {
        self.source@
    }
}

/// Calls `regex::Regex::find_iter` on the pattern's compiled form and keeps
/// each match's byte offsets. The spans are left named; the regex crate
/// documents that each start is at most its end.
#[verifier::external_body]
fn find_spans(pattern: &Pattern, haystack: &str) -> (r: Vec<(usize, usize)>)
    ensures
        r@ == regex_spans(pattern@, haystack@),
        forall|i: int| 0 <= i < r@.len() ==> (#[trigger] r@[i]).0 <= r@[i].1,
{
    pattern.regex.find_iter(haystack).map(|m| (m.start(), m.end())).collect()
}

/// The pattern actually compiled: `(?i)` in front makes it ignore case.
pub open spec fn effective_pattern(pattern: Seq<char>, case_sensitive: bool) -> Seq<char> {
    if case_sensitive {
        pattern
    } else {
        "(?i)"@ + pattern
    }
}

impl Pattern {
    /// Compile `pattern`, ignoring case unless `case_sensitive`; an error
    /// where the regex crate refuses it.
    pub fn new(pattern: &str, case_sensitive: bool) -> (r: Result<Pattern, regex::Error>)
        ensures
            r is Ok <==> regex_accepts(effective_pattern(pattern@, case_sensitive)),
            r matches Ok(p) ==> p@ == effective_pattern(pattern@, case_sensitive),
    {
        let source = if case_sensitive {
            pattern.to_owned()
        } else {
            let mut v = chars_of("(?i)");
            push_str(&mut v, pattern);
            string_from_chars(v.as_slice())
        };
        match regex_new(source.as_str()) {
            Ok(regex) => Ok(Pattern { regex, source }),
            Err(e) => Err(e),
        }
    }
}

/// The match of line `row` for a byte span of its text: the span's first
/// character and its length in characters.
pub open spec fn span_match(row: int, text: Seq<char>, span: (usize, usize)) -> SearchMatch {
    let first = chars_within(text, span.0 as nat);
    let last = chars_within(text, span.1 as nat);
    SearchMatch { row: row as usize, col: first as usize, len: (last - first) as usize }
}

/// The matches of the pattern in line `row`, whose text is `text`.
pub open spec fn regex_line_matches(pattern: Seq<char>, row: int, text: Seq<char>) -> Seq<SearchMatch> {
    regex_spans(pattern, text).map_values(|s: (usize, usize)| span_match(row, text, s))
}

/// The matches of the pattern in every line, line by line.
pub open spec fn regex_all_matches(pattern: Seq<char>, lines: Seq<Seq<char>>) -> Seq<SearchMatch>
    decreases lines.len(),
{
    if lines.len() == 0 {
        Seq::empty()
    } else {
        regex_all_matches(pattern, lines.drop_last()) + regex_line_matches(
            pattern,
            lines.len() - 1,
            lines.last(),
        )
    }
}

proof fn lemma_chars_within_bounded(s: Seq<char>, n: nat)
    ensures
        chars_within(s, n) <= s.len(),
    decreases s.len(),
{
    if s.len() > 0 && utf8_len(s) > n {
        lemma_chars_within_bounded(s.drop_last(), n);
    }
}

proof fn lemma_chars_within_monotone(s: Seq<char>, a: nat, b: nat)
    requires
        a <= b,
    ensures
        chars_within(s, a) <= chars_within(s, b),
    decreases s.len(),
{
    if s.len() > 0 {
        lemma_chars_within_monotone(s.drop_last(), a, b);
        lemma_chars_within_bounded(s.drop_last(), a);
    }
}

/// The number of characters of `text` that end at or before byte `byte`.
fn chars_before_byte(text: &[char], byte: usize) -> (r: usize)
    ensures
        r == chars_within(text@, byte as nat),
{
    // Walk down from the whole text, as the definition does.
    let mut k: usize = text.len();
    // Byte length of text[..k], computed front to back first.
    let mut total: u128 = 0;
    let mut i: usize = 0;
    while i < text.len()
        invariant
            0 <= i <= text@.len(),
            total == utf8_len(text@.take(i as int)),
            total <= 4 * i,
        decreases text@.len() - i,
    {
        proof {
            assert(text@.take(i + 1).drop_last() =~= text@.take(i as int));
        }
        total = total + crate::statusbar::char_bytes(text[i]) as u128;
        i = i + 1;
    }
    proof {
        assert(text@.take(text@.len() as int) =~= text@);
    }
    while k > 0 && total > byte as u128
        invariant
            0 <= k <= text@.len(),
            total == utf8_len(text@.take(k as int)),
            chars_within(text@, byte as nat) == chars_within(text@.take(k as int), byte as nat),
        decreases k,
    {
        proof {
            assert(text@.take(k as int).drop_last() =~= text@.take(k - 1));
            assert(text@.take(k as int).last() == text@[k - 1]);
        }
        total = total - crate::statusbar::char_bytes(text[k - 1]) as u128;
        k = k - 1;
    }
    proof {
        assert(text@.take(k as int).len() == k);
    }
    k
}

/// The matches of `pattern` in one line of text, appended to `out`.
pub fn push_regex_line_matches(out: &mut Vec<SearchMatch>, row: usize, text: &[char], pattern: &Pattern)
    ensures
        final(out)@ == old(out)@ + regex_line_matches(pattern@, row as int, text@),
{
    let haystack = string_from_chars(text);
    let spans = find_spans(pattern, haystack.as_str());
    let ghost start = out@;
    let mut i: usize = 0;
    while i < spans.len()
        invariant
            0 <= i <= spans@.len(),
            haystack@ == text@,
            spans@ == regex_spans(pattern@, text@),
            forall|j: int| 0 <= j < spans@.len() ==> (#[trigger] spans@[j]).0 <= spans@[j].1,
            out@ == start + regex_spans(pattern@, text@).take(i as int).map_values(
                |s: (usize, usize)| span_match(row as int, text@, s),
            ),
        decreases spans@.len() - i,
    {
        let (s, e) = spans[i];
        let first = chars_before_byte(text, s);
        let last = chars_before_byte(text, e);
        proof {
            assert(spans@[i as int] == (s, e));
            lemma_chars_within_monotone(text@, s as nat, e as nat);
        }
        out.push(SearchMatch { row, col: first, len: last - first });
        proof {
            let f = |sp: (usize, usize)| span_match(row as int, text@, sp);
            assert(regex_spans(pattern@, text@).take(i + 1).map_values(f) =~= regex_spans(
                pattern@,
                text@,
            ).take(i as int).map_values(f).push(f(spans@[i as int])));
        }
        i = i + 1;
    }
    proof {
        assert(regex_spans(pattern@, text@).take(spans@.len() as int) =~= regex_spans(pattern@, text@));
    }
}

} // verus!
