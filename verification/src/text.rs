//! Small text utilities over character sequences: splitting, number parsing,
//! whitespace trimming and substring search.

use vstd::prelude::*;

verus! {

broadcast use vstd::string::group_string_axioms;

/// The characters of a string slice, in order.
pub fn chars_of(s: &str) -> (r: Vec<char>)
    ensures
        r@ == s@,
{
    let mut v: Vec<char> = Vec::new();
    for c in it: s.chars()
        invariant
            it.seq() == s@,
            v@ == s@.take(it.index() as int),
            it.index() <= s@.len(),
    {
        proof {
            assert(s@.take(it.index() + 1) =~= s@.take(it.index() as int).push(c));
        }
        v.push(c);
    }
    v
}

/// A string holding the given characters: calls `String::from_iter`, which
/// collects the characters in order, as its documentation says.
#[verifier::external_body]
pub(crate) fn string_from_chars(chars: &[char]) -> (s: String)
    ensures
        s@ == chars@,
{
    String::from_iter(chars.iter())
}

/// The parts of `s` between occurrences of `sep`, in order: one part where
/// `sep` does not occur, an empty part at either end where `s` starts or ends
/// with it.
pub open spec fn split_on(s: Seq<char>, sep: char) -> Seq<Seq<char>>
    decreases s.len(),
{
    if s.len() == 0 {
        seq![Seq::<char>::empty()]
    } else {
        let init = split_on(s.drop_last(), sep);
        if s.last() == sep {
            init.push(Seq::<char>::empty())
        } else {
            init.update(init.len() - 1, init.last().push(s.last()))
        }
    }
}

/// Splitting always yields at least one part.
pub proof fn lemma_split_on_nonempty(s: Seq<char>, sep: char)
    ensures
        split_on(s, sep).len() >= 1,
    decreases s.len(),
{
    if s.len() > 0 {
        lemma_split_on_nonempty(s.drop_last(), sep);
    }
}

/// Split a character sequence at every occurrence of `sep`.
pub fn split_chars(s: &[char], sep: char) -> (parts: Vec<Vec<char>>)
    ensures
        parts@.map_values(|p: Vec<char>| p@) == split_on(s@, sep),
{
    let mut parts: Vec<Vec<char>> = Vec::new();
    let mut cur: Vec<char> = Vec::new();
    let mut i: usize = 0;
    while i < s.len()
        invariant
            0 <= i <= s@.len(),
            parts@.map_values(|p: Vec<char>| p@).push(cur@) == split_on(s@.take(i as int), sep),
        decreases s@.len() - i,
    {
        proof {
            assert(s@.take(i + 1).drop_last() =~= s@.take(i as int));
            lemma_split_on_nonempty(s@.take(i as int), sep);
        }
        let c = s[i];
        if c == sep {
            let done = cur;
            parts.push(done);
            cur = Vec::new();
            proof {
                assert(parts@.map_values(|p: Vec<char>| p@).push(cur@) =~= split_on(
                    s@.take(i as int),
                    sep,
                ).push(Seq::<char>::empty()));
            }
        } else {
            cur.push(c);
            proof {
                let prev = split_on(s@.take(i as int), sep);
                assert(parts@.map_values(|p: Vec<char>| p@).push(cur@) =~= prev.update(
                    prev.len() - 1,
                    prev.last().push(c),
                ));
            }
        }
        i = i + 1;
    }
    parts.push(cur);
    proof {
        assert(s@.take(s@.len() as int) =~= s@);
    }
    parts
}

pub open spec fn is_ascii_digit(c: char) -> bool {
    '0' <= c <= '9'
}

/// Whether every character of `s` is a decimal digit.
pub open spec fn all_digits(s: Seq<char>) -> bool {
    forall|i: int| 0 <= i < s.len() ==> is_ascii_digit(#[trigger] s[i])
}

/// The number written by a sequence of decimal digits.
pub open spec fn digits_value(s: Seq<char>) -> nat
    decreases s.len(),
{
    if s.len() == 0 {
        0
    } else {
        digits_value(s.drop_last()) * 10 + (s.last() as nat - '0' as nat) as nat
    }
}

/// The number that `str::parse` reads from `s` for an unsigned type whose
/// largest value is `max`: an optional `+`, then one or more decimal digits,
/// nothing else, and a value that fits.
pub open spec fn parse_unsigned(s: Seq<char>, max: nat) -> Option<nat> {
    let digits = if s.len() > 0 && s[0] == '+' { s.drop_first() } else { s };
    if digits.len() == 0 || !all_digits(digits) {
        None
    } else if digits_value(digits) > max {
        None
    } else {
        Some(digits_value(digits))
    }
}

/// Parse an unsigned decimal number no larger than `max`, as `str::parse`
/// does for an unsigned integer type whose largest value is `max`.
pub fn parse_unsigned_chars(s: &[char], max: u32) -> (r: Option<u32>)
    ensures
        match parse_unsigned(s@, max as nat) {
            Some(v) => r == Some(v as u32),
            None => r is None,
        },
{
    let start: usize = if s.len() > 0 && s[0] == '+' { 1 } else { 0 };
    let ghost digits = if s@.len() > 0 && s@[0] == '+' { s@.drop_first() } else { s@ };
    proof {
        assert(digits =~= s@.skip(start as int));
    }
    if start == s.len() {
        return None;
    }
    let mut value: u32 = 0;
    let mut overflow = false;
    let mut i = start;
    while i < s.len()
        invariant
            start <= i <= s@.len(),
            digits =~= s@.skip(start as int),
            digits == (if s@.len() > 0 && s@[0] == '+' { s@.drop_first() } else { s@ }),
            forall|j: int| 0 <= j < i - start ==> is_ascii_digit(#[trigger] digits[j]),
            !overflow ==> value == digits_value(digits.take(i - start)),
            !overflow ==> value <= max,
            overflow ==> digits_value(digits.take(i - start)) > max,
        decreases s@.len() - i,
    {
        let c = s[i];
        if !('0' <= c && c <= '9') {
            proof {
                assert(digits[i - start] == s@[i as int]);
                assert(!is_ascii_digit(digits[i - start]));
                assert(!all_digits(digits));
            }
            return None;
        }
        proof {
            assert(digits.take(i - start + 1).drop_last() =~= digits.take(i - start));
            assert(digits.take(i - start + 1).last() == c);
        }
        let d = (c as u32) - ('0' as u32);
        let next: u64 = (value as u64) * 10 + (d as u64);
        if overflow || next > max as u64 {
            proof {
                let prev = digits_value(digits.take(i - start));
                assert(prev * 10 + d > max) by (nonlinear_arith)
                    requires
                        prev > max || prev * 10 + d > max,
                ;
            }
            overflow = true;
        } else {
            value = next as u32;
        }
        i = i + 1;
    }
    proof {
        assert(digits.take(i - start) =~= digits);
    }
    if overflow {
        None
    } else {
        Some(value)
    }
}

/// Unicode `White_Space` characters, the ones `char::is_whitespace` accepts.
pub open spec fn is_whitespace(c: char) -> bool {
    ||| '\u{9}' <= c <= '\u{d}'
    ||| c == ' '
    ||| c == '\u{85}'
    ||| c == '\u{a0}'
    ||| c == '\u{1680}'
    ||| '\u{2000}' <= c <= '\u{200a}'
    ||| c == '\u{2028}'
    ||| c == '\u{2029}'
    ||| c == '\u{202f}'
    ||| c == '\u{205f}'
    ||| c == '\u{3000}'
}

/// Whether a character is Unicode whitespace.
pub fn char_is_whitespace(c: char) -> (r: bool)
    ensures
        r == is_whitespace(c),
{
    ('\u{9}' <= c && c <= '\u{d}') || c == ' ' || c == '\u{85}' || c == '\u{a0}' || c
        == '\u{1680}' || ('\u{2000}' <= c && c <= '\u{200a}') || c == '\u{2028}' || c
        == '\u{2029}' || c == '\u{202f}' || c == '\u{205f}' || c == '\u{3000}'
}

/// The number of leading whitespace characters of `s`.
pub open spec fn leading_ws(s: Seq<char>) -> nat
    decreases s.len(),
{
    if s.len() > 0 && is_whitespace(s[0]) {
        1 + leading_ws(s.drop_first())
    } else {
        0
    }
}

/// `s` without its leading whitespace.
pub open spec fn trim_start(s: Seq<char>) -> Seq<char> {
    s.skip(leading_ws(s) as int)
}

/// `s` without its trailing whitespace.
pub open spec fn trim_end(s: Seq<char>) -> Seq<char>
    decreases s.len(),
{
    if s.len() > 0 && is_whitespace(s.last()) {
        trim_end(s.drop_last())
    } else {
        s
    }
}

/// `s` without leading and trailing whitespace.
pub open spec fn trim(s: Seq<char>) -> Seq<char> {
    trim_end(trim_start(s))
}

pub proof fn lemma_leading_ws_bound(s: Seq<char>)
    ensures
        leading_ws(s) <= s.len(),
        forall|i: int| 0 <= i < leading_ws(s) ==> is_whitespace(#[trigger] s[i]),
        leading_ws(s) < s.len() ==> !is_whitespace(s[leading_ws(s) as int]),
    decreases s.len(),
{
    if s.len() > 0 && is_whitespace(s[0]) {
        lemma_leading_ws_bound(s.drop_first());
        assert forall|i: int| 0 <= i < leading_ws(s) implies is_whitespace(#[trigger] s[i]) by {
            if i > 0 {
                assert(s[i] == s.drop_first()[i - 1]);
            }
        }
    }
}

/// The number of leading whitespace characters of `s`, computed.
pub fn count_leading_ws(s: &[char]) -> (n: usize)
    ensures
        n == leading_ws(s@),
        n <= s@.len(),
{
    proof {
        lemma_leading_ws_bound(s@);
    }
    let mut i: usize = 0;
    proof {
        assert(s@.skip(0) =~= s@);
    }
    while i < s.len() && char_is_whitespace(s[i])
        invariant
            0 <= i <= s@.len(),
            leading_ws(s@) == i + leading_ws(s@.skip(i as int)),
        decreases s@.len() - i,
    {
        proof {
            assert(s@.skip(i as int).drop_first() =~= s@.skip(i + 1));
        }
        i = i + 1;
    }
    proof {
        if i < s.len() {
            assert(s@.skip(i as int)[0] == s@[i as int]);
        }
    }
    i
}

/// The number of characters of `s` left once trailing whitespace is removed.
pub fn len_without_trailing_ws(s: &[char]) -> (n: usize)
    ensures
        n <= s@.len(),
        s@.take(n as int) == trim_end(s@),
{
    let mut n = s.len();
    proof {
        assert(s@.take(n as int) =~= s@);
    }
    while n > 0 && char_is_whitespace(s[n - 1])
        invariant
            0 <= n <= s@.len(),
            trim_end(s@) == trim_end(s@.take(n as int)),
        decreases n,
    {
        proof {
            assert(s@.take(n as int).drop_last() =~= s@.take(n - 1));
        }
        n = n - 1;
    }
    proof {
        if n == 0 {
            assert(s@.take(0) =~= Seq::<char>::empty());
        }
    }
    n
}

/// The first index at or after `from` where `pat` occurs in `s`.
pub open spec fn find_from(s: Seq<char>, pat: Seq<char>, from: int) -> Option<int>
    decreases s.len() - from,
{
    if from < 0 || from + pat.len() > s.len() {
        None
    } else if s.subrange(from, from + pat.len()) == pat {
        Some(from)
    } else if from >= s.len() {
        None
    } else {
        find_from(s, pat, from + 1)
    }
}

/// The first index where `pat` occurs in `s`, as `str::find` reports it
/// (counted in characters).
pub open spec fn find(s: Seq<char>, pat: Seq<char>) -> Option<int> {
    find_from(s, pat, 0)
}

/// Where `find_from` reports an occurrence, it is one, and no earlier.
pub proof fn lemma_find_from_found(s: Seq<char>, pat: Seq<char>, from: int)
    ensures
        find_from(s, pat, from) matches Some(i) ==> {
            &&& from <= i
            &&& i + pat.len() <= s.len()
            &&& s.subrange(i, i + pat.len()) == pat
        },
    decreases s.len() - from,
{
    if !(from < 0 || from + pat.len() > s.len()) && s.subrange(from, from + pat.len()) != pat
        && from < s.len() {
        lemma_find_from_found(s, pat, from + 1);
    }
}

/// Find the first occurrence of `pat` in `s` at or after `from`.
pub fn find_chars_from(s: &[char], pat: &[char], from: usize) -> (r: Option<usize>)
    ensures
        r matches Some(i) ==> find_from(s@, pat@, from as int) == Some(i as int),
        r is None ==> find_from(s@, pat@, from as int) is None,
        r matches Some(i) ==> from <= i && i + pat@.len() <= s@.len() && s@.subrange(
            i as int,
            i + pat@.len(),
        ) == pat@,
{
    proof {
        lemma_find_from_found(s@, pat@, from as int);
    }
    let n = s.len();
    if pat.len() > n || from > n - pat.len() {
        return None;
    }
    if pat.len() == 0 {
        proof {
            assert(s@.subrange(from as int, from as int) =~= pat@);
        }
        return Some(from);
    }
    let last = n - pat.len();
    let mut i: usize = from;
    while i <= last
        invariant
            n == s@.len(),
            1 <= pat@.len() <= s@.len(),
            last == s@.len() - pat@.len(),
            from <= i <= last + 1,
            find_from(s@, pat@, from as int) == find_from(s@, pat@, i as int),
        decreases last + 1 - i,
    {
        let mut j: usize = 0;
        let mut same = true;
        proof {
            assert(s@.subrange(i as int, i as int) =~= pat@.take(0));
        }
        while j < pat.len() && same
            invariant
                n == s@.len(),
                i <= last,
                pat@.len() <= s@.len(),
                last == s@.len() - pat@.len(),
                0 <= j <= pat@.len(),
                same == (s@.subrange(i as int, i + j) == pat@.take(j as int)),
            decreases pat@.len() - j,
        {
            proof {
                assert(s@.subrange(i as int, i + j + 1) =~= s@.subrange(i as int, i + j).push(
                    s@[i + j],
                ));
                assert(pat@.take(j + 1) =~= pat@.take(j as int).push(pat@[j as int]));
                if s@.subrange(i as int, i + j) == pat@.take(j as int) && s@[i + j] != pat@[j as int] {
                    assert(s@.subrange(i as int, i + j + 1)[j as int] != pat@.take(j + 1)[j as int]);
                }
            }
            same = s[i + j] == pat[j];
            j = j + 1;
        }
        proof {
            assert(pat@.take(pat@.len() as int) =~= pat@);
            if !same {
                assert(s@.subrange(i as int, i + j) != pat@.take(j as int));
                if s@.subrange(i as int, i + pat@.len()) == pat@ {
                    assert(s@.subrange(i as int, i + j) =~= s@.subrange(i as int, i
                        + pat@.len()).take(j as int));
                }
            }
        }
        if same {
            return Some(i);
        }
        i = i + 1;
    }
    None
}

/// Find the first occurrence of `pat` in `s`.
pub fn find_chars(s: &[char], pat: &[char]) -> (r: Option<usize>)
    ensures
        r matches Some(i) ==> find(s@, pat@) == Some(i as int),
        r is None ==> find(s@, pat@) is None,
        r matches Some(i) ==> i + pat@.len() <= s@.len() && s@.subrange(i as int, i + pat@.len())
            == pat@,
{
    find_chars_from(s, pat, 0)
}

/// The character with the given scalar value, if it is one: calls
/// `char::from_u32`, documented to give `None` exactly for surrogates and
/// values above `0x10FFFF`.
#[verifier::external_body]
pub(crate) fn char_from_u32(v: u32) -> (r: Option<char>)
    ensures
        r is Some <==> (v <= 0x10ffff && !(0xd800 <= v <= 0xdfff)),
        r matches Some(c) ==> c as u32 == v && c == v as char,
{
    char::from_u32(v)
}


/// `s` without leading and trailing whitespace, as a vector.
pub fn trim_chars(s: &[char]) -> (r: Vec<char>)
    ensures
        r@ == trim(s@),
{
    let start = count_leading_ws(s);
    let rest = &s[start..s.len()];
    let n = len_without_trailing_ws(rest);
    proof {
        assert(rest@ =~= trim_start(s@));
    }
    let kept = &rest[0..n];
    proof {
        assert(kept@ =~= rest@.take(n as int));
    }
    vstd::slice::slice_to_vec(kept)
}

/// Whether two character sequences are equal.
pub fn chars_equal(a: &[char], b: &[char]) -> (r: bool)
    ensures
        r == (a@ == b@),
{
    if a.len() != b.len() {
        return false;
    }
    let mut i: usize = 0;
    while i < a.len()
        invariant
            0 <= i <= a@.len(),
            a@.len() == b@.len(),
            forall|j: int| 0 <= j < i ==> a@[j] == b@[j],
        decreases a@.len() - i,
    {
        if a[i] != b[i] {
            return false;
        }
        i = i + 1;
    }
    proof {
        assert(a@ =~= b@);
    }
    true
}

/// Whether a character sequence spells the given word.
pub fn spells(a: &[char], word: &str) -> (r: bool)
    ensures
        r == (a@ == word@),
{
    let w = chars_of(word);
    chars_equal(a, w.as_slice())
}


/// The decimal digit character for `d`.
pub open spec fn digit_char(d: nat) -> char {
    ((d + 48) as u32) as char
}

/// The decimal numeral of `n`, without leading zeros.
pub open spec fn decimal(n: nat) -> Seq<char>
    decreases n,
{
    if n < 10 {
        seq![digit_char(n)]
    } else {
        decimal(n / 10).push(digit_char(n % 10))
    }
}

/// The decimal numeral of `n`, as `Display` writes an unsigned integer.
pub fn decimal_chars(n: u64) -> (r: Vec<char>)
    ensures
        r@ == decimal(n as nat),
    decreases n,
{
    let d = (n % 10) as u8;
    let c = (d + 48) as char;
    if n < 10 {
        let mut v: Vec<char> = Vec::new();
        v.push(c);
        proof {
            assert(v@ =~= seq![digit_char(n as nat)]);
        }
        v
    } else {
        let mut v = decimal_chars(n / 10);
        v.push(c);
        v
    }
}

/// Append the characters of `s` to `v`.
pub fn push_str(v: &mut Vec<char>, s: &str)
    ensures
        final(v)@ == old(v)@ + s@,
{
    let mut tail = chars_of(s);
    v.append(&mut tail);
}


proof fn lemma_decimal_digits(n: nat)
    ensures
        decimal(n).len() >= 1,
        all_digits(decimal(n)),
        digits_value(decimal(n)) == n,
    decreases n,
{
    if n >= 10 {
        lemma_decimal_digits(n / 10);
        let d = decimal(n);
        assert(d.drop_last() =~= decimal(n / 10));
        assert forall|i: int| 0 <= i < d.len() implies is_ascii_digit(#[trigger] d[i]) by {
            if i < d.len() - 1 {
                assert(d[i] == decimal(n / 10)[i]);
            }
        }
        assert(d.last() == digit_char(n % 10));
        assert(digit_char(n % 10) as nat == n % 10 + 48);
        assert(n == (n / 10) * 10 + n % 10) by (nonlinear_arith);
        assert(('0' as nat) == 48);
        assert(digits_value(d) == digits_value(d.drop_last()) * 10 + ((d.last() as nat - '0' as nat) as nat));
        assert(digits_value(d) == (n / 10) * 10 + n % 10);
    } else {
        let d = decimal(n);
        assert(d.drop_last() =~= Seq::<char>::empty());
        assert(digit_char(n) as nat == n + 48);
        assert(('0' as nat) == 48);
        assert(digits_value(d) == digits_value(d.drop_last()) * 10 + ((d.last() as nat - '0' as nat) as nat));
        assert(digits_value(d.drop_last()) == 0);
    }
}

/// A number written in decimal reads back as the same number, wherever it
/// fits the type read.
pub proof fn law_decimal_parses_back(n: nat, max: nat)
    requires
        n <= max,
    ensures
        parse_unsigned(decimal(n), max) == Some(n),
{
    lemma_decimal_digits(n);
}

} // verus!
