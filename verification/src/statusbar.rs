//! The text of the bottom bar: the status bar with the session's tabs, and
//! the search prompt that replaces it while a query is typed.
//!
//! The bar is fitted to the terminal width counted in UTF-8 bytes: the left
//! text, then padding, then the right text when both fit; otherwise the left
//! text padded, or cut at the width.

use vstd::prelude::*;
use crate::text::{chars_of, decimal, decimal_chars, push_str};

verus! {

/// The number of bytes of a character in UTF-8.
pub open spec fn char_utf8_len(c: char) -> nat {
    if (c as u32) < 0x80 {
        1
    } else if (c as u32) < 0x800 {
        2
    } else if (c as u32) < 0x10000 {
        3
    } else {
        4
    }
}

/// The number of bytes of a character sequence in UTF-8.
pub open spec fn utf8_len(s: Seq<char>) -> nat
    decreases s.len(),
{
    if s.len() == 0 {
        0
    } else {
        utf8_len(s.drop_last()) + char_utf8_len(s.last())
    }
}

/// The number of leading characters of `s` that take at most `n` bytes.
pub open spec fn chars_within(s: Seq<char>, n: nat) -> nat
    decreases s.len(),
{
    if s.len() == 0 || utf8_len(s) <= n {
        s.len()
    } else {
        chars_within(s.drop_last(), n)
    }
}

/// `n` spaces.
pub open spec fn spaces(n: nat) -> Seq<char> {
    Seq::new(n, |i: int| ' ')
}

/// The bar of `width` bytes: `left`, padding and `right` when both fit; else
/// `left` padded to the width when it is shorter; else `left` cut at the
/// width.
pub open spec fn fitted_bar(left: Seq<char>, right: Seq<char>, width: nat) -> Seq<char> {
    let l = utf8_len(left);
    let r = utf8_len(right);
    if l + r <= width {
        left + spaces((width - l - r) as nat) + right
    } else if l < width {
        left + spaces((width - l) as nat)
    } else {
        left.take(chars_within(left, width) as int)
    }
}

/// Whether cutting `left` at `width` bytes falls between two characters
/// (cutting inside one is refused).
pub open spec fn cut_on_boundary(left: Seq<char>, width: nat) -> bool {
    utf8_len(left.take(chars_within(left, width) as int)) == width
}

/// Whether the bar of `left` and `right` can be fitted to `width`: the
/// lengths fit in memory, and a cut, where one is needed, falls between
/// characters.
pub open spec fn bar_fits(left: Seq<char>, right: Seq<char>, width: nat) -> bool {
    &&& utf8_len(left) + utf8_len(right) <= usize::MAX
    &&& utf8_len(left) >= width ==> cut_on_boundary(left, width)
}

pub(crate) fn char_bytes(c: char) -> (r: usize)
    ensures
        r == char_utf8_len(c),
{
    let v = c as u32;
    if v < 0x80 {
        1
    } else if v < 0x800 {
        2
    } else if v < 0x10000 {
        3
    } else {
        4
    }
}

proof fn lemma_utf8_len_prefix(s: Seq<char>, k: int)
    requires
        0 <= k <= s.len(),
    ensures
        utf8_len(s.take(k)) <= utf8_len(s),
    decreases s.len(),
{
    if k < s.len() {
        assert(s.drop_last().take(k) =~= s.take(k));
        lemma_utf8_len_prefix(s.drop_last(), k);
    } else {
        assert(s.take(k) =~= s);
    }
}

proof fn lemma_chars_within(s: Seq<char>, n: nat)
    ensures
        chars_within(s, n) <= s.len(),
        utf8_len(s.take(chars_within(s, n) as int)) <= n || chars_within(s, n) == 0,
        forall|k: int|
            chars_within(s, n) < k <= s.len() ==> utf8_len(#[trigger] s.take(k)) > n,
    decreases s.len(),
{
    if s.len() == 0 || utf8_len(s) <= n {
        assert(s.take(s.len() as int) =~= s);
    } else {
        lemma_chars_within(s.drop_last(), n);
        assert forall|k: int| chars_within(s, n) < k <= s.len() implies utf8_len(
            #[trigger] s.take(k),
        ) > n by {
            if k == s.len() {
                assert(s.take(k) =~= s);
            } else {
                assert(s.drop_last().take(k) =~= s.take(k));
            }
        }
        assert(s.drop_last().take(chars_within(s, n) as int) =~= s.take(chars_within(s, n) as int));
    }
}

/// The bar of `left` and `right` fitted to `width` bytes.
pub fn fit_bar(left: &[char], right: &[char], width: usize) -> (r: Vec<char>)
    requires
        bar_fits(left@, right@, width as nat),
    ensures
        r@ == fitted_bar(left@, right@, width as nat),
{
    // Byte lengths, with the byte length of every prefix of `left`.
    let mut l: usize = 0;
    let mut i: usize = 0;
    while i < left.len()
        invariant
            0 <= i <= left@.len(),
            l == utf8_len(left@.take(i as int)),
            utf8_len(left@) + utf8_len(right@) <= usize::MAX,
        decreases left@.len() - i,
    {
        proof {
            assert(left@.take(i + 1).drop_last() =~= left@.take(i as int));
            lemma_utf8_len_prefix(left@, i + 1);
        }
        l = l + char_bytes(left[i]);
        i = i + 1;
    }
    proof {
        assert(left@.take(left@.len() as int) =~= left@);
    }
    let mut r: usize = 0;
    let mut j: usize = 0;
    while j < right.len()
        invariant
            0 <= j <= right@.len(),
            l == utf8_len(left@),
            r == utf8_len(right@.take(j as int)),
            utf8_len(left@) + utf8_len(right@) <= usize::MAX,
        decreases right@.len() - j,
    {
        proof {
            assert(right@.take(j + 1).drop_last() =~= right@.take(j as int));
            lemma_utf8_len_prefix(right@, j + 1);
        }
        r = r + char_bytes(right[j]);
        j = j + 1;
    }
    proof {
        assert(right@.take(right@.len() as int) =~= right@);
    }
    let mut out: Vec<char> = Vec::new();
    if l + r <= width {
        out = vstd::slice::slice_to_vec(left);
        push_spaces(&mut out, width - l - r);
        let mut tail = vstd::slice::slice_to_vec(right);
        out.append(&mut tail);
    } else if l < width {
        out = vstd::slice::slice_to_vec(left);
        push_spaces(&mut out, width - l);
    } else {
        // Keep the longest prefix of `left` that fits in `width` bytes.
        let mut used: usize = 0;
        let mut k: usize = 0;
        proof {
            lemma_chars_within(left@, width as nat);
        }
        while k < left.len() && char_bytes(left[k]) <= width - used
            invariant
                0 <= k <= left@.len(),
                used == utf8_len(left@.take(k as int)),
                used <= width,
                k <= chars_within(left@, width as nat),
                chars_within(left@, width as nat) <= left@.len(),
                forall|m: int|
                    chars_within(left@, width as nat) < m <= left@.len() ==> utf8_len(
                        #[trigger] left@.take(m),
                    ) > width,
                utf8_len(left@) + utf8_len(right@) <= usize::MAX,
                out@ == left@.take(k as int),
            decreases left@.len() - k,
        {
            proof {
                assert(left@.take(k + 1).drop_last() =~= left@.take(k as int));
                assert(left@.take(k + 1).last() == left@[k as int]);
            }
            used = used + char_bytes(left[k]);
            out.push(left[k]);
            k = k + 1;
            proof {
                assert(out@ =~= left@.take(k as int));
            }
        }
        proof {
            if k < chars_within(left@, width as nat) {
                // The next character still fits, so the loop would have gone on.
                let c = chars_within(left@, width as nat);
                assert(left@.take(k + 1).drop_last() =~= left@.take(k as int));
                assert(left@.take(k + 1).last() == left@[k as int]);
                lemma_utf8_len_prefix(left@.take(c as int), k + 1);
                assert(left@.take(c as int).take(k + 1) =~= left@.take(k + 1));
                assert(utf8_len(left@.take(c as int)) == width);
                assert(false);
            }
        }
    }
    out
}

fn push_spaces(v: &mut Vec<char>, n: usize)
    ensures
        final(v)@ == old(v)@ + spaces(n as nat),
{
    let mut i: usize = 0;
    while i < n
        invariant
            0 <= i <= n,
            v@ == old(v)@ + spaces(i as nat),
        decreases n - i,
    {
        v.push(' ');
        i = i + 1;
        proof {
            assert(v@ =~= old(v)@ + spaces(i as nat));
        }
    }
}

/// The first `upto` tab names, each followed by a star and a space when it
/// is the active tab (else by a space), and a bar between consecutive tabs.
pub open spec fn tab_list(names: Seq<Seq<char>>, active: int, upto: int) -> Seq<char>
    decreases upto,
{
    if upto <= 0 {
        Seq::empty()
    } else {
        let i = upto - 1;
        tab_list(names, active, i) + names[i] + (if i == active {
            "* "@
        } else {
            " "@
        }) + (if i + 1 < names.len() {
            "| "@
        } else {
            Seq::empty()
        })
    }
}

/// The left text of the status bar.
pub open spec fn status_left(session: Seq<char>, tabs: Seq<Seq<char>>, active: int) -> Seq<char> {
    " ["@ + session + "] "@ + tab_list(tabs, active, tabs.len() as int)
}

/// The right text of the status bar: the pane count and the version.
pub open spec fn status_right(panes: nat) -> Seq<char> {
    decimal(panes) + " pane"@ + (if panes == 1 {
        Seq::empty()
    } else {
        "s"@
    }) + " | emux 0.1.0 "@
}

/// The left text of the status bar.
pub fn status_left_text(session: &str, tabs: &[String], active: usize) -> (r: Vec<char>)
    ensures
        r@ == status_left(session@, tabs@.map_values(|t: String| t@), active as int),
{
    let ghost names = tabs@.map_values(|t: String| t@);
    let mut left = chars_of(" [");
    push_str(&mut left, session);
    push_str(&mut left, "] ");
    let ghost head = left@;
    let mut i: usize = 0;
    while i < tabs.len()
        invariant
            0 <= i <= tabs@.len(),
            names == tabs@.map_values(|t: String| t@),
            left@ == head + tab_list(names, active as int, i as int),
        decreases tabs@.len() - i,
    {
        push_str(&mut left, tabs[i].as_str());
        if i == active {
            push_str(&mut left, "* ");
        } else {
            push_str(&mut left, " ");
        }
        if i + 1 < tabs.len() {
            push_str(&mut left, "| ");
        }
        proof {
            assert(names[i as int] == tabs@[i as int]@);
            assert(left@ =~= head + tab_list(names, active as int, i + 1));
        }
        i = i + 1;
    }
    proof {
        assert(left@ =~= status_left(session@, names, active as int));
    }
    left
}

/// The right text of the status bar.
pub fn status_right_text(panes: usize) -> (r: Vec<char>)
    ensures
        r@ == status_right(panes as nat),
{
    let mut right = decimal_chars(panes as u64);
    push_str(&mut right, " pane");
    if panes != 1 {
        push_str(&mut right, "s");
    }
    push_str(&mut right, " | emux 0.1.0 ");
    proof {
        assert(right@ =~= status_right(panes as nat));
    }
    right
}

/// The text of the status bar: the session and its tabs on the left, the
/// pane count and version on the right, fitted to `width` bytes.
pub fn status_bar_text(session: &str, tabs: &[String], active: usize, panes: usize, width: usize) -> (r: Vec<char>)
    requires
        bar_fits(
            status_left(session@, tabs@.map_values(|t: String| t@), active as int),
            status_right(panes as nat),
            width as nat,
        ),
    ensures
        r@ == fitted_bar(
            status_left(session@, tabs@.map_values(|t: String| t@), active as int),
            status_right(panes as nat),
            width as nat,
        ),
{
    let left = status_left_text(session, tabs, active);
    let right = status_right_text(panes);
    fit_bar(left.as_slice(), right.as_slice(), width)
}

/// The number of UTF-8 bytes of `s`, counted without overflow.
fn utf8_length(s: &[char]) -> (r: u128)
    ensures
        r == utf8_len(s@),
        r <= 4 * s@.len(),
{
    let mut total: u128 = 0;
    let mut i: usize = 0;
    while i < s.len()
        invariant
            0 <= i <= s@.len(),
            total == utf8_len(s@.take(i as int)),
            total <= 4 * i,
        decreases s@.len() - i,
    {
        proof {
            assert(s@.take(i + 1).drop_last() =~= s@.take(i as int));
        }
        total = total + char_bytes(s[i]) as u128;
        i = i + 1;
    }
    proof {
        assert(s@.take(s@.len() as int) =~= s@);
    }
    total
}

/// Whether a bar of `left` and `right` can be fitted to `width` bytes (a
/// cut inside a character is refused).
pub fn bar_fits_check(left: &[char], right: &[char], width: usize) -> (r: bool)
    ensures
        r == bar_fits(left@, right@, width as nat),
{
    let l = utf8_length(left);
    let r = utf8_length(right);
    let ln = left.len();
    let rn = right.len();
    assert(l <= 4 * ln && r <= 4 * rn);
    if l + r > usize::MAX as u128 {
        return false;
    }
    if l < width as u128 {
        return true;
    }
    // Find the longest prefix within the width and see whether it fills it.
    let mut used: u128 = 0;
    let mut k: usize = 0;
    proof {
        lemma_chars_within(left@, width as nat);
    }
    while k < left.len() && used + (char_bytes(left[k]) as u128) <= width as u128
        invariant
            0 <= k <= left@.len(),
            used == utf8_len(left@.take(k as int)),
            used <= width,
            k <= chars_within(left@, width as nat),
            chars_within(left@, width as nat) <= left@.len(),
            forall|m: int|
                chars_within(left@, width as nat) < m <= left@.len() ==> utf8_len(
                    #[trigger] left@.take(m),
                ) > width,
        decreases left@.len() - k,
    {
        proof {
            assert(left@.take(k + 1).drop_last() =~= left@.take(k as int));
            assert(left@.take(k + 1).last() == left@[k as int]);
        }
        used = used + char_bytes(left[k]) as u128;
        k = k + 1;
    }
    proof {
        if k < chars_within(left@, width as nat) {
            let c = chars_within(left@, width as nat);
            assert(left@.take(k + 1).drop_last() =~= left@.take(k as int));
            assert(left@.take(k + 1).last() == left@[k as int]);
            lemma_utf8_len_prefix(left@.take(c as int), k + 1);
            assert(left@.take(c as int).take(k + 1) =~= left@.take(k + 1));
            assert(false);
        }
    }
    used == width as u128
}

/// The left text of the search prompt: the query after a slash, with a
/// cursor mark.
pub open spec fn search_left(query: Seq<char>) -> Seq<char> {
    " /"@ + query + "_ "@
}

/// The right text of the search prompt: a hint while the query is empty,
/// else the current match's number (0 for none) out of the match count.
pub open spec fn search_right(query_empty: bool, current: Option<usize>, matches: nat) -> Seq<char> {
    if query_empty {
        " type to search, Esc to cancel "@
    } else {
        " "@ + decimal(
            match current {
                Some(i) => i + 1,
                None => 0,
            } as nat,
        ) + "/"@ + decimal(matches) + " matches "@
    }
}

/// The left text of the search prompt.
pub fn search_left_text(query: &[char]) -> (r: Vec<char>)
    ensures
        r@ == search_left(query@),
{
    let mut left = chars_of(" /");
    let mut q = vstd::slice::slice_to_vec(query);
    left.append(&mut q);
    push_str(&mut left, "_ ");
    proof {
        assert(left@ =~= search_left(query@));
    }
    left
}

/// The right text of the search prompt.
pub fn search_right_text(query_empty: bool, current: Option<usize>, matches: usize) -> (r: Vec<char>)
    requires
        current matches Some(i) ==> i < usize::MAX,
    ensures
        r@ == search_right(query_empty, current, matches as nat),
{
    if query_empty {
        chars_of(" type to search, Esc to cancel ")
    } else {
        let shown: usize = match current {
            Some(i) => i + 1,
            None => 0,
        };
        let mut r = chars_of(" ");
        let mut a = decimal_chars(shown as u64);
        r.append(&mut a);
        push_str(&mut r, "/");
        let mut b = decimal_chars(matches as u64);
        r.append(&mut b);
        push_str(&mut r, " matches ");
        proof {
            assert(r@ =~= search_right(query_empty, current, matches as nat));
        }
        r
    }
}

/// The text of the search prompt, fitted to `width` bytes.
pub fn search_bar_text(query: &[char], current: Option<usize>, matches: usize, width: usize) -> (r: Vec<char>)
    requires
        current matches Some(i) ==> i < usize::MAX,
        bar_fits(
            search_left(query@),
            search_right(query@.len() == 0, current, matches as nat),
            width as nat,
        ),
    ensures
        r@ == fitted_bar(
            search_left(query@),
            search_right(query@.len() == 0, current, matches as nat),
            width as nat,
        ),
{
    let left = search_left_text(query);
    let right = search_right_text(query.len() == 0, current, matches);
    fit_bar(left.as_slice(), right.as_slice(), width)
}

proof fn lemma_utf8_len_concat(a: Seq<char>, b: Seq<char>)
    ensures
        utf8_len(a + b) == utf8_len(a) + utf8_len(b),
    decreases b.len(),
{
    if b.len() == 0 {
        assert(a + b =~= a);
    } else {
        lemma_utf8_len_concat(a, b.drop_last());
        assert((a + b).drop_last() =~= a + b.drop_last());
        assert((a + b).last() == b.last());
    }
}

proof fn lemma_spaces_len(n: nat)
    ensures
        utf8_len(spaces(n)) == n,
    decreases n,
{
    if n > 0 {
        lemma_spaces_len((n - 1) as nat);
        assert(spaces(n).drop_last() =~= spaces((n - 1) as nat));
    }
}

/// The bar always fills the width exactly, counted in UTF-8 bytes.
pub proof fn law_bar_fills_width(left: Seq<char>, right: Seq<char>, width: nat)
    requires
        bar_fits(left, right, width),
    ensures
        utf8_len(fitted_bar(left, right, width)) == width,
{
    let l = utf8_len(left);
    let r = utf8_len(right);
    if l + r <= width {
        let pad = spaces((width - l - r) as nat);
        lemma_utf8_len_concat(left, pad);
        lemma_utf8_len_concat(left + pad, right);
        lemma_spaces_len((width - l - r) as nat);
    } else if l < width {
        lemma_utf8_len_concat(left, spaces((width - l) as nat));
        lemma_spaces_len((width - l) as nat);
    }
}

} // verus!
