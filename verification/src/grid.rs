//! The character grid of a terminal screen, with the scrollback of lines that
//! scrolled off its top.

use std::collections::VecDeque;

use vstd::prelude::*;

verus! {

/// Lines kept in the scrollback by default.
pub const DEFAULT_SCROLLBACK_LIMIT: usize = 10000;

/// The scrollback limit a grid of `rows` rows keeps when asked for `limit`:
/// the limit and the screen must fit in `usize` together.
pub open spec fn kept_limit(rows: nat, limit: nat) -> nat {
    if limit + rows > usize::MAX { (usize::MAX - rows) as nat } else { limit }
}

/// The scrollback after `line` enters it: the oldest line leaves once
/// `limit` lines are kept, and nothing is kept where `limit` is 0.
pub open spec fn push_bounded(sb: Seq<Seq<char>>, line: Seq<char>, limit: nat) -> Seq<Seq<char>> {
    if limit == 0 {
        sb
    } else if sb.len() >= limit {
        sb.drop_first().push(line)
    } else {
        sb.push(line)
    }
}

/// The scrollback after `lines` enter it, in order.
pub open spec fn push_all_bounded(sb: Seq<Seq<char>>, lines: Seq<Seq<char>>, limit: nat) -> Seq<
    Seq<char>,
>
    decreases lines.len(),
{
    if lines.len() == 0 {
        sb
    } else {
        push_bounded(push_all_bounded(sb, lines.drop_last(), limit), lines.last(), limit)
    }
}

/// The views of a sequence of rows.
pub open spec fn row_views(v: Seq<Vec<char>>) -> Seq<Seq<char>> {
    v.map_values(|l: Vec<char>| l@)
}

/// Viewing rows keeps their number and their order.
pub proof fn lemma_row_views(v: Seq<Vec<char>>)
    ensures
        #[trigger] row_views(v).len() == v.len(),
        forall|i: int| 0 <= i < v.len() ==> #[trigger] row_views(v)[i] == v[i]@,
{
}

pub proof fn lemma_views_remove(v: Seq<Vec<char>>, i: int)
    requires
        0 <= i < v.len(),
    ensures
        row_views(v.remove(i)) == row_views(v).remove(i),
{
    lemma_row_views(v);
    lemma_row_views(v.remove(i));
    assert(row_views(v.remove(i)) =~= row_views(v).remove(i));
}

pub proof fn lemma_views_insert(v: Seq<Vec<char>>, i: int, x: Vec<char>)
    requires
        0 <= i <= v.len(),
    ensures
        row_views(v.insert(i, x)) == row_views(v).insert(i, x@),
{
    lemma_row_views(v);
    lemma_row_views(v.insert(i, x));
    assert(row_views(v.insert(i, x)) =~= row_views(v).insert(i, x@));
}

pub proof fn lemma_views_push(v: Seq<Vec<char>>, x: Vec<char>)
    ensures
        row_views(v.push(x)) == row_views(v).push(x@),
{
    lemma_row_views(v);
    lemma_row_views(v.push(x));
    assert(row_views(v.push(x)) =~= row_views(v).push(x@));
}

/// One more blank row.
pub proof fn lemma_blank_rows_push(n: nat, cols: nat)
    ensures
        blank_rows(n + 1, cols) == blank_rows(n, cols).push(Seq::new(cols, |j: int| ' ')),
{
    assert(blank_rows(n + 1, cols) =~= blank_rows(n, cols).push(Seq::new(cols, |j: int| ' ')));
}

/// `n` blank rows of width `cols`.
pub open spec fn blank_rows(n: nat, cols: nat) -> Seq<Seq<char>> {
    Seq::new(n, |i: int| Seq::new(cols, |j: int| ' '))
}

/// `s` without its trailing blanks.
pub open spec fn trim_blanks(s: Seq<char>) -> Seq<char>
    decreases s.len(),
{
    if s.len() > 0 && s.last() == ' ' {
        trim_blanks(s.drop_last())
    } else {
        s
    }
}

/// A grid as a mathematical value: the screen rows, top to bottom, and the
/// scrollback, oldest line first.
pub ghost struct GridModel {
    pub cols: nat,
    pub rows: nat,
    pub lines: Seq<Seq<char>>,
    pub scrollback: Seq<Seq<char>>,
    pub scrollback_limit: nat,
}

impl GridModel {
    /// A blank grid.
    pub open spec fn blank(cols: nat, rows: nat, limit: nat) -> GridModel {
        GridModel {
            cols,
            rows,
            lines: blank_rows(rows, cols),
            scrollback: Seq::empty(),
            scrollback_limit: limit,
        }
    }

    pub open spec fn wf(self) -> bool {
        &&& self.cols >= 1
        &&& self.rows >= 1
        &&& self.scrollback.len() <= self.scrollback_limit
        &&& self.scrollback_limit + self.rows <= usize::MAX
        &&& self.lines.len() == self.rows
        &&& forall|i: int| 0 <= i < self.rows ==> (#[trigger] self.lines[i]).len() == self.cols
    }

    /// The grid with the character at (`row`, `col`) replaced.
    pub open spec fn with_char(self, row: int, col: int, c: char) -> GridModel {
        GridModel { lines: self.lines.update(row, self.lines[row].update(col, c)), ..self }
    }

    /// How many lines a scroll of `n` moves within rows `top..bottom`.
    pub open spec fn scroll_amount(top: nat, bottom: nat, n: nat) -> nat {
        if n < bottom - top { n } else { (bottom - top) as nat }
    }

    /// Rows `top..bottom` move up by `n` (at most the height of the region),
    /// blank rows enter at the bottom of the region, and the rows that leave
    /// the top of the screen go to the scrollback. Nothing changes unless
    /// `top < bottom <= rows`.
    pub open spec fn scrolled_up(self, top: nat, bottom: nat, n: nat) -> GridModel {
        if top < bottom && bottom <= self.rows {
            let k = Self::scroll_amount(top, bottom, n);
            GridModel {
                lines: self.lines.subrange(0, top as int) + self.lines.subrange(
                    (top + k) as int,
                    bottom as int,
                ) + blank_rows(k, self.cols) + self.lines.subrange(bottom as int, self.rows as int),
                scrollback: if top == 0 {
                    push_all_bounded(self.scrollback, self.lines.subrange(0, k as int), self.scrollback_limit)
                } else {
                    self.scrollback
                },
                ..self
            }
        } else {
            self
        }
    }

    /// Rows `top..bottom` move down by `n` (at most the height of the region)
    /// and blank rows enter at the top of the region. Nothing changes unless
    /// `top < bottom <= rows`.
    pub open spec fn scrolled_down(self, top: nat, bottom: nat, n: nat) -> GridModel {
        if top < bottom && bottom <= self.rows {
            let k = Self::scroll_amount(top, bottom, n);
            GridModel {
                lines: self.lines.subrange(0, top as int) + blank_rows(k, self.cols)
                    + self.lines.subrange(top as int, bottom - k) + self.lines.subrange(
                    bottom as int,
                    self.rows as int,
                ),
                ..self
            }
        } else {
            self
        }
    }

    /// All lines, scrollback first, then the screen.
    pub open spec fn all_lines(self) -> Seq<Seq<char>> {
        self.scrollback + self.lines
    }
}

/// The character grid of a terminal, with its scrollback.
#[derive(Debug, Clone)]
pub struct Grid {
    cols: usize,
    rows: usize,
    lines: Vec<Vec<char>>,
    scrollback: VecDeque<Vec<char>>,
    scrollback_limit: usize,
}

impl View for Grid {
    type V = GridModel;

    closed spec fn view(&self) -> GridModel {
        GridModel {
            cols: self.cols as nat,
            rows: self.rows as nat,
            lines: row_views(self.lines@),
            scrollback: row_views(self.scrollback@),
            scrollback_limit: self.scrollback_limit as nat,
        }
    }
}

/// A row of `cols` blanks.
fn blank_row(cols: usize) -> (r: Vec<char>)
    ensures
        r@ == Seq::new(cols as nat, |j: int| ' '),
{
    let mut r: Vec<char> = Vec::new();
    let mut i: usize = 0;
    while i < cols
        invariant
            0 <= i <= cols,
            r@ == Seq::new(i as nat, |j: int| ' '),
        decreases cols - i,
    {
        r.push(' ');
        i = i + 1;
        proof {
            assert(r@ =~= Seq::new(i as nat, |j: int| ' '));
        }
    }
    r
}

impl Grid {
    /// A blank grid of the given size (at least one column and one row) that
    /// keeps up to `DEFAULT_SCROLLBACK_LIMIT` lines of scrollback.
    pub fn new(cols: usize, rows: usize) -> (g: Self)
        ensures
            g@ == GridModel::blank(
                if cols == 0 { 1 } else { cols as nat },
                if rows == 0 { 1 } else { rows as nat },
                kept_limit(if rows == 0 { 1 } else { rows as nat }, DEFAULT_SCROLLBACK_LIMIT as nat),
            ),
            g@.wf(),
    {
        Self::with_scrollback_limit(cols, rows, DEFAULT_SCROLLBACK_LIMIT)
    }

    /// A blank grid of the given size (at least one column and one row) that
    /// keeps up to `limit` lines of scrollback (fewer where `limit` lines and
    /// the screen would not fit in `usize` together).
    pub fn with_scrollback_limit(cols: usize, rows: usize, limit: usize) -> (g: Self)
        ensures
            g@ == GridModel::blank(
                if cols == 0 { 1 } else { cols as nat },
                if rows == 0 { 1 } else { rows as nat },
                kept_limit(if rows == 0 { 1 } else { rows as nat }, limit as nat),
            ),
            g@.wf(),
    {
        let cols = if cols == 0 { 1 } else { cols };
        let rows = if rows == 0 { 1 } else { rows };
        let limit = if limit > usize::MAX - rows { usize::MAX - rows } else { limit };
        let mut lines: Vec<Vec<char>> = Vec::new();
        let mut i: usize = 0;
        while i < rows
            invariant
                0 <= i <= rows,
                row_views(lines@) == blank_rows(i as nat, cols as nat),
            decreases rows - i,
        {
            let ghost before = lines@;
            let blank = blank_row(cols);
            lines.push(blank);
            proof {
                lemma_views_push(before, blank);
                lemma_blank_rows_push(i as nat, cols as nat);
            }
            i = i + 1;
        }
        let g = Grid { cols, rows, lines, scrollback: VecDeque::new(), scrollback_limit: limit };
        proof {
            assert(row_views(g.scrollback@) =~= Seq::<Seq<char>>::empty());
        }
        g
    }

    /// Number of columns.
    pub fn cols(&self) -> (r: usize)
        ensures
            r == self@.cols,
    {
        self.cols
    }

    /// Number of rows on screen.
    pub fn rows(&self) -> (r: usize)
        ensures
            r == self@.rows,
    {
        self.rows
    }

    /// Number of lines in the scrollback.
    pub fn scrollback_len(&self) -> (r: usize)
        ensures
            r == self@.scrollback.len(),
    {
        self.scrollback.len()
    }

    /// The character at (`row`, `col`) of the screen.
    pub fn char_at(&self, row: usize, col: usize) -> (c: char)
        requires
            self@.wf(),
            row < self@.rows,
            col < self@.cols,
        ensures
            c == self@.lines[row as int][col as int],
    {
        proof {
            lemma_row_views(self.lines@);
            assert(self@.lines[row as int].len() == self@.cols);
        }
        self.lines[row][col]
    }

    /// Replace the character at (`row`, `col`) of the screen.
    pub fn set_char(&mut self, row: usize, col: usize, c: char)
        requires
            old(self)@.wf(),
            row < old(self)@.rows,
            col < old(self)@.cols,
        ensures
            final(self)@ == old(self)@.with_char(row as int, col as int, c),
            final(self)@.wf(),
    {
        proof {
            lemma_row_views(self.lines@);
            assert(self@.lines[row as int].len() == self@.cols);
        }
        let ghost before = self.lines@;
        let mut line = self.lines.remove(row);
        line.set(col, c);
        self.lines.insert(row, line);
        proof {
            lemma_views_remove(before, row as int);
            lemma_views_insert(before.remove(row as int), row as int, line);
            lemma_row_views(self.lines@);
            assert(row_views(self.lines@) =~= old(self)@.lines.update(
                row as int,
                old(self)@.lines[row as int].update(col as int, c),
            ));
        }
    }

    /// Scroll rows `top..bottom` up by `n` lines; rows leaving the top of the
    /// screen go to the scrollback. A region that is empty or does not fit
    /// on the screen leaves the grid as it is.
    pub fn scroll_up(&mut self, top: usize, bottom: usize, n: usize)
        requires
            old(self)@.wf(),
        ensures
            final(self)@ == old(self)@.scrolled_up(top as nat, bottom as nat, n as nat),
            final(self)@.wf(),
    {
        if !(top < bottom && bottom <= self.rows) {
            return;
        }
        let k = if n < bottom - top { n } else { bottom - top };
        let ghost g0 = self@;
        let mut i: usize = 0;
        while i < k
            invariant
                top < bottom <= g0.rows,
                g0.wf(),
                k <= bottom - top,
                0 <= i <= k,
                self.cols == g0.cols,
                self.rows == g0.rows,
                row_views(self.lines@) == g0.lines.subrange(0, top as int) + g0.lines.subrange(
                    top + i,
                    bottom as int,
                ) + blank_rows(i as nat, g0.cols) + g0.lines.subrange(bottom as int, g0.rows as int),
                self.scrollback_limit == g0.scrollback_limit,
                row_views(self.scrollback@) == (if top == 0 {
                    push_all_bounded(g0.scrollback, g0.lines.subrange(0, i as int), g0.scrollback_limit)
                } else {
                    g0.scrollback
                }),
                row_views(self.scrollback@).len() <= g0.scrollback_limit,
            decreases k - i,
        {
            let ghost v0 = self.lines@;
            let ghost s0 = self.scrollback@;
            let ghost a = g0.lines.subrange(0, top as int);
            let ghost b = g0.lines.subrange(top + i, bottom as int);
            let ghost c = blank_rows(i as nat, g0.cols);
            let ghost d = g0.lines.subrange(bottom as int, g0.rows as int);
            proof {
                lemma_row_views(v0);
                assert((a + b + c + d)[top as int] == g0.lines[top + i]);
            }
            let line = self.lines.remove(top);
            proof {
                lemma_views_remove(v0, top as int);
                assert((a + b + c + d).remove(top as int) =~= a + b.drop_first() + c + d);
            }
            if top == 0 {
                proof {
                    lemma_row_views(s0);
                    assert(g0.lines.subrange(0, i + 1).drop_last() =~= g0.lines.subrange(0, i as int));
                    assert(g0.lines.subrange(0, i + 1).last() == line@);
                }
                if self.scrollback_limit > 0 {
                    if self.scrollback.len() >= self.scrollback_limit {
                        self.scrollback.pop_front();
                        proof {
                            lemma_row_views(s0);
                            assert(row_views(self.scrollback@) =~= row_views(s0).drop_first());
                        }
                    }
                    let ghost s1 = self.scrollback@;
                    self.scrollback.push_back(line);
                    proof {
                        lemma_views_push(s1, line);
                    }
                }
            }
            let ghost v1 = self.lines@;
            let blank = blank_row(self.cols);
            self.lines.insert(bottom - 1, blank);
            proof {
                lemma_views_insert(v1, bottom - 1, blank);
                lemma_blank_rows_push(i as nat, g0.cols);
                assert(b.drop_first() =~= g0.lines.subrange(top + i + 1, bottom as int));
                assert((a + b.drop_first() + c + d).insert(bottom - 1, blank@) =~= a
                    + b.drop_first() + c.push(blank@) + d);
            }
            i = i + 1;
        }
        proof {
            assert(self@.lines.len() == g0.rows);
        }
    }

    /// Scroll rows `top..bottom` down by `n` lines. A region that is empty or
    /// does not fit on the screen leaves the grid as it is.
    pub fn scroll_down(&mut self, top: usize, bottom: usize, n: usize)
        requires
            old(self)@.wf(),
        ensures
            final(self)@ == old(self)@.scrolled_down(top as nat, bottom as nat, n as nat),
            final(self)@.wf(),
    {
        if !(top < bottom && bottom <= self.rows) {
            return;
        }
        let k = if n < bottom - top { n } else { bottom - top };
        let ghost g0 = self@;
        let mut i: usize = 0;
        while i < k
            invariant
                top < bottom <= g0.rows,
                g0.wf(),
                k <= bottom - top,
                0 <= i <= k,
                self.cols == g0.cols,
                self.rows == g0.rows,
                row_views(self.scrollback@) == g0.scrollback,
                self.scrollback_limit == g0.scrollback_limit,
                row_views(self.lines@) == g0.lines.subrange(0, top as int) + blank_rows(
                    i as nat,
                    g0.cols,
                ) + g0.lines.subrange(top as int, bottom - i) + g0.lines.subrange(
                    bottom as int,
                    g0.rows as int,
                ),
            decreases k - i,
        {
            let ghost v0 = self.lines@;
            let ghost a = g0.lines.subrange(0, top as int);
            let ghost c = blank_rows(i as nat, g0.cols);
            let ghost b = g0.lines.subrange(top as int, bottom - i);
            let ghost d = g0.lines.subrange(bottom as int, g0.rows as int);
            proof {
                lemma_row_views(v0);
            }
            self.lines.remove(bottom - 1);
            proof {
                lemma_views_remove(v0, bottom - 1);
                assert((a + c + b + d).remove(bottom - 1) =~= a + c + b.drop_last() + d);
            }
            let ghost v1 = self.lines@;
            let blank = blank_row(self.cols);
            self.lines.insert(top, blank);
            proof {
                lemma_views_insert(v1, top as int, blank);
                lemma_blank_rows_push(i as nat, g0.cols);
                assert(b.drop_last() =~= g0.lines.subrange(top as int, bottom - i - 1));
                assert(c.push(blank@) =~= blank_rows((i + 1) as nat, g0.cols));
                assert((a + c + b.drop_last() + d).insert(top as int, blank@) =~= a + c.push(blank@)
                    + b.drop_last() + d);
            }
            i = i + 1;
        }
    }

    /// The text of screen row `row`, without trailing blanks.
    pub fn row_text(&self, row: usize) -> (s: String)
        requires
            self@.wf(),
            row < self@.rows,
        ensures
            s@ == trim_blanks(self@.lines[row as int]),
    {
        proof {
            lemma_row_views(self.lines@);
        }
        let line = &self.lines[row];
        let n = trimmed_len(line.as_slice());
        crate::text::string_from_chars(&line.as_slice()[0..n])
    }

    /// The characters of line `index` of scrollback-then-screen, without
    /// trailing blanks.
    pub fn line_chars(&self, index: usize) -> (s: Vec<char>)
        requires
            self@.wf(),
            index < self@.scrollback.len() + self@.rows,
        ensures
            s@ == trim_blanks(self@.all_lines()[index as int]),
    {
        proof {
            lemma_row_views(self.lines@);
            lemma_row_views(self.scrollback@);
        }
        let sb = self.scrollback.len();
        let line = if index < sb { &self.scrollback[index] } else { &self.lines[index - sb] };
        let n = trimmed_len(line.as_slice());
        let mut out: Vec<char> = Vec::new();
        let mut i: usize = 0;
        while i < n
            invariant
                n <= line@.len(),
                0 <= i <= n,
                out@ == line@.take(i as int),
            decreases n - i,
        {
            proof {
                assert(line@.take(i + 1) =~= line@.take(i as int).push(line@[i as int]));
            }
            out.push(line[i]);
            i = i + 1;
        }
        proof {
            if index < sb {
                assert(self@.all_lines()[index as int] == self@.scrollback[index as int]);
            } else {
                assert(self@.all_lines()[index as int] == self@.lines[index - sb]);
            }
        }
        out
    }
}

/// The length of `s` once its trailing blanks are removed.
fn trimmed_len(s: &[char]) -> (n: usize)
    ensures
        n <= s@.len(),
        s@.take(n as int) == trim_blanks(s@),
{
    let mut n = s.len();
    proof {
        assert(s@.take(n as int) =~= s@);
    }
    while n > 0 && s[n - 1] == ' '
        invariant
            0 <= n <= s@.len(),
            trim_blanks(s@) == trim_blanks(s@.take(n as int)),
        decreases n,
    {
        proof {
            assert(s@.take(n as int).drop_last() =~= s@.take(n - 1));
        }
        n = n - 1;
    }
    proof {
        if n == 0 {
            assert(s@.take(0) =~= Seq::<char>::empty());
        }
    }
    n
}

} // verus!
