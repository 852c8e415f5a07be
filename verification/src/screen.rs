//! The terminal screen: a grid, a cursor and a scroll region, driven by the
//! actions of the VT parser, with search over scrollback and screen.

use vstd::prelude::*;

use crate::cursor::Cursor;
use crate::grid::{kept_limit, trim_blanks, Grid, GridModel, DEFAULT_SCROLLBACK_LIMIT};
use crate::params::ParamsModel;
use crate::parser::{perform_all, Action, ActionModel, Parser, ParserModel, Performer};
use crate::search::{all_matches, next_match_index, prev_match_index, push_line_matches,
    spec_next_index, spec_prev_index, SearchMatch, SearchState};
use crate::pattern::{
    effective_pattern, push_regex_line_matches, regex_accepts, regex_all_matches, Pattern,
};
use crate::text::chars_of;

verus! {

/// A search as a mathematical value.
pub ghost struct SearchModel {
    pub query: Seq<char>,
    pub matches: Seq<SearchMatch>,
    pub current: Option<usize>,
    pub case_sensitive: bool,
    pub regex: bool,
}

pub open spec fn search_view(s: SearchState) -> SearchModel {
    SearchModel {
        query: s.query@,
        matches: s.matches@,
        current: s.current,
        case_sensitive: s.case_sensitive,
        regex: s.regex,
    }
}

pub open spec fn opt_search_view(s: Option<SearchState>) -> Option<SearchModel> {
    match s {
        Some(st) => Some(search_view(st)),
        None => None,
    }
}

/// Why a search could not run.
#[derive(Debug, Clone)]
pub enum SearchError {
    /// The regular expression was refused; the text is the regex crate's
    /// explanation.
    InvalidPattern(String),
}

/// Calls `regex::Error`'s `Display` (through `ToString`) for the refusal's
/// explanation; nothing is stated of the text.
#[verifier::external_body]
fn regex_error_text(e: &regex::Error) -> String {
    e.to_string()
}

/// A screen as a mathematical value. The scroll region is rows
/// `scroll_top..scroll_bottom`.
pub ghost struct ScreenModel {
    pub grid: GridModel,
    pub cursor: Cursor,
    pub pending_wrap: bool,
    pub scroll_top: nat,
    pub scroll_bottom: nat,
    pub search: Option<SearchModel>,
}

/// The `index`-th parameter, where 0 and a missing one stand for `default`.
pub open spec fn param_or(p: ParamsModel, index: int, default: nat) -> nat {
    if p.get(index, 0) == 0 { default } else { p.get(index, 0) as nat }
}

/// The first match at or after index `i` that lies on line `row` or below.
pub open spec fn first_from_row(ms: Seq<SearchMatch>, row: nat, i: int) -> Option<usize>
    decreases ms.len() - i,
{
    if i < 0 || i >= ms.len() {
        None
    } else if ms[i].row >= row {
        Some(i as usize)
    } else {
        first_from_row(ms, row, i + 1)
    }
}

/// The last match before index `n` that lies above line `row`.
pub open spec fn last_above_row(ms: Seq<SearchMatch>, row: nat, n: int) -> Option<usize>
    decreases n,
{
    if n <= 0 || n > ms.len() {
        None
    } else if ms[n - 1].row < row {
        Some((n - 1) as usize)
    } else {
        last_above_row(ms, row, n - 1)
    }
}

/// Where a forward search starts: the first match in the viewport (line
/// `row` and below), else the first match.
pub open spec fn forward_start(ms: Seq<SearchMatch>, row: nat) -> Option<usize> {
    match first_from_row(ms, row, 0) {
        Some(i) => Some(i),
        None => if ms.len() > 0 { Some(0) } else { None },
    }
}

/// Where a backward search starts: the last match above the viewport (above
/// line `row`), else the last match.
pub open spec fn backward_start(ms: Seq<SearchMatch>, row: nat) -> Option<usize> {
    match last_above_row(ms, row, ms.len() as int) {
        Some(i) => Some(i),
        None => if ms.len() > 0 { Some((ms.len() - 1) as usize) } else { None },
    }
}

impl ScreenModel {
    pub open spec fn wf(self) -> bool {
        &&& self.grid.wf()
        &&& self.cursor.row < self.grid.rows
        &&& self.cursor.col < self.grid.cols
        &&& self.scroll_top < self.scroll_bottom <= self.grid.rows
        &&& self.search matches Some(st) ==> (st.current matches Some(i) ==> i < st.matches.len())
    }

    /// The text of every line, scrollback first, without trailing blanks.
    pub open spec fn lines(self) -> Seq<Seq<char>> {
        self.grid.all_lines().map_values(|l: Seq<char>| trim_blanks(l))
    }

    /// The line number (counting the scrollback) of the top of the screen.
    pub open spec fn viewport_top(self) -> nat {
        self.grid.scrollback.len()
    }

    pub open spec fn carriage_return(self) -> ScreenModel {
        ScreenModel { cursor: Cursor { col: 0, ..self.cursor }, pending_wrap: false, ..self }
    }

    /// Move down a line; at the bottom of the scroll region the region
    /// scrolls up instead, and at the bottom of the screen nothing moves.
    pub open spec fn linefeed(self) -> ScreenModel {
        let m = ScreenModel { pending_wrap: false, ..self };
        if self.cursor.row + 1 == self.scroll_bottom {
            ScreenModel { grid: self.grid.scrolled_up(self.scroll_top, self.scroll_bottom, 1), ..m }
        } else if self.cursor.row + 1 < self.grid.rows {
            ScreenModel { cursor: Cursor { row: (self.cursor.row + 1) as usize, ..self.cursor }, ..m }
        } else {
            m
        }
    }

    pub open spec fn backspace(self) -> ScreenModel {
        ScreenModel {
            cursor: Cursor {
                col: if self.cursor.col > 0 { (self.cursor.col - 1) as usize } else { 0 },
                ..self.cursor
            },
            pending_wrap: false,
            ..self
        }
    }

    /// Write a character at the cursor and advance it. At the last column
    /// the cursor stays and the next character first wraps to a new line.
    pub open spec fn write_char(self, c: char) -> ScreenModel {
        let m = if self.pending_wrap { self.carriage_return().linefeed() } else { self };
        let g = m.grid.with_char(m.cursor.row as int, m.cursor.col as int, c);
        if m.cursor.col + 1 >= m.grid.cols {
            ScreenModel { grid: g, pending_wrap: true, ..m }
        } else {
            ScreenModel {
                grid: g,
                cursor: Cursor { col: (m.cursor.col + 1) as usize, ..m.cursor },
                ..m
            }
        }
    }

    /// C0 controls: backspace, line feed (also VT and FF) and carriage
    /// return; the others do nothing here.
    pub open spec fn execute(self, b: u8) -> ScreenModel {
        if b == 0x08 {
            self.backspace()
        } else if b == 0x0a || b == 0x0b || b == 0x0c {
            self.linefeed()
        } else if b == 0x0d {
            self.carriage_return()
        } else {
            self
        }
    }

    /// DECSTBM: rows `top..=bottom` (1-based, 0 or missing for the screen's
    /// edges) become the scroll region and the cursor goes home; a region of
    /// fewer than two rows or one that leaves the screen is ignored.
    pub open spec fn set_scroll_region(self, p: ParamsModel) -> ScreenModel {
        let top = param_or(p, 0, 1);
        let bottom = param_or(p, 1, self.grid.rows);
        if top < bottom && bottom <= self.grid.rows {
            ScreenModel {
                scroll_top: (top - 1) as nat,
                scroll_bottom: bottom,
                cursor: Cursor { row: 0, col: 0, ..self.cursor },
                pending_wrap: false,
                ..self
            }
        } else {
            self
        }
    }

    /// The screen after one parser action.
    pub open spec fn perform(self, a: ActionModel) -> ScreenModel {
        match a {
            ActionModel::Print(c) => self.write_char(c),
            ActionModel::Execute(b) => self.execute(b),
            ActionModel::CsiDispatch { params, intermediates, ignore, action } => {
                if action == 0x72 && intermediates.len() == 0 {
                    self.set_scroll_region(params)
                } else {
                    self
                }
            },
            _ => self,
        }
    }
}

/// The terminal screen.
pub struct Screen {
    pub grid: Grid,
    pub cursor: Cursor,
    pending_wrap: bool,
    scroll_top: usize,
    scroll_bottom: usize,
    search: Option<SearchState>,
}

impl View for Screen {
    type V = ScreenModel;

    closed spec fn view(&self) -> ScreenModel {
        ScreenModel {
            grid: self.grid@,
            cursor: self.cursor,
            pending_wrap: self.pending_wrap,
            scroll_top: self.scroll_top as nat,
            scroll_bottom: self.scroll_bottom as nat,
            search: opt_search_view(self.search),
        }
    }
}

impl Screen {
    /// A blank screen of the given size (at least one column and one row),
    /// cursor home, the whole screen as scroll region, no search.
    pub fn new(cols: usize, rows: usize) -> (s: Self)
        ensures
            s@.wf(),
            s@.grid == GridModel::blank(
                if cols == 0 { 1 } else { cols as nat },
                if rows == 0 { 1 } else { rows as nat },
                kept_limit(if rows == 0 { 1 } else { rows as nat }, DEFAULT_SCROLLBACK_LIMIT as nat),
            ),
            s@.cursor.row == 0 && s@.cursor.col == 0 && s@.cursor.visible,
            !s@.pending_wrap,
            s@.scroll_top == 0,
            s@.scroll_bottom == s@.grid.rows,
            s@.search is None,
    {
        let grid = Grid::new(cols, rows);
        let bottom = grid.rows();
        Screen {
            grid,
            cursor: Cursor::default(),
            pending_wrap: false,
            scroll_top: 0,
            scroll_bottom: bottom,
            search: None,
        }
    }

    /// Number of columns.
    pub fn cols(&self) -> (r: usize)
        ensures
            r == self@.grid.cols,
    {
        self.grid.cols()
    }

    /// Number of rows.
    pub fn rows(&self) -> (r: usize)
        ensures
            r == self@.grid.rows,
    {
        self.grid.rows()
    }

    /// The text of screen row `row`, without trailing blanks.
    pub fn row_text(&self, row: usize) -> (s: String)
        requires
            self@.wf(),
            row < self@.grid.rows,
        ensures
            s@ == trim_blanks(self@.grid.lines[row as int]),
    {
        self.grid.row_text(row)
    }

    pub fn carriage_return(&mut self)
        ensures
            final(self)@ == old(self)@.carriage_return(),
    {
        self.cursor.col = 0;
        self.pending_wrap = false;
    }

    pub fn linefeed(&mut self)
        requires
            old(self)@.wf(),
        ensures
            final(self)@ == old(self)@.linefeed(),
            final(self)@.wf(),
    {
        self.pending_wrap = false;
        if self.cursor.row + 1 == self.scroll_bottom {
            self.grid.scroll_up(self.scroll_top, self.scroll_bottom, 1);
        } else if self.cursor.row + 1 < self.grid.rows() {
            self.cursor.row = self.cursor.row + 1;
        }
    }

    pub fn backspace(&mut self)
        ensures
            final(self)@ == old(self)@.backspace(),
    {
        if self.cursor.col > 0 {
            self.cursor.col = self.cursor.col - 1;
        }
        self.pending_wrap = false;
    }

    /// Write a character at the cursor.
    pub fn write_char(&mut self, c: char)
        requires
            old(self)@.wf(),
        ensures
            final(self)@ == old(self)@.write_char(c),
            final(self)@.wf(),
    {
        if self.pending_wrap {
            self.carriage_return();
            self.linefeed();
        }
        self.grid.set_char(self.cursor.row, self.cursor.col, c);
        if self.cursor.col >= self.grid.cols() - 1 {
            self.pending_wrap = true;
        } else {
            self.cursor.col = self.cursor.col + 1;
        }
    }

    fn execute(&mut self, b: u8)
        requires
            old(self)@.wf(),
        ensures
            final(self)@ == old(self)@.execute(b),
            final(self)@.wf(),
    {
        if b == 0x08 {
            self.backspace();
        } else if b == 0x0a || b == 0x0b || b == 0x0c {
            self.linefeed();
        } else if b == 0x0d {
            self.carriage_return();
        }
    }

    fn set_scroll_region(&mut self, p: &crate::params::Params)
        requires
            old(self)@.wf(),
        ensures
            final(self)@ == old(self)@.set_scroll_region(p@),
            final(self)@.wf(),
    {
        let rows = self.grid.rows();
        let top = p.get_or(0, 1) as usize;
        let b = p.get(1, 0);
        let bottom = if b == 0 { rows } else { b as usize };
        if top < bottom && bottom <= rows {
            self.scroll_top = top - 1;
            self.scroll_bottom = bottom;
            self.cursor.row = 0;
            self.cursor.col = 0;
            self.pending_wrap = false;
        }
    }

    /// The current search, if any.
    pub fn search_state(&self) -> (r: &Option<SearchState>)
        ensures
            opt_search_view(*r) == self@.search,
    {
        &self.search
    }

    /// The match the search is on, if any.
    pub fn current_match(&self) -> (r: Option<&SearchMatch>)
        requires
            self@.wf(),
        ensures
            match self@.search {
                Some(st) => match st.current {
                    Some(i) => r == Some(&st.matches[i as int]),
                    None => r is None,
                },
                None => r is None,
            },
    {
        match &self.search {
            Some(st) => match st.current {
                Some(i) => Some(&st.matches[i]),
                None => None,
            },
            None => None,
        }
    }

    /// Find every match of `pattern`, scrollback first, line by line.
    fn collect_matches(&self, pattern: &str, case_sensitive: bool) -> (r: Vec<SearchMatch>)
        requires
            self@.wf(),
        ensures
            r@ == all_matches(self@.lines(), pattern@, case_sensitive),
    {
        let q = chars_of(pattern);
        let total = self.grid.scrollback_len() + self.grid.rows();
        let ghost lines = self@.lines();
        let mut out: Vec<SearchMatch> = Vec::new();
        let mut i: usize = 0;
        while i < total
            invariant
                self@.wf(),
                total == self@.grid.scrollback.len() + self@.grid.rows,
                lines == self@.lines(),
                lines.len() == total,
                q@ == pattern@,
                0 <= i <= total,
                out@ == all_matches(lines.take(i as int), pattern@, case_sensitive),
            decreases total - i,
        {
            let line = self.grid.line_chars(i);
            push_line_matches(&mut out, i, line.as_slice(), q.as_slice(), case_sensitive);
            proof {
                assert(lines.take(i + 1).drop_last() =~= lines.take(i as int));
                assert(lines.take(i + 1).last() == line@);
            }
            i = i + 1;
        }
        proof {
            assert(lines.take(total as int) =~= lines);
        }
        out
    }

    /// Search forward for `pattern` (plain text); the current match becomes
    /// the first one in the viewport, else the first one.
    pub fn search_forward(&mut self, pattern: &str, case_sensitive: bool) -> (r: Vec<SearchMatch>)
        requires
            old(self)@.wf(),
        ensures
            r@ == all_matches(old(self)@.lines(), pattern@, case_sensitive),
            final(self)@ == (ScreenModel {
                search: Some(
                    SearchModel {
                        query: pattern@,
                        matches: r@,
                        current: forward_start(r@, old(self)@.viewport_top()),
                        case_sensitive,
                        regex: false,
                    },
                ),
                ..old(self)@
            }),
            final(self)@.wf(),
    {
        let matches = self.collect_matches(pattern, case_sensitive);
        let top = self.grid.scrollback_len();
        let current = first_match_from_row(&matches, top);
        self.search = Some(
            SearchState {
                query: pattern.to_owned(),
                matches: copy_matches(&matches),
                current,
                case_sensitive,
                regex: false,
            },
        );
        matches
    }

    /// Search backward for `pattern` (plain text); the current match becomes
    /// the last one above the viewport, else the last one.
    pub fn search_backward(&mut self, pattern: &str, case_sensitive: bool) -> (r: Vec<SearchMatch>)
        requires
            old(self)@.wf(),
        ensures
            r@ == all_matches(old(self)@.lines(), pattern@, case_sensitive),
            final(self)@ == (ScreenModel {
                search: Some(
                    SearchModel {
                        query: pattern@,
                        matches: r@,
                        current: backward_start(r@, old(self)@.viewport_top()),
                        case_sensitive,
                        regex: false,
                    },
                ),
                ..old(self)@
            }),
            final(self)@.wf(),
    {
        let matches = self.collect_matches(pattern, case_sensitive);
        let top = self.grid.scrollback_len();
        let current = last_match_above_row(&matches, top);
        self.search = Some(
            SearchState {
                query: pattern.to_owned(),
                matches: copy_matches(&matches),
                current,
                case_sensitive,
                regex: false,
            },
        );
        matches
    }

    /// Find every match of a compiled regex, scrollback first, line by line.
    fn collect_regex_matches(&self, pattern: &Pattern) -> (r: Vec<SearchMatch>)
        requires
            self@.wf(),
        ensures
            r@ == regex_all_matches(pattern@, self@.lines()),
    {
        let total = self.grid.scrollback_len() + self.grid.rows();
        let ghost lines = self@.lines();
        let mut out: Vec<SearchMatch> = Vec::new();
        let mut i: usize = 0;
        while i < total
            invariant
                self@.wf(),
                total == self@.grid.scrollback.len() + self@.grid.rows,
                lines == self@.lines(),
                lines.len() == total,
                0 <= i <= total,
                out@ == regex_all_matches(pattern@, lines.take(i as int)),
            decreases total - i,
        {
            let line = self.grid.line_chars(i);
            push_regex_line_matches(&mut out, i, line.as_slice(), pattern);
            proof {
                assert(lines.take(i + 1).drop_last() =~= lines.take(i as int));
                assert(lines.take(i + 1).last() == line@);
            }
            i = i + 1;
        }
        proof {
            assert(lines.take(total as int) =~= lines);
        }
        out
    }

    /// Search forward for a regular expression, ignoring case unless
    /// `case_sensitive`; the current match becomes the first one in the
    /// viewport, else the first one. A pattern the regex crate refuses gives
    /// an error and leaves the screen as it was.
    pub fn search_regex(&mut self, pattern: &str, case_sensitive: bool) -> (r: Result<Vec<SearchMatch>, SearchError>)
        requires
            old(self)@.wf(),
        ensures
            final(self)@.wf(),
            r is Ok <==> regex_accepts(effective_pattern(pattern@, case_sensitive)),
            match r {
                Ok(ms) => {
                    &&& ms@ == regex_all_matches(
                        effective_pattern(pattern@, case_sensitive),
                        old(self)@.lines(),
                    )
                    &&& final(self)@ == (ScreenModel {
                        search: Some(
                            SearchModel {
                                query: pattern@,
                                matches: ms@,
                                current: forward_start(ms@, old(self)@.viewport_top()),
                                case_sensitive,
                                regex: true,
                            },
                        ),
                        ..old(self)@
                    })
                },
                Err(_) => final(self)@ == old(self)@,
            },
    {
        let compiled = match Pattern::new(pattern, case_sensitive) {
            Ok(p) => p,
            Err(e) => return Err(SearchError::InvalidPattern(regex_error_text(&e))),
        };
        let matches = self.collect_regex_matches(&compiled);
        let top = self.grid.scrollback_len();
        let current = first_match_from_row(&matches, top);
        self.search = Some(
            SearchState {
                query: pattern.to_owned(),
                matches: copy_matches(&matches),
                current,
                case_sensitive,
                regex: true,
            },
        );
        Ok(matches)
    }

    /// Move to the next match (wrapping around) and return it.
    pub fn search_next(&mut self) -> (r: Option<&SearchMatch>)
        requires
            old(self)@.wf(),
        ensures
            final(self)@.wf(),
            match old(self)@.search {
                Some(st) => {
                    let cur = spec_next_index(st.current, st.matches.len());
                    &&& final(self)@ == (ScreenModel {
                        search: Some(SearchModel { current: cur, ..st }),
                        ..old(self)@
                    })
                    &&& match cur {
                        Some(i) => r == Some(&st.matches[i as int]),
                        None => r is None,
                    }
                },
                None => final(self)@ == old(self)@ && r is None,
            },
    {
        match &mut self.search {
            Some(st) => {
                st.current = next_match_index(st.current, st.matches.len());
            },
            None => {},
        }
        self.current_match()
    }

    /// Move to the previous match (wrapping around) and return it.
    pub fn search_prev(&mut self) -> (r: Option<&SearchMatch>)
        requires
            old(self)@.wf(),
        ensures
            final(self)@.wf(),
            match old(self)@.search {
                Some(st) => {
                    let cur = spec_prev_index(st.current, st.matches.len());
                    &&& final(self)@ == (ScreenModel {
                        search: Some(SearchModel { current: cur, ..st }),
                        ..old(self)@
                    })
                    &&& match cur {
                        Some(i) => r == Some(&st.matches[i as int]),
                        None => r is None,
                    }
                },
                None => final(self)@ == old(self)@ && r is None,
            },
    {
        match &mut self.search {
            Some(st) => {
                st.current = prev_match_index(st.current, st.matches.len());
            },
            None => {},
        }
        self.current_match()
    }

    /// The matches that lie on the screen (not in the scrollback), in order.
    pub fn visible_matches(&self) -> (r: Vec<SearchMatch>)
        requires
            self@.wf(),
        ensures
            match self@.search {
                Some(st) => r@ == st.matches.filter(
                    |m: SearchMatch| self@.viewport_top() <= m.row < self@.viewport_top()
                        + self@.grid.rows,
                ),
                None => r@.len() == 0,
            },
    {
        let top = self.grid.scrollback_len();
        let bottom = top + self.grid.rows();
        let mut out: Vec<SearchMatch> = Vec::new();
        match &self.search {
            Some(st) => {
                let ghost pred = |m: SearchMatch| top <= m.row < bottom;
                let mut i: usize = 0;
                while i < st.matches.len()
                    invariant
                        0 <= i <= st.matches@.len(),
                        out@ == st.matches@.take(i as int).filter(pred),
                        pred == (|m: SearchMatch| top <= m.row < bottom),
                    decreases st.matches@.len() - i,
                {
                    let m = st.matches[i];
                    proof {
                        assert(st.matches@.take(i + 1).drop_last() =~= st.matches@.take(i as int));
                        reveal_with_fuel(Seq::filter, 1);
                    }
                    if top <= m.row && m.row < bottom {
                        out.push(m);
                    }
                    i = i + 1;
                }
                proof {
                    assert(st.matches@.take(st.matches@.len() as int) =~= st.matches@);
                }
            },
            None => {},
        }
        out
    }

    /// Forget the current search.
    pub fn clear_search(&mut self)
        ensures
            final(self)@ == (ScreenModel { search: None, ..old(self)@ }),
    {
        self.search = None;
    }
}

/// A copy of a list of matches.
fn copy_matches(ms: &Vec<SearchMatch>) -> (r: Vec<SearchMatch>)
    ensures
        r@ == ms@,
{
    let mut r: Vec<SearchMatch> = Vec::new();
    let mut i: usize = 0;
    while i < ms.len()
        invariant
            0 <= i <= ms@.len(),
            r@ == ms@.take(i as int),
        decreases ms@.len() - i,
    {
        proof {
            assert(ms@.take(i + 1) =~= ms@.take(i as int).push(ms@[i as int]));
        }
        r.push(ms[i]);
        i = i + 1;
    }
    proof {
        assert(ms@.take(ms@.len() as int) =~= ms@);
    }
    r
}

/// The first match on line `row` or below, else the first match.
fn first_match_from_row(ms: &Vec<SearchMatch>, row: usize) -> (r: Option<usize>)
    ensures
        r == forward_start(ms@, row as nat),
        r matches Some(i) ==> i < ms@.len(),
{
    let mut i: usize = 0;
    while i < ms.len()
        invariant
            0 <= i <= ms@.len(),
            first_from_row(ms@, row as nat, 0) == first_from_row(ms@, row as nat, i as int),
        decreases ms@.len() - i,
    {
        if ms[i].row >= row {
            return Some(i);
        }
        i = i + 1;
    }
    if ms.len() > 0 {
        Some(0)
    } else {
        None
    }
}

/// The last match above line `row`, else the last match.
fn last_match_above_row(ms: &Vec<SearchMatch>, row: usize) -> (r: Option<usize>)
    ensures
        r == backward_start(ms@, row as nat),
        r matches Some(i) ==> i < ms@.len(),
{
    let mut n: usize = ms.len();
    while n > 0
        invariant
            0 <= n <= ms@.len(),
            last_above_row(ms@, row as nat, ms@.len() as int) == last_above_row(
                ms@,
                row as nat,
                n as int,
            ),
        decreases n,
    {
        if ms[n - 1].row < row {
            return Some(n - 1);
        }
        n = n - 1;
    }
    if ms.len() > 0 {
        Some(ms.len() - 1)
    } else {
        None
    }
}

impl Performer for Screen {
    open spec fn ready(v: ScreenModel) -> bool {
        v.wf()
    }

    open spec fn after(v: ScreenModel, action: ActionModel) -> ScreenModel {
        v.perform(action)
    }

    fn perform(&mut self, action: Action) {
        match action {
            Action::Print(c) => self.write_char(c),
            Action::Execute(b) => self.execute(b),
            Action::CsiDispatch { params, intermediates, ignore, action } => {
                if action == 0x72 && intermediates.len() == 0 {
                    self.set_scroll_region(&params);
                }
            },
            _ => {},
        }
    }
}


/// What a fresh 80 by 24 screen looks like, whatever its cursor's shape.
pub open spec fn fresh_terminal(s: ScreenModel) -> bool {
    &&& s.wf()
    &&& s.grid == GridModel::blank(80, 24, kept_limit(24, DEFAULT_SCROLLBACK_LIMIT as nat))
    &&& s.cursor.row == 0 && s.cursor.col == 0 && s.cursor.visible
    &&& !s.pending_wrap
    &&& s.scroll_top == 0
    &&& s.scroll_bottom == 24
    &&& s.search is None
}

/// Feed any bytes through a fresh parser into a fresh 80 by 24 screen and
/// read back its first row: every byte sequence is taken, none makes the
/// parser or the screen fail.
pub fn run_terminal_bytes(data: &[u8]) -> (r: String)
    ensures
        exists|start: ScreenModel|
            fresh_terminal(start) && r@ == trim_blanks(
                #[trigger] perform_all::<Screen>(start, ParserModel::initial().run(data@).1).grid.lines[0],
            ),
{
    let mut screen = Screen::new(80, 24);
    let ghost start = screen@;
    let mut parser = Parser::new();
    parser.advance(&mut screen, data);
    proof {
        assert(fresh_terminal(start));
    }
    screen.row_text(0)
}

} // verus!
