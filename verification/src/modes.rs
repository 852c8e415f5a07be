//! The modal input states of the multiplexer: typing a search query, and
//! copy mode, where vi-style keys move a cursor over the pane and select text.

use vstd::prelude::*;
use crate::keys::{KeyCode, KeyMods, KeyPress, no_mods};
use crate::search::{
    SearchMatch, SearchState, all_matches, find_all_matches, next_match_index, prev_match_index,
    spec_next_index, spec_prev_index,
};
use crate::text::string_from_chars;

verus! {

/// The current input mode: normal typing, or a modal overlay.
#[derive(Debug, Clone, Copy, PartialEq, Eq, Structural)]
pub enum InputMode {
    Normal,
    Search,
    Copy,
}

// ---------------------------------------------------------------------------
// Search mode
// ---------------------------------------------------------------------------

/// What the user is typing in search mode, and the search it has produced.
#[derive(Debug, Clone)]
pub struct SearchInput {
    /// The query typed so far.
    pub query: Vec<char>,
    /// The matches of the last search run, and the current one.
    pub state: SearchState,
    /// Whether `n`/`N` move between matches (set once a character is typed).
    pub direction_active: bool,
}

/// The lines searched, as character sequences.
pub open spec fn lines_of(texts: Seq<String>) -> Seq<Seq<char>> {
    texts.map_values(|t: String| t@)
}

/// The search state after running `query` over `texts` (the active pane's
/// rows, absent when there is no active pane), starting from `old`: an empty
/// query clears the search; with no pane nothing changes; otherwise every
/// case-insensitive match, the first one current.
pub open spec fn refreshed(state: SearchState, old: SearchState, query: Seq<char>, texts: Option<Seq<String>>) -> bool {
    if query.len() == 0 {
        &&& state.query@.len() == 0
        &&& state.matches@.len() == 0
        &&& state.current is None
        &&& !state.case_sensitive
        &&& !state.regex
    } else {
        match texts {
            None => {
                &&& state.query@ == old.query@
                &&& state.matches@ == old.matches@
                &&& state.current == old.current
                &&& state.case_sensitive == old.case_sensitive
                &&& state.regex == old.regex
            },
            Some(t) => {
                &&& state.query@ == query
                &&& state.matches@ == all_matches(lines_of(t), query, false)
                &&& state.current == (if state.matches@.len() == 0 {
                    None::<usize>
                } else {
                    Some(0usize)
                })
                &&& !state.case_sensitive
                &&& !state.regex
            },
        }
    }
}

/// How a key press in search mode acts.
#[derive(Debug, Clone, Copy, PartialEq, Eq, Structural)]
pub enum SearchKeyEffect {
    /// Leave search mode (Esc or Enter).
    Leave,
    /// Delete the last query character and search again.
    Erase,
    /// Go to the next match.
    Next,
    /// Go to the previous match.
    Previous,
    /// Add a character to the query and search again.
    Type(char),
    /// Nothing happens.
    Ignore,
}

/// The effect of a key press in search mode, given whether the query is
/// empty and whether `n`/`N` navigation is on: `n` with no modifier and `N`
/// with Shift navigate only when the query is non-empty and navigation is
/// on; otherwise they are typed like any other character.
pub open spec fn search_effect(key: KeyPress, query_empty: bool, active: bool) -> SearchKeyEffect {
    match key.code {
        KeyCode::Esc | KeyCode::Enter => SearchKeyEffect::Leave,
        KeyCode::Backspace => SearchKeyEffect::Erase,
        KeyCode::Char(c) => if c == 'n' && key.modifiers == no_mods() && !query_empty && active {
            SearchKeyEffect::Next
        } else if c == 'N' && key.modifiers.shift && !query_empty && active {
            SearchKeyEffect::Previous
        } else {
            SearchKeyEffect::Type(c)
        },
        _ => SearchKeyEffect::Ignore,
    }
}

/// Decide how a key press in search mode acts.
pub fn search_key_effect(key: &KeyPress, query_empty: bool, active: bool) -> (r: SearchKeyEffect)
    ensures
        r == search_effect(*key, query_empty, active),
{
    match key.code {
        KeyCode::Esc | KeyCode::Enter => SearchKeyEffect::Leave,
        KeyCode::Backspace => SearchKeyEffect::Erase,
        KeyCode::Char(c) => {
            if c == 'n' && key.modifiers.is_empty() && !query_empty && active {
                SearchKeyEffect::Next
            } else if c == 'N' && key.modifiers.shift && !query_empty && active {
                SearchKeyEffect::Previous
            } else {
                SearchKeyEffect::Type(c)
            }
        },
        _ => SearchKeyEffect::Ignore,
    }
}

impl SearchInput {
    /// An empty query with no search and navigation off.
    pub fn new() -> (r: Self)
        ensures
            r.query@.len() == 0,
            r.state.query@.len() == 0,
            r.state.matches@.len() == 0,
            r.state.current is None,
            !r.direction_active,
    {
        SearchInput { query: Vec::new(), state: SearchState::default(), direction_active: false }
    }

    /// Start a new search: the query and the search are cleared; whether
    /// `n`/`N` navigate is left as it was.
    pub fn begin(&mut self)
        ensures
            final(self).query@.len() == 0,
            final(self).state.query@.len() == 0,
            final(self).state.matches@.len() == 0,
            final(self).state.current is None,
            !final(self).state.case_sensitive,
            !final(self).state.regex,
            final(self).direction_active == old(self).direction_active,
    {
        self.query = Vec::new();
        self.state = SearchState::default();
    }

    /// Run the query over `texts` (the active pane's rows; none when there
    /// is no active pane) and keep the result.
    pub fn run_search(&mut self, texts: Option<&[String]>)
        ensures
            final(self).query@ == old(self).query@,
            final(self).direction_active == old(self).direction_active,
            refreshed(
                final(self).state,
                old(self).state,
                old(self).query@,
                match texts {
                    Some(t) => Some(t@),
                    None => None,
                },
            ),
    {
        if self.query.len() == 0 {
            self.state = SearchState::default();
            return;
        }
        let texts = match texts {
            Some(t) => t,
            None => return,
        };
        let query = string_from_chars(self.query.as_slice());
        let matches = find_all_matches(texts, query.as_str(), false);
        let current = if matches.len() == 0 { None } else { Some(0) };
        self.state = SearchState { query, matches, current, case_sensitive: false, regex: false };
    }

    /// Handle a key press in search mode; returns whether search mode ends.
    pub fn handle_key(&mut self, key: &KeyPress, texts: Option<&[String]>) -> (leave: bool)
        ensures
            leave == (search_effect(*key, old(self).query@.len() == 0, old(self).direction_active)
                is Leave),
            match search_effect(*key, old(self).query@.len() == 0, old(self).direction_active) {
                SearchKeyEffect::Erase => {
                    &&& final(self).query@ == (if old(self).query@.len() == 0 {
                        old(self).query@
                    } else {
                        old(self).query@.drop_last()
                    })
                    &&& final(self).direction_active == old(self).direction_active
                    &&& refreshed(
                        final(self).state,
                        old(self).state,
                        final(self).query@,
                        match texts {
                            Some(t) => Some(t@),
                            None => None,
                        },
                    )
                },
                SearchKeyEffect::Type(c) => {
                    &&& final(self).query@ == old(self).query@.push(c)
                    &&& final(self).direction_active
                    &&& refreshed(
                        final(self).state,
                        old(self).state,
                        final(self).query@,
                        match texts {
                            Some(t) => Some(t@),
                            None => None,
                        },
                    )
                },
                SearchKeyEffect::Next => {
                    &&& final(self).query@ == old(self).query@
                    &&& final(self).direction_active == old(self).direction_active
                    &&& final(self).state.query@ == old(self).state.query@
                    &&& final(self).state.matches@ == old(self).state.matches@
                    &&& final(self).state.current == spec_next_index(
                        old(self).state.current,
                        old(self).state.matches@.len(),
                    )
                },
                SearchKeyEffect::Previous => {
                    &&& final(self).query@ == old(self).query@
                    &&& final(self).direction_active == old(self).direction_active
                    &&& final(self).state.query@ == old(self).state.query@
                    &&& final(self).state.matches@ == old(self).state.matches@
                    &&& final(self).state.current == spec_prev_index(
                        old(self).state.current,
                        old(self).state.matches@.len(),
                    )
                },
                _ => {
                    &&& final(self).query@ == old(self).query@
                    &&& final(self).direction_active == old(self).direction_active
                    &&& final(self).state.query@ == old(self).state.query@
                    &&& final(self).state.matches@ == old(self).state.matches@
                    &&& final(self).state.current == old(self).state.current
                    &&& final(self).state.case_sensitive == old(self).state.case_sensitive
                    &&& final(self).state.regex == old(self).state.regex
                },
            },
    {
        let effect = search_key_effect(key, self.query.len() == 0, self.direction_active);
        match effect {
            SearchKeyEffect::Leave => true,
            SearchKeyEffect::Erase => {
                self.query.pop();
                self.run_search(texts);
                false
            },
            SearchKeyEffect::Next => {
                self.state.current = next_match_index(self.state.current, self.state.matches.len());
                false
            },
            SearchKeyEffect::Previous => {
                self.state.current = prev_match_index(self.state.current, self.state.matches.len());
                false
            },
            SearchKeyEffect::Type(c) => {
                self.query.push(c);
                self.run_search(texts);
                self.direction_active = true;
                false
            },
            SearchKeyEffect::Ignore => false,
        }
    }
}

// ---------------------------------------------------------------------------
// Copy mode
// ---------------------------------------------------------------------------

/// A cell of the pane's history: line (scrollback first, then the screen)
/// and column.
#[derive(Debug, Clone, Copy, PartialEq, Eq, Structural)]
pub struct SelectionPoint {
    pub row: usize,
    pub col: usize,
}

impl SelectionPoint {
    pub fn new(row: usize, col: usize) -> (r: Self)
        ensures
            r.row == row,
            r.col == col,
    {
        SelectionPoint { row, col }
    }

    /// Whether `self` comes no later than `other` in reading order.
    pub open spec fn precedes(self, other: SelectionPoint) -> bool {
        self.row < other.row || (self.row == other.row && self.col <= other.col)
    }
}

/// A selection: where it was started, and where it now extends to.
#[derive(Debug, Clone, Copy, PartialEq, Eq, Structural)]
pub struct Selection {
    pub anchor: SelectionPoint,
    pub head: SelectionPoint,
}

impl Selection {
    /// A selection of the single cell `point`.
    pub fn start(point: SelectionPoint) -> (r: Self)
        ensures
            r.anchor == point,
            r.head == point,
    {
        Selection { anchor: point, head: point }
    }

    /// Move the selection's free end to `point`.
    pub fn extend(&mut self, point: SelectionPoint)
        ensures
            final(self).anchor == old(self).anchor,
            final(self).head == point,
    {
        self.head = point;
    }

    /// The selection's first and last cells in reading order.
    pub open spec fn ordered(self) -> (SelectionPoint, SelectionPoint) {
        if self.anchor.precedes(self.head) {
            (self.anchor, self.head)
        } else {
            (self.head, self.anchor)
        }
    }

    /// The selection's first and last cells in reading order.
    pub fn bounds(&self) -> (r: (SelectionPoint, SelectionPoint))
        ensures
            r == self.ordered(),
    {
        if self.anchor.row < self.head.row || (self.anchor.row == self.head.row
            && self.anchor.col <= self.head.col) {
            (self.anchor, self.head)
        } else {
            (self.head, self.anchor)
        }
    }
}

/// The copy-mode cursor, over the active pane, and the selection.
#[derive(Debug, Clone, Copy, PartialEq, Eq, Structural)]
pub struct CopyModeState {
    /// Cursor row on the screen.
    pub row: usize,
    /// Cursor column.
    pub col: usize,
    /// Scrollback lines above the screen when copy mode began.
    pub scrollback_len: usize,
    pub selection: Option<Selection>,
}

/// What a key press in copy mode leads to.
#[derive(Debug, Clone, Copy, PartialEq, Eq, Structural)]
pub enum CopyOutcome {
    /// Copy mode goes on.
    Stay,
    /// Copy mode ends with nothing copied.
    Exit,
    /// Copy mode ends, copying the text between these cells.
    Yank(SelectionPoint, SelectionPoint),
}

/// `a - b`, or 0 where `b` is larger.
pub open spec fn sat_sub(a: usize, b: usize) -> usize {
    if a >= b {
        (a - b) as usize
    } else {
        0
    }
}

/// The smaller of two values.
pub open spec fn min_usize(a: usize, b: usize) -> usize {
    if a <= b {
        a
    } else {
        b
    }
}

/// The cursor moved to (`row`, `col`), the selection's free end following it.
pub open spec fn moved_to(cm: CopyModeState, row: usize, col: usize) -> CopyModeState {
    CopyModeState {
        row,
        col,
        selection: match cm.selection {
            Some(sel) => Some(
                Selection {
                    head: SelectionPoint { row: (cm.scrollback_len + row) as usize, col },
                    ..sel
                },
            ),
            None => None,
        },
        ..cm
    }
}

/// The copy-mode state and outcome after a key press, over a pane of
/// `dims` = (rows, cols), absent when the pane is gone: h/j/k/l and the
/// arrows move by one cell within the pane, `0`/`$` go to the first/last
/// column, `g`/`G` to the top/bottom row, Ctrl+u/Ctrl+d half a screen up or
/// down; `v` starts or drops a selection; `y` ends copy mode copying the
/// selection; `q` and Esc end it. Other keys do nothing.
pub open spec fn copy_step(cm: CopyModeState, key: KeyPress, dims: Option<(usize, usize)>) -> (
    CopyModeState,
    CopyOutcome,
) {
    match key.code {
        KeyCode::Esc => (cm, CopyOutcome::Exit),
        KeyCode::Left => (moved_to(cm, cm.row, sat_sub(cm.col, 1)), CopyOutcome::Stay),
        KeyCode::Down => (moved_to(cm, step_down(cm, dims), cm.col), CopyOutcome::Stay),
        KeyCode::Up => (moved_to(cm, sat_sub(cm.row, 1), cm.col), CopyOutcome::Stay),
        KeyCode::Right => (moved_to(cm, cm.row, step_right(cm, dims)), CopyOutcome::Stay),
        KeyCode::Char(c) => if c == 'q' {
            (cm, CopyOutcome::Exit)
        } else if c == 'h' {
            (moved_to(cm, cm.row, sat_sub(cm.col, 1)), CopyOutcome::Stay)
        } else if c == 'j' {
            (moved_to(cm, step_down(cm, dims), cm.col), CopyOutcome::Stay)
        } else if c == 'k' {
            (moved_to(cm, sat_sub(cm.row, 1), cm.col), CopyOutcome::Stay)
        } else if c == 'l' {
            (moved_to(cm, cm.row, step_right(cm, dims)), CopyOutcome::Stay)
        } else if c == '0' {
            (moved_to(cm, cm.row, 0), CopyOutcome::Stay)
        } else if c == '$' {
            (
                moved_to(
                    cm,
                    cm.row,
                    match dims {
                        Some((_, cols)) => sat_sub(cols, 1),
                        None => cm.col,
                    },
                ),
                CopyOutcome::Stay,
            )
        } else if c == 'g' {
            (moved_to(cm, 0, cm.col), CopyOutcome::Stay)
        } else if c == 'G' {
            (
                moved_to(
                    cm,
                    match dims {
                        Some((rows, _)) => sat_sub(rows, 1),
                        None => cm.row,
                    },
                    cm.col,
                ),
                CopyOutcome::Stay,
            )
        } else if c == 'u' && key.modifiers.control {
            (
                moved_to(
                    cm,
                    match dims {
                        Some((rows, _)) => sat_sub(cm.row, rows / 2),
                        None => cm.row,
                    },
                    cm.col,
                ),
                CopyOutcome::Stay,
            )
        } else if c == 'd' && key.modifiers.control {
            (
                moved_to(
                    cm,
                    match dims {
                        Some((rows, _)) => min_usize(
                            (cm.row + rows / 2) as usize,
                            sat_sub(rows, 1),
                        ),
                        None => cm.row,
                    },
                    cm.col,
                ),
                CopyOutcome::Stay,
            )
        } else if c == 'v' {
            (
                CopyModeState {
                    selection: match cm.selection {
                        Some(_) => None,
                        None => Some(
                            Selection {
                                anchor: SelectionPoint {
                                    row: (cm.scrollback_len + cm.row) as usize,
                                    col: cm.col,
                                },
                                head: SelectionPoint {
                                    row: (cm.scrollback_len + cm.row) as usize,
                                    col: cm.col,
                                },
                            },
                        ),
                    },
                    ..cm
                },
                CopyOutcome::Stay,
            )
        } else if c == 'y' {
            match cm.selection {
                Some(sel) => (cm, CopyOutcome::Yank(sel.ordered().0, sel.ordered().1)),
                None => (cm, CopyOutcome::Exit),
            }
        } else {
            (cm, CopyOutcome::Stay)
        },
        _ => (cm, CopyOutcome::Stay),
    }
}

/// The row one below the cursor, kept on the pane.
pub open spec fn step_down(cm: CopyModeState, dims: Option<(usize, usize)>) -> usize {
    match dims {
        Some((rows, _)) => min_usize((cm.row + 1) as usize, sat_sub(rows, 1)),
        None => cm.row,
    }
}

/// The column one right of the cursor, kept on the pane.
pub open spec fn step_right(cm: CopyModeState, dims: Option<(usize, usize)>) -> usize {
    match dims {
        Some((_, cols)) => min_usize((cm.col + 1) as usize, sat_sub(cols, 1)),
        None => cm.col,
    }
}

/// The row limit a copy-mode step can reach: the cursor row plus one, or
/// plus the pane's rows.
pub open spec fn copy_room(cm: CopyModeState, dims: Option<(usize, usize)>) -> bool {
    &&& cm.scrollback_len + cm.row + 1 <= usize::MAX
    &&& cm.col + 1 <= usize::MAX
    &&& match dims {
        Some((rows, _)) => cm.scrollback_len + cm.row + rows <= usize::MAX,
        None => true,
    }
}

fn saturating_dec(a: usize, b: usize) -> (r: usize)
    ensures
        r == sat_sub(a, b),
{
    if a >= b {
        a - b
    } else {
        0
    }
}

fn smaller(a: usize, b: usize) -> (r: usize)
    ensures
        r == min_usize(a, b),
{
    if a <= b {
        a
    } else {
        b
    }
}

impl CopyModeState {
    /// Copy mode starting at the terminal cursor, with no selection.
    pub fn new(row: usize, col: usize, scrollback_len: usize) -> (r: Self)
        ensures
            r.row == row,
            r.col == col,
            r.scrollback_len == scrollback_len,
            r.selection is None,
    {
        CopyModeState { row, col, scrollback_len, selection: None }
    }

    /// Whether a key press can be handled without a row or column number
    /// overflowing.
    pub fn has_room(&self, dims: Option<(usize, usize)>) -> (r: bool)
        ensures
            r == copy_room(*self, dims),
    {
        let base = self.scrollback_len as u128 + self.row as u128;
        let limit = usize::MAX as u128;
        base + 1 <= limit && (self.col as u128) + 1 <= limit && match dims {
            Some((rows, _)) => base + rows as u128 <= limit,
            None => true,
        }
    }

    /// Move the cursor, and the selection's free end with it.
    fn move_to(&mut self, row: usize, col: usize)
        requires
            old(self).scrollback_len + row <= usize::MAX,
        ensures
            *final(self) == moved_to(*old(self), row, col),
    {
        self.row = row;
        self.col = col;
        self.update_selection();
    }

    /// Move the selection's free end to the cursor.
    pub fn update_selection(&mut self)
        requires
            old(self).scrollback_len + old(self).row <= usize::MAX,
        ensures
            *final(self) == moved_to(*old(self), old(self).row, old(self).col),
    {
        let abs_row = self.scrollback_len + self.row;
        let col = self.col;
        match &mut self.selection {
            Some(sel) => sel.extend(SelectionPoint::new(abs_row, col)),
            None => {},
        }
    }

    /// Keep the cursor on a pane of `rows` by `cols`.
    pub fn clamp_to(&mut self, rows: usize, cols: usize)
        ensures
            final(self).row == min_usize(old(self).row, sat_sub(rows, 1)),
            final(self).col == min_usize(old(self).col, sat_sub(cols, 1)),
            final(self).scrollback_len == old(self).scrollback_len,
            final(self).selection == old(self).selection,
    {
        self.row = smaller(self.row, saturating_dec(rows, 1));
        self.col = smaller(self.col, saturating_dec(cols, 1));
    }

    /// Handle a key press in copy mode, over a pane of `dims` = (rows, cols)
    /// (none when the pane is gone).
    pub fn handle_key(&mut self, key: &KeyPress, dims: Option<(usize, usize)>) -> (r: CopyOutcome)
        requires
            copy_room(*old(self), dims),
        ensures
            (*final(self), r) == copy_step(*old(self), *key, dims),
    {
        let row = self.row;
        let col = self.col;
        match key.code {
            KeyCode::Esc => CopyOutcome::Exit,
            KeyCode::Left => {
                self.move_to(row, saturating_dec(col, 1));
                CopyOutcome::Stay
            },
            KeyCode::Down => {
                let r = self.row_below(dims);
                self.move_to(r, col);
                CopyOutcome::Stay
            },
            KeyCode::Up => {
                self.move_to(saturating_dec(row, 1), col);
                CopyOutcome::Stay
            },
            KeyCode::Right => {
                let c = self.col_right(dims);
                self.move_to(row, c);
                CopyOutcome::Stay
            },
            KeyCode::Char(c) => {
                if c == 'q' {
                    CopyOutcome::Exit
                } else if c == 'h' {
                    self.move_to(row, saturating_dec(col, 1));
                    CopyOutcome::Stay
                } else if c == 'j' {
                    let r = self.row_below(dims);
                    self.move_to(r, col);
                    CopyOutcome::Stay
                } else if c == 'k' {
                    self.move_to(saturating_dec(row, 1), col);
                    CopyOutcome::Stay
                } else if c == 'l' {
                    let nc = self.col_right(dims);
                    self.move_to(row, nc);
                    CopyOutcome::Stay
                } else if c == '0' {
                    self.move_to(row, 0);
                    CopyOutcome::Stay
                } else if c == '$' {
                    let nc = match dims {
                        Some((_, cols)) => saturating_dec(cols, 1),
                        None => col,
                    };
                    self.move_to(row, nc);
                    CopyOutcome::Stay
                } else if c == 'g' {
                    self.move_to(0, col);
                    CopyOutcome::Stay
                } else if c == 'G' {
                    let nr = match dims {
                        Some((rows, _)) => saturating_dec(rows, 1),
                        None => row,
                    };
                    self.move_to(nr, col);
                    CopyOutcome::Stay
                } else if c == 'u' && key.modifiers.control {
                    let nr = match dims {
                        Some((rows, _)) => saturating_dec(row, rows / 2),
                        None => row,
                    };
                    self.move_to(nr, col);
                    CopyOutcome::Stay
                } else if c == 'd' && key.modifiers.control {
                    let nr = match dims {
                        Some((rows, _)) => smaller(row + rows / 2, saturating_dec(rows, 1)),
                        None => row,
                    };
                    self.move_to(nr, col);
                    CopyOutcome::Stay
                } else if c == 'v' {
                    if self.selection.is_some() {
                        self.selection = None;
                    } else {
                        let point = SelectionPoint::new(self.scrollback_len + row, col);
                        self.selection = Some(Selection::start(point));
                    }
                    CopyOutcome::Stay
                } else if c == 'y' {
                    match &self.selection {
                        Some(sel) => {
                            let (a, b) = sel.bounds();
                            CopyOutcome::Yank(a, b)
                        },
                        None => CopyOutcome::Exit,
                    }
                } else {
                    CopyOutcome::Stay
                }
            },
            _ => CopyOutcome::Stay,
        }
    }

    fn row_below(&self, dims: Option<(usize, usize)>) -> (r: usize)
        requires
            copy_room(*self, dims),
        ensures
            r == step_down(*self, dims),
    {
        match dims {
            Some((rows, _)) => smaller(self.row + 1, saturating_dec(rows, 1)),
            None => self.row,
        }
    }

    fn col_right(&self, dims: Option<(usize, usize)>) -> (r: usize)
        requires
            copy_room(*self, dims),
        ensures
            r == step_right(*self, dims),
    {
        match dims {
            Some((_, cols)) => smaller(self.col + 1, saturating_dec(cols, 1)),
            None => self.col,
        }
    }
}


/// Copy mode keeps its cursor on the pane: from a cell of a pane of `rows`
/// by `cols`, every key leaves the cursor on a cell of that pane.
pub proof fn law_copy_cursor_stays_on_pane(cm: CopyModeState, key: KeyPress, rows: usize, cols: usize)
    requires
        cm.row < rows,
        cm.col < cols,
    ensures
        copy_step(cm, key, Some((rows, cols))).0.row < rows,
        copy_step(cm, key, Some((rows, cols))).0.col < cols,
{
}

/// Pressing `v` twice drops the selection it started, leaving the cursor
/// where it was.
pub proof fn law_select_toggle_round_trip(cm: CopyModeState, dims: Option<(usize, usize)>)
    requires
        cm.selection is None,
    ensures
        ({
            let v = KeyPress { code: KeyCode::Char('v'), modifiers: no_mods() };
            copy_step(copy_step(cm, v, dims).0, v, dims).0 == cm
        }),
{
}


/// In copy mode the arrows and `h`/`j`/`k`/`l` move the cursor one cell,
/// whatever modifiers are held, and copy mode goes on: Up (or `k`) to the row
/// above, stopping at the top; Down (or `j`) to the row below, stopping at
/// the pane's last row; Left (or `h`) to the column before, stopping at the
/// first; Right (or `l`) to the column after, stopping at the pane's last.
/// The other coordinate stays where it was.
pub proof fn law_copy_arrows_move_one_cell(cm: CopyModeState, mods: KeyMods, rows: usize, cols: usize)
    requires
        cm.row < rows,
        cm.col < cols,
    ensures
        ({
            let dims = Some((rows, cols));
            let up = copy_step(cm, KeyPress { code: KeyCode::Up, modifiers: mods }, dims);
            let k = copy_step(cm, KeyPress { code: KeyCode::Char('k'), modifiers: mods }, dims);
            let down = copy_step(cm, KeyPress { code: KeyCode::Down, modifiers: mods }, dims);
            let j = copy_step(cm, KeyPress { code: KeyCode::Char('j'), modifiers: mods }, dims);
            let left = copy_step(cm, KeyPress { code: KeyCode::Left, modifiers: mods }, dims);
            let h = copy_step(cm, KeyPress { code: KeyCode::Char('h'), modifiers: mods }, dims);
            let right = copy_step(cm, KeyPress { code: KeyCode::Right, modifiers: mods }, dims);
            let l = copy_step(cm, KeyPress { code: KeyCode::Char('l'), modifiers: mods }, dims);
            &&& up.0.row == (if cm.row > 0 { cm.row - 1 } else { 0int }) && up.0.col == cm.col
            &&& down.0.row == (if cm.row + 1 < rows { cm.row + 1 } else { cm.row as int }) && down.0.col == cm.col
            &&& left.0.col == (if cm.col > 0 { cm.col - 1 } else { 0int }) && left.0.row == cm.row
            &&& right.0.col == (if cm.col + 1 < cols { cm.col + 1 } else { cm.col as int }) && right.0.row == cm.row
            &&& up.1 == CopyOutcome::Stay && down.1 == CopyOutcome::Stay
            &&& left.1 == CopyOutcome::Stay && right.1 == CopyOutcome::Stay
            &&& up == k && down == j && left == h && right == l
        }),
{
}


/// In copy mode `0` and `$` go to the first and last column of the row, `g`
/// and `G` to the top and bottom row of the column, Ctrl+u and Ctrl+d half
/// the pane's height up and down (kept on the pane), and copy mode goes on;
/// `q` and Esc end it with the cursor where it was.
pub proof fn law_copy_jumps_and_exits(cm: CopyModeState, mods: KeyMods, rows: usize, cols: usize)
    requires
        cm.row < rows,
        cm.col < cols,
        cm.row + rows <= usize::MAX,
    ensures
        ({
            let dims = Some((rows, cols));
            let press = |c: char| KeyPress { code: KeyCode::Char(c), modifiers: mods };
            let ctrl = KeyMods { control: true, ..mods };
            let first = copy_step(cm, press('0'), dims);
            let last = copy_step(cm, press('$'), dims);
            let top = copy_step(cm, press('g'), dims);
            let bottom = copy_step(cm, press('G'), dims);
            let half_up = copy_step(cm, KeyPress { code: KeyCode::Char('u'), modifiers: ctrl }, dims);
            let half_down = copy_step(cm, KeyPress { code: KeyCode::Char('d'), modifiers: ctrl }, dims);
            &&& first.0.col == 0 && first.0.row == cm.row && first.1 == CopyOutcome::Stay
            &&& last.0.col == cols - 1 && last.0.row == cm.row && last.1 == CopyOutcome::Stay
            &&& top.0.row == 0 && top.0.col == cm.col && top.1 == CopyOutcome::Stay
            &&& bottom.0.row == rows - 1 && bottom.0.col == cm.col && bottom.1 == CopyOutcome::Stay
            &&& half_up.0.row == (if cm.row >= rows / 2 { cm.row - rows / 2 } else { 0int })
            &&& half_up.0.col == cm.col && half_up.1 == CopyOutcome::Stay
            &&& half_down.0.row == (if cm.row + rows / 2 < rows { cm.row + rows / 2 } else { rows - 1 })
            &&& half_down.0.col == cm.col && half_down.1 == CopyOutcome::Stay
            &&& copy_step(cm, press('q'), dims) == (cm, CopyOutcome::Exit)
            &&& copy_step(cm, KeyPress { code: KeyCode::Esc, modifiers: mods }, dims) == (cm, CopyOutcome::Exit)
        }),
{
}

} // verus!
