//! The small rules of pane and tab operations: when a pane may close, the
//! name of a new tab, the size a new pane's terminal gets, and where a
//! pane's cursor lands on the terminal.

use vstd::prelude::*;
use crate::geometry::PanePosition;
use crate::text::{chars_of, decimal, decimal_chars, string_from_chars};

verus! {

/// Whether the active pane may be closed: never the last pane of its tab.
pub fn may_close_pane(panes_in_tab: usize) -> (r: bool)
    ensures
        r == (panes_in_tab > 1),
{
    panes_in_tab > 1
}

/// The name of a new tab, numbered by the count of tabs before it.
pub fn new_tab_name(tab_count: usize) -> (r: String)
    ensures
        r@ == "Tab "@ + decimal(tab_count as nat),
{
    let mut v = chars_of("Tab ");
    let mut n = decimal_chars(tab_count as u64);
    v.append(&mut n);
    string_from_chars(v.as_slice())
}

/// The size (columns, rows) of a new pane's terminal: that of its place in
/// the layout, or 80 by 24 where the layout has none.
pub fn new_pane_size(position: Option<PanePosition>) -> (r: (usize, usize))
    ensures
        r == (match position {
            Some(p) => (p.cols, p.rows),
            None => (80usize, 24usize),
        }),
{
    match position {
        Some(p) => (p.cols, p.rows),
        None => (80, 24),
    }
}

/// Whether a pane's terminal must be resized to its place in the layout.
pub fn needs_resize(screen_cols: usize, screen_rows: usize, position: &PanePosition) -> (r: bool)
    ensures
        r == (screen_cols != position.cols || screen_rows != position.rows),
{
    screen_cols != position.cols || screen_rows != position.rows
}

/// The part of a pane's screen drawn in its place: the smaller of the two
/// sizes in each direction, as (columns, rows).
pub fn drawn_region(position: &PanePosition, screen_cols: usize, screen_rows: usize) -> (r: (usize, usize))
    ensures
        r.0 == (if position.cols <= screen_cols { position.cols } else { screen_cols }),
        r.1 == (if position.rows <= screen_rows { position.rows } else { screen_rows }),
{
    let c = if position.cols <= screen_cols { position.cols } else { screen_cols };
    let r = if position.rows <= screen_rows { position.rows } else { screen_rows };
    (c, r)
}

/// Where a pane's cursor lands on the terminal: its place plus the cursor's
/// cell, each taken as a `u16`.
pub fn terminal_cursor(position: &PanePosition, cursor_row: usize, cursor_col: usize) -> (r: (u16, u16))
    requires
        (position.col as u16) + (cursor_col as u16) <= u16::MAX,
        (position.row as u16) + (cursor_row as u16) <= u16::MAX,
    ensures
        r.0 == (position.col as u16) + (cursor_col as u16),
        r.1 == (position.row as u16) + (cursor_row as u16),
{
    (position.col as u16 + cursor_col as u16, position.row as u16 + cursor_row as u16)
}

} // verus!
