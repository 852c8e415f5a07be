//! The timing and lifecycle decisions of the event loops: when to redraw,
//! how long to wait for input, when to reload the configuration and save
//! the session, and what a pane's exit or a kill request leads to.
//!
//! Times are whole nanoseconds since the event in question.

use vstd::prelude::*;
use crate::text::{chars_equal, chars_of};

verus! {

/// The shortest time between two redraws after program output (about 60
/// frames a second).
pub const FRAME_BUDGET_NANOS: u64 = 16_000_000;

/// How often the configuration file is checked for changes.
pub const CONFIG_CHECK_INTERVAL_NANOS: u64 = 5_000_000_000;

/// How often a changed session is saved.
pub const AUTO_SAVE_INTERVAL_NANOS: u64 = 30_000_000_000;

/// Whether to redraw after program output: only once the frame budget has
/// passed since the last redraw.
pub fn render_due(any_output: bool, since_last_render: u64) -> (r: bool)
    ensures
        r == (any_output && since_last_render >= FRAME_BUDGET_NANOS),
{
    any_output && since_last_render >= FRAME_BUDGET_NANOS
}

/// How long to wait for input: not at all right after output (more is
/// likely on its way), else until the next frame is due.
pub fn poll_timeout(any_output: bool, since_last_render: u64) -> (r: u64)
    ensures
        r == (if any_output {
            0
        } else if since_last_render >= FRAME_BUDGET_NANOS {
            0
        } else {
            (FRAME_BUDGET_NANOS - since_last_render) as u64
        }),
{
    if any_output {
        0
    } else if since_last_render >= FRAME_BUDGET_NANOS {
        0
    } else {
        FRAME_BUDGET_NANOS - since_last_render
    }
}

/// Whether it is time to look at the configuration file again.
pub fn config_check_due(since_last_check: u64) -> (r: bool)
    ensures
        r == (since_last_check >= CONFIG_CHECK_INTERVAL_NANOS),
{
    since_last_check >= CONFIG_CHECK_INTERVAL_NANOS
}

/// Whether to save the session now: it changed, and the save interval has
/// passed since the last save.
pub fn auto_save_due(dirty: bool, since_last_save: u64) -> (r: bool)
    ensures
        r == (dirty && since_last_save >= AUTO_SAVE_INTERVAL_NANOS),
{
    dirty && since_last_save >= AUTO_SAVE_INTERVAL_NANOS
}

/// How long the daemon sleeps between rounds: a millisecond while programs
/// are producing output, a frame otherwise.
pub fn daemon_pause(had_output: bool) -> (r: u64)
    ensures
        r == (if had_output {
            1_000_000u64
        } else {
            FRAME_BUDGET_NANOS
        }),
{
    if had_output {
        1_000_000
    } else {
        FRAME_BUDGET_NANOS
    }
}

/// The rows left for panes on a terminal of `rows`, the last one being the
/// status bar.
pub fn pane_area_rows(rows: u16) -> (r: usize)
    ensures
        r == (if rows >= 1 {
            (rows - 1) as usize
        } else {
            0
        }),
{
    if rows >= 1 {
        (rows - 1) as usize
    } else {
        0
    }
}

/// What the death of a pane's program leads to.
#[derive(Debug, Clone, Copy, PartialEq, Eq, Structural)]
pub enum PaneExit {
    /// Close the pane; others remain in its tab.
    ClosePane,
    /// It was the tab's last pane: quit.
    Quit,
}

/// What the death of a pane's program leads to, with `panes` panes in the
/// active tab.
pub fn on_pane_exit(panes: usize) -> (r: PaneExit)
    ensures
        r == (if panes > 1 {
            PaneExit::ClosePane
        } else {
            PaneExit::Quit
        }),
{
    if panes > 1 {
        PaneExit::ClosePane
    } else {
        PaneExit::Quit
    }
}

/// Whether a request to kill the session `name` stops the daemon serving
/// `session`: only when the names are equal.
pub fn kill_stops_daemon(name: &str, session: &str) -> (r: bool)
    ensures
        r == (name@ == session@),
{
    let a = chars_of(name);
    let b = chars_of(session);
    chars_equal(a.as_slice(), b.as_slice())
}

} // verus!
