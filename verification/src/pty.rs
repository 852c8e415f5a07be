//! The pseudo-terminal interface that panes run their programs in.

use vstd::prelude::*;

verus! {

/// The size of a pseudo-terminal, in cells and pixels.
#[derive(Debug, Clone, Copy, PartialEq, Eq, Structural)]
pub struct PtySize {
    pub rows: u16,
    pub cols: u16,
    pub pixel_width: u16,
    pub pixel_height: u16,
}

impl PtySize {
    /// The size of a pane of `cols` by `rows` cells, with no pixel size; each
    /// count is taken modulo 2^16, as a cast to `u16` does.
    pub fn for_cells(cols: usize, rows: usize) -> (r: Self)
        ensures
            r.rows == rows as u16,
            r.cols == cols as u16,
            r.pixel_width == 0,
            r.pixel_height == 0,
    {
        PtySize { rows: rows as u16, cols: cols as u16, pixel_width: 0, pixel_height: 0 }
    }
}

/// A failure of a pseudo-terminal operation.
#[derive(Debug, Clone)]
pub struct PtyError {
    pub message: String,
}

/// Trait for interacting with a pseudo-terminal. Its implementors also
/// implement `std::io::Read` and `std::io::Write` for the terminal's bytes.
pub trait Pty {
    /// Resize the PTY to the given dimensions.
    fn resize(&self, size: PtySize) -> Result<(), PtyError>;

    /// Return the PID of the child process.
    fn child_pid(&self) -> u32;

    /// Check whether the child process is still running.
    fn is_alive(&self) -> bool;
}

} // verus!
