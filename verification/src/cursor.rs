//! Cursor position and style tracking.

use vstd::prelude::*;

use crate::cells::{CellAttrs, Color};

verus! {

/// Cursor shape.
#[derive(Debug, Clone, Copy, PartialEq, Eq, Structural)]
pub enum CursorShape {
    Block,
    Underline,
    Bar,
}

impl Default for CursorShape {
    fn default() -> (r: Self)
        ensures
            r == CursorShape::Block,
    {
        CursorShape::Block
    }
}

/// Cursor state.
#[derive(Debug, Clone, Copy, PartialEq, Eq, Structural)]
pub struct Cursor {
    pub row: usize,
    pub col: usize,
    pub visible: bool,
    pub shape: CursorShape,
}

impl Default for Cursor {
    /// A visible block cursor in the top-left corner.
    fn default() -> (r: Self)
        ensures
            r.row == 0,
            r.col == 0,
            r.visible,
            r.shape == CursorShape::Block,
    {
        Self { row: 0, col: 0, visible: true, shape: CursorShape::Block }
    }
}

/// A character set that G0 or G1 can be designated to.
#[derive(Debug, Clone, Copy, PartialEq, Eq, Structural)]
pub enum Charset {
    /// US ASCII (`ESC ( B`).
    Ascii,
    /// DEC special graphics, the line-drawing set (`ESC ( 0`).
    DecSpecialGraphics,
    /// The United Kingdom set (`ESC ( A`).
    Uk,
}

/// Saved cursor state for DECSC/DECRC.
#[derive(Debug, Clone, Copy, PartialEq, Eq, Structural)]
pub struct SavedCursor {
    pub row: usize,
    pub col: usize,
    pub attrs: CellAttrs,
    pub fg: Color,
    pub bg: Color,
    pub charset_g0: Charset,
    pub charset_g1: Charset,
    pub active_charset: u8,
    pub origin_mode: bool,
    pub pending_wrap: bool,
}

} // verus!
