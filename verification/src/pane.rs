//! Pane management — individual terminal instances within a window.

use vstd::prelude::*;

verus! {

pub type PaneId = u32;

/// Size of a pane in rows and columns.
#[derive(Debug, Clone, Copy, PartialEq, Eq, Structural)]
pub struct PaneSize {
    /// Number of rows (height in characters).
    pub rows: usize,
    /// Number of columns (width in characters).
    pub cols: usize,
}

/// Constraints that prevent a pane from being split or resized along an axis.
#[derive(Debug, Clone, Copy, PartialEq, Eq, Structural)]
pub struct PaneConstraints {
    /// If set, the pane cannot be resized vertically.
    pub fixed_rows: Option<usize>,
    /// If set, the pane cannot be resized horizontally.
    pub fixed_cols: Option<usize>,
}

impl Default for PaneConstraints {
    fn default() -> (r: Self)
        ensures
            r.fixed_rows is None,
            r.fixed_cols is None,
    {
        PaneConstraints { fixed_rows: None, fixed_cols: None }
    }
}

impl PaneSize {
    pub fn new(cols: usize, rows: usize) -> (s: Self)
        ensures
            s.cols == cols,
            s.rows == rows,
    {
        Self { rows, cols }
    }
}

/// A pane as a mathematical value.
pub ghost struct PaneModel {
    pub id: PaneId,
    pub title: Seq<char>,
    pub previous_title: Option<Seq<char>>,
    pub size: PaneSize,
    pub cleared: bool,
    pub scroll_offset: usize,
    pub constraints: PaneConstraints,
    pub scrollback: Seq<Seq<char>>,
}

impl PaneModel {
    /// A fresh pane.
    pub open spec fn fresh(id: PaneId, cols: usize, rows: usize) -> PaneModel {
        PaneModel {
            id,
            title: Seq::empty(),
            previous_title: None,
            size: PaneSize { rows, cols },
            cleared: false,
            scroll_offset: 0,
            constraints: PaneConstraints { fixed_rows: None, fixed_cols: None },
            scrollback: Seq::empty(),
        }
    }

    /// The pane after a rename: the old title is kept for one undo.
    pub open spec fn renamed(self, title: Seq<char>) -> PaneModel {
        PaneModel { previous_title: Some(self.title), title, ..self }
    }

    /// The pane after an undo of the last rename, and whether there was one.
    pub open spec fn undone(self) -> (PaneModel, bool) {
        match self.previous_title {
            Some(prev) => (PaneModel { title: prev, previous_title: None, ..self }, true),
            None => (self, false),
        }
    }

    /// The scroll offset after scrolling up (into history) by `lines`.
    pub open spec fn scrolled_up(self, lines: usize) -> usize {
        if self.scroll_offset + lines > usize::MAX {
            usize::MAX
        } else {
            (self.scroll_offset + lines) as usize
        }
    }

    /// The scroll offset after scrolling down (towards live output) by `lines`.
    pub open spec fn scrolled_down(self, lines: usize) -> usize {
        if self.scroll_offset < lines {
            0
        } else {
            (self.scroll_offset - lines) as usize
        }
    }
}

/// A single pane, representing one terminal instance.
#[derive(Debug)]
pub struct Pane {
    id: PaneId,
    title: String,
    previous_title: Option<String>,
    size: PaneSize,
    cleared: bool,
    scroll_offset: usize,
    constraints: PaneConstraints,
    scrollback: Vec<String>,
}

impl View for Pane {
    type V = PaneModel;

    closed spec fn view(&self) -> PaneModel {
        PaneModel {
            id: self.id,
            title: self.title@,
            previous_title: match self.previous_title {
                Some(t) => Some(t@),
                None => None,
            },
            size: self.size,
            cleared: self.cleared,
            scroll_offset: self.scroll_offset,
            constraints: self.constraints,
            scrollback: self.scrollback@.map_values(|l: String| l@),
        }
    }
}

impl Pane {
    /// Create a new pane with the given ID and dimensions.
    pub fn new(id: PaneId, cols: usize, rows: usize) -> (p: Self)
        ensures
            p@ == PaneModel::fresh(id, cols, rows),
    {
        let p = Self {
            id,
            title: String::new(),
            previous_title: None,
            size: PaneSize::new(cols, rows),
            cleared: false,
            scroll_offset: 0,
            constraints: PaneConstraints::default(),
            scrollback: Vec::new(),
        };
        proof {
            assert(p@.scrollback =~= Seq::<Seq<char>>::empty());
        }
        p
    }

    /// Returns the pane's unique identifier.
    pub fn id(&self) -> (r: PaneId)
        ensures
            r == self@.id,
    {
        self.id
    }

    /// Returns the pane's current title.
    pub fn title(&self) -> (r: &str)
        ensures
            r@ == self@.title,
    {
        self.title.as_str()
    }

    /// Set the pane title, saving the previous title for undo.
    pub fn set_title(&mut self, title: &str)
        ensures
            final(self)@ == old(self)@.renamed(title@),
    {
        self.previous_title = Some(self.title.clone());
        self.title = title.to_owned();
    }

    /// Undo the last rename, restoring the previous title.
    pub fn undo_rename(&mut self) -> (r: bool)
        ensures
            (final(self)@, r) == old(self)@.undone(),
    {
        match self.previous_title.take() {
            Some(prev) => {
                self.title = prev;
                true
            },
            None => false,
        }
    }

    /// Mark or unmark the pane as cleared.
    pub fn set_cleared(&mut self, cleared: bool)
        ensures
            final(self)@ == (PaneModel { cleared, ..old(self)@ }),
    {
        self.cleared = cleared;
    }

    /// Returns whether the pane has been cleared.
    pub fn is_cleared(&self) -> (r: bool)
        ensures
            r == self@.cleared,
    {
        self.cleared
    }

    /// Scroll up by the given number of lines.
    pub fn scroll_up(&mut self, lines: usize)
        ensures
            final(self)@ == (PaneModel { scroll_offset: old(self)@.scrolled_up(lines), ..old(self)@ }),
    {
        self.scroll_offset = self.scroll_offset.saturating_add(lines);
    }

    /// Scroll down by the given number of lines.
    pub fn scroll_down(&mut self, lines: usize)
        ensures
            final(self)@ == (PaneModel { scroll_offset: old(self)@.scrolled_down(lines), ..old(self)@ }),
    {
        self.scroll_offset = self.scroll_offset.saturating_sub(lines);
    }

    /// Scroll to the top of the scrollback.
    pub fn scroll_to_top(&mut self)
        ensures
            final(self)@ == (PaneModel { scroll_offset: usize::MAX, ..old(self)@ }),
    {
        self.scroll_offset = usize::MAX;
    }

    /// Scroll to the bottom (most recent output).
    pub fn scroll_to_bottom(&mut self)
        ensures
            final(self)@ == (PaneModel { scroll_offset: 0, ..old(self)@ }),
    {
        self.scroll_offset = 0;
    }

    /// Get the current scroll offset.
    pub fn scroll_offset(&self) -> (r: usize)
        ensures
            r == self@.scroll_offset,
    {
        self.scroll_offset
    }

    /// Returns the current pane dimensions.
    pub fn size(&self) -> (r: PaneSize)
        ensures
            r == self@.size,
    {
        self.size
    }

    /// Resize the pane to the given dimensions.
    pub fn resize(&mut self, cols: usize, rows: usize)
        ensures
            final(self)@ == (PaneModel { size: PaneSize { rows, cols }, ..old(self)@ }),
    {
        self.size = PaneSize::new(cols, rows);
    }

    /// Get the pane constraints.
    pub fn constraints(&self) -> (r: &PaneConstraints)
        ensures
            *r == self@.constraints,
    {
        &self.constraints
    }

    /// Set pane constraints.
    pub fn set_constraints(&mut self, constraints: PaneConstraints)
        ensures
            final(self)@ == (PaneModel { constraints, ..old(self)@ }),
    {
        self.constraints = constraints;
    }

    /// Check if this pane has a fixed number of columns.
    pub fn has_fixed_cols(&self) -> (r: bool)
        ensures
            r == self@.constraints.fixed_cols is Some,
    {
        self.constraints.fixed_cols.is_some()
    }

    /// Check if this pane has a fixed number of rows.
    pub fn has_fixed_rows(&self) -> (r: bool)
        ensures
            r == self@.constraints.fixed_rows is Some,
    {
        self.constraints.fixed_rows.is_some()
    }

    /// Push a line to the scrollback buffer.
    pub fn push_scrollback(&mut self, line: &str)
        ensures
            final(self)@ == (PaneModel { scrollback: old(self)@.scrollback.push(line@), ..old(self)@ }),
    {
        self.scrollback.push(line.to_owned());
        proof {
            assert(self@.scrollback =~= old(self)@.scrollback.push(line@));
        }
    }

    /// Get the scrollback buffer.
    pub fn scrollback(&self) -> (r: &[String])
        ensures
            r@.map_values(|l: String| l@) == self@.scrollback,
    {
        self.scrollback.as_slice()
    }
}

/// Undoing a rename restores the title the pane had before it, and there is
/// nothing left to undo after that.
pub proof fn law_rename_then_undo(m: PaneModel, title: Seq<char>)
    ensures
        m.renamed(title).undone().1,
        m.renamed(title).undone().0.title == m.title,
        !m.renamed(title).undone().0.undone().1,
        m.renamed(title).undone().0.undone().0 == m.renamed(title).undone().0,
{
}

/// Scrolling down by as many lines as were just scrolled up returns to the
/// same offset, as long as scrolling up did not saturate.
pub proof fn law_scroll_round_trip(m: PaneModel, lines: usize)
    requires
        m.scroll_offset + lines <= usize::MAX,
    ensures
        (PaneModel { scroll_offset: m.scrolled_up(lines), ..m }).scrolled_down(lines)
            == m.scroll_offset,
{
}

} // verus!
