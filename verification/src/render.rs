//! Rendering state: which rows of a screen need redrawing, and the renderer
//! that tracks them against the terminal's size.

use vstd::prelude::*;

verus! {

/// Per-row damage: which rows changed since the last redraw.
#[derive(Debug, Clone)]
pub struct DamageTracker {
    dirty: Vec<bool>,
}

impl View for DamageTracker {
    type V = Seq<bool>;

    closed spec fn view(&self) -> Seq<bool> {
        self.dirty@
    }
}

/// `rows` rows, all needing a redraw.
pub open spec fn all_dirty(rows: nat) -> Seq<bool> {
    Seq::new(rows, |i: int| true)
}

/// `rows` rows, none needing a redraw.
pub open spec fn all_clean(rows: nat) -> Seq<bool> {
    Seq::new(rows, |i: int| false)
}

/// The rows marked, in increasing order.
pub open spec fn marked_rows(dirty: Seq<bool>, upto: int) -> Seq<usize>
    decreases upto,
{
    if upto <= 0 {
        Seq::empty()
    } else if dirty[upto - 1] {
        marked_rows(dirty, upto - 1).push((upto - 1) as usize)
    } else {
        marked_rows(dirty, upto - 1)
    }
}

/// The entries of `s` below `limit`, in order.
pub open spec fn below(s: Seq<usize>, limit: usize) -> Seq<usize>
    decreases s.len(),
{
    if s.len() == 0 {
        s
    } else if s.last() < limit {
        below(s.drop_last(), limit).push(s.last())
    } else {
        below(s.drop_last(), limit)
    }
}

fn all_true(rows: usize) -> (r: Vec<bool>)
    ensures
        r@ == all_dirty(rows as nat),
{
    let mut v: Vec<bool> = Vec::new();
    let mut i: usize = 0;
    while i < rows
        invariant
            0 <= i <= rows,
            v@ == all_dirty(i as nat),
        decreases rows - i,
    {
        v.push(true);
        i = i + 1;
        proof {
            assert(v@ =~= all_dirty(i as nat));
        }
    }
    v
}

impl DamageTracker {
    /// A tracker for `rows` rows, all of them needing a first draw.
    pub fn new(rows: usize) -> (r: Self)
        ensures
            r@ == all_dirty(rows as nat),
    {
        DamageTracker { dirty: all_true(rows) }
    }

    /// The number of rows tracked.
    pub fn rows(&self) -> (r: usize)
        ensures
            r == self@.len(),
    {
        self.dirty.len()
    }

    /// Mark one row as needing a redraw; rows past the end are ignored.
    pub fn mark_row(&mut self, row: usize)
        ensures
            final(self)@ == (if row < old(self)@.len() {
                old(self)@.update(row as int, true)
            } else {
                old(self)@
            }),
    {
        if row < self.dirty.len() {
            self.dirty.set(row, true);
        }
    }

    /// Mark every row as needing a redraw.
    pub fn mark_all(&mut self)
        ensures
            final(self)@ == all_dirty(old(self)@.len()),
    {
        self.dirty = all_true(self.dirty.len());
    }

    /// Track `rows` rows instead, all needing a redraw.
    pub fn resize(&mut self, rows: usize)
        ensures
            final(self)@ == all_dirty(rows as nat),
    {
        self.dirty = all_true(rows);
    }

    /// Whether a row needs a redraw.
    pub fn is_dirty(&self, row: usize) -> (r: bool)
        ensures
            r == (row < self@.len() && self@[row as int]),
    {
        row < self.dirty.len() && self.dirty[row]
    }

    /// Whether any row needs a redraw.
    pub fn needs_redraw(&self) -> (r: bool)
        ensures
            r == exists|i: int| 0 <= i < self@.len() && #[trigger] self@[i],
    {
        let mut i: usize = 0;
        while i < self.dirty.len()
            invariant
                0 <= i <= self@.len(),
                forall|j: int| 0 <= j < i ==> !#[trigger] self@[j],
            decreases self@.len() - i,
        {
            if self.dirty[i] {
                return true;
            }
            i = i + 1;
        }
        false
    }

    /// The rows needing a redraw, in increasing order.
    pub fn dirty_rows(&self) -> (r: Vec<usize>)
        ensures
            r@ == marked_rows(self@, self@.len() as int),
    {
        let mut out: Vec<usize> = Vec::new();
        let mut i: usize = 0;
        while i < self.dirty.len()
            invariant
                0 <= i <= self@.len(),
                out@ == marked_rows(self@, i as int),
            decreases self@.len() - i,
        {
            if self.dirty[i] {
                out.push(i);
            }
            i = i + 1;
        }
        out
    }

    /// Forget all damage, after a redraw.
    pub fn clear(&mut self)
        ensures
            final(self)@ == all_clean(old(self)@.len()),
    {
        let n = self.dirty.len();
        let mut i: usize = 0;
        while i < n
            invariant
                0 <= i <= n,
                n == self@.len(),
                n == old(self)@.len(),
                forall|j: int| 0 <= j < i ==> !#[trigger] self@[j],
            decreases n - i,
        {
            self.dirty.set(i, false);
            i = i + 1;
        }
        proof {
            assert(self@ =~= all_clean(old(self)@.len()));
        }
    }
}

/// A renderer as a value: the damage of each row and the size it last drew.
pub ghost struct RendererModel {
    pub damage: Seq<bool>,
    pub cols: nat,
    pub rows: nat,
}

/// Terminal renderer with damage tracking for efficient redraws.
#[derive(Debug)]
pub struct Renderer {
    damage: DamageTracker,
    last_cols: usize,
    last_rows: usize,
}

impl View for Renderer {
    type V = RendererModel;

    closed spec fn view(&self) -> RendererModel {
        RendererModel { damage: self.damage@, cols: self.last_cols as nat, rows: self.last_rows as nat }
    }
}

impl Renderer {
    /// The damage list has one entry per row of the size last drawn.
    #[verifier::type_invariant]
    closed spec fn one_entry_per_row(&self) -> bool {
        self.damage@.len() == self.last_rows
    }

    /// Create a new renderer for a terminal of the given size, with every
    /// row to draw.
    pub fn new(cols: usize, rows: usize) -> (r: Self)
        ensures
            r@.cols == cols,
            r@.rows == rows,
            r@.damage == all_dirty(rows as nat),
    {
        Self { damage: DamageTracker::new(rows), last_cols: cols, last_rows: rows }
    }

    /// Force a full redraw on the next render call: every row of the size
    /// last drawn is marked.
    pub fn force_redraw(&mut self)
        ensures
            final(self)@.cols == old(self)@.cols,
            final(self)@.rows == old(self)@.rows,
            final(self)@.damage == all_dirty(old(self)@.rows),
    {
        self.damage = DamageTracker::new(self.last_rows);
    }

    /// Resize the renderer to match new terminal dimensions; every row is
    /// then to be drawn.
    pub fn resize(&mut self, cols: usize, rows: usize)
        ensures
            final(self)@.cols == cols,
            final(self)@.rows == rows,
            final(self)@.damage == all_dirty(rows as nat),
    {
        *self = Self { damage: DamageTracker::new(rows), last_cols: cols, last_rows: rows };
    }

    /// Prepare to draw a screen of `cols` by `rows`: take on that size if it
    /// differs from the last one, then give the rows to redraw (those on the
    /// screen), in increasing order.
    pub fn rows_to_draw(&mut self, cols: usize, rows: usize) -> (r: Vec<usize>)
        ensures
            final(self)@.cols == cols,
            final(self)@.rows == rows,
            final(self)@.damage == (if cols != old(self)@.cols || rows != old(self)@.rows {
                all_dirty(rows as nat)
            } else {
                old(self)@.damage
            }),
            final(self)@.damage.len() == rows,
            r@ == below(marked_rows(final(self)@.damage, rows as int), rows),
    {
        proof {
            use_type_invariant(&*self);
        }
        if cols != self.last_cols || rows != self.last_rows {
            self.resize(cols, rows);
        }
        let marked = self.damage.dirty_rows();
        let mut out: Vec<usize> = Vec::new();
        let mut i: usize = 0;
        while i < marked.len()
            invariant
                0 <= i <= marked@.len(),
                out@ == below(marked@.take(i as int), rows),
            decreases marked@.len() - i,
        {
            proof {
                assert(marked@.take(i + 1).drop_last() =~= marked@.take(i as int));
                assert(marked@.take(i + 1).last() == marked@[i as int]);
            }
            if marked[i] < rows {
                out.push(marked[i]);
            }
            i = i + 1;
        }
        proof {
            assert(marked@.take(marked@.len() as int) =~= marked@);
        }
        out
    }

    /// Record that everything drawn is up to date.
    pub fn finish_frame(&mut self)
        ensures
            final(self)@.cols == old(self)@.cols,
            final(self)@.rows == old(self)@.rows,
            final(self)@.damage == all_clean(old(self)@.rows),
    {
        let mut cleared = DamageTracker::new(self.last_rows);
        cleared.clear();
        self.damage = cleared;
    }
}

/// The first `upto` rows of `n` rows all marked are `0 .. upto`.
proof fn lemma_all_marked(n: nat, upto: int)
    requires
        0 <= upto <= n,
    ensures
        marked_rows(all_dirty(n), upto) == Seq::new(upto as nat, |i: int| i as usize),
    decreases upto,
{
    if upto > 0 {
        lemma_all_marked(n, upto - 1);
        assert(marked_rows(all_dirty(n), upto) =~= Seq::new(upto as nat, |i: int| i as usize));
    }
}

/// Keeping the entries below `limit` keeps all of `0 .. k` when `k <= limit`.
proof fn lemma_below_keeps_prefix(k: nat, limit: usize)
    requires
        k <= limit,
    ensures
        below(Seq::new(k, |i: int| i as usize), limit) == Seq::new(k, |i: int| i as usize),
    decreases k,
{
    if k > 0 {
        let s = Seq::new(k, |i: int| i as usize);
        assert(s.drop_last() =~= Seq::new((k - 1) as nat, |i: int| i as usize));
        lemma_below_keeps_prefix((k - 1) as nat, limit);
        assert(below(s, limit) =~= s);
    }
}

/// No row is marked among rows all clean.
proof fn lemma_none_marked(n: nat, upto: int)
    requires
        0 <= upto <= n,
    ensures
        marked_rows(all_clean(n), upto) == Seq::<usize>::empty(),
    decreases upto,
{
    if upto > 0 {
        lemma_none_marked(n, upto - 1);
    }
}

/// After a forced redraw (or a first draw, or a resize) of a screen of
/// `rows` rows, the rows to draw are every row, `0 .. rows`, in order; once
/// the frame is finished, none is drawn until a row is marked again.
pub proof fn law_forced_redraw_draws_every_row(rows: usize)
    ensures
        below(marked_rows(all_dirty(rows as nat), rows as int), rows)
            == Seq::new(rows as nat, |i: int| i as usize),
        below(marked_rows(all_clean(rows as nat), rows as int), rows) == Seq::<usize>::empty(),
{
    lemma_all_marked(rows as nat, rows as int);
    lemma_below_keeps_prefix(rows as nat, rows);
    lemma_none_marked(rows as nat, rows as int);
}

/// The rows below `upto` that a pane region redraws: all of them on a
/// forced redraw, else the dirty ones, in increasing order.
pub open spec fn region_rows(dirty: Seq<bool>, upto: int, force: bool) -> Seq<usize>
    decreases upto,
{
    if upto <= 0 {
        Seq::empty()
    } else {
        let before = region_rows(dirty, upto - 1, force);
        let r = upto - 1;
        if force || (r < dirty.len() && dirty[r]) {
            before.push(r as usize)
        } else {
            before
        }
    }
}

/// The rows of a pane region to redraw: the first `rows` rows (the smaller
/// of the region's and the screen's height), skipping clean ones unless the
/// redraw is forced.
pub fn region_rows_to_draw(damage: &DamageTracker, rows: usize, force: bool) -> (r: Vec<usize>)
    ensures
        r@ == region_rows(damage@, rows as int, force),
{
    let mut out: Vec<usize> = Vec::new();
    let mut i: usize = 0;
    while i < rows
        invariant
            0 <= i <= rows,
            out@ == region_rows(damage@, i as int, force),
        decreases rows - i,
    {
        if force || damage.is_dirty(i) {
            out.push(i);
        }
        i = i + 1;
    }
    out
}

} // verus!
