//! Where panes lie on the terminal: hit testing for mouse clicks, the
//! borders between neighbouring panes, and border drags.

use vstd::prelude::*;
use crate::pane::PaneId;

verus! {

/// The rectangle a pane occupies: its top-left cell and its size.
#[derive(Debug, Clone, Copy, PartialEq, Eq, Structural)]
pub struct PanePosition {
    pub col: usize,
    pub row: usize,
    pub cols: usize,
    pub rows: usize,
}

impl PanePosition {
    /// Whether the cell (`c`, `r`) lies in the rectangle.
    pub open spec fn holds(self, c: int, r: int) -> bool {
        self.col <= c < self.col + self.cols && self.row <= r < self.row + self.rows
    }

    /// Whether the rectangle's right and bottom edges are representable.
    pub open spec fn fits(self) -> bool {
        self.col + self.cols <= usize::MAX && self.row + self.rows <= usize::MAX
    }
}

/// Whether every rectangle of the layout fits.
pub open spec fn layout_fits(positions: Seq<(PaneId, PanePosition)>) -> bool {
    forall|i: int| 0 <= i < positions.len() ==> (#[trigger] positions[i]).1.fits()
}

/// The first pane, in layout order, holding the cell (`col`, `row`).
pub open spec fn pane_holding(positions: Seq<(PaneId, PanePosition)>, col: int, row: int) -> Option<PaneId>
    decreases positions.len(),
{
    if positions.len() == 0 {
        None
    } else if positions[0].1.holds(col, row) {
        Some(positions[0].0)
    } else {
        pane_holding(positions.drop_first(), col, row)
    }
}

/// Find which pane contains the given terminal coordinates.
pub fn pane_at_position(positions: &[(PaneId, PanePosition)], col: u16, row: u16) -> (r: Option<PaneId>)
    requires
        layout_fits(positions@),
    ensures
        r == pane_holding(positions@, col as int, row as int),
{
    let c = col as usize;
    let rw = row as usize;
    let mut i: usize = 0;
    proof {
        assert(positions@.skip(0) =~= positions@);
    }
    while i < positions.len()
        invariant
            0 <= i <= positions@.len(),
            layout_fits(positions@),
            c == col,
            rw == row,
            pane_holding(positions@, c as int, rw as int) == pane_holding(
                positions@.skip(i as int),
                c as int,
                rw as int,
            ),
        decreases positions@.len() - i,
    {
        let id = positions[i].0;
        let pos = positions[i].1;
        proof {
            assert(positions@[i as int].1.fits());
            assert(positions@.skip(i as int)[0] == positions@[i as int]);
            assert(positions@.skip(i as int).drop_first() =~= positions@.skip(i + 1));
        }
        if c >= pos.col && c < pos.col + pos.cols && rw >= pos.row && rw < pos.row + pos.rows {
            proof {
                assert(positions@.skip(i as int)[0].1.holds(c as int, rw as int));
            }
            return Some(id);
        }
        i = i + 1;
    }
    proof {
        assert(positions@.skip(i as int).len() == 0);
    }
    None
}

/// A border being dragged with the mouse: the pane whose right (vertical) or
/// bottom (horizontal) border it is, and where the pointer last was.
#[derive(Debug, Clone, Copy, PartialEq, Eq, Structural)]
pub struct BorderDrag {
    pub pane_id: PaneId,
    pub vertical: bool,
    pub last_col: u16,
    pub last_row: u16,
}

/// Whether some other pane than `id` starts at column `edge`.
pub open spec fn has_pane_at_col(positions: Seq<(PaneId, PanePosition)>, id: PaneId, edge: int) -> bool {
    exists|k: int| 0 <= k < positions.len() && (#[trigger] positions[k]).0 != id && positions[k].1.col == edge
}

/// Whether some other pane than `id` starts at row `edge`.
pub open spec fn has_pane_at_row(positions: Seq<(PaneId, PanePosition)>, id: PaneId, edge: int) -> bool {
    exists|k: int| 0 <= k < positions.len() && (#[trigger] positions[k]).0 != id && positions[k].1.row == edge
}

/// Whether the cell is on the last column of pane `i` with another pane
/// starting right after it.
pub open spec fn on_right_border(positions: Seq<(PaneId, PanePosition)>, i: int, c: int, r: int) -> bool {
    let (id, pos) = positions[i];
    let right = pos.col + pos.cols;
    right > 0 && c == right - 1 && pos.row <= r < pos.row + pos.rows && has_pane_at_col(
        positions,
        id,
        right,
    )
}

/// Whether the cell is on the last row of pane `i` with another pane
/// starting right below it.
pub open spec fn on_bottom_border(positions: Seq<(PaneId, PanePosition)>, i: int, c: int, r: int) -> bool {
    let (id, pos) = positions[i];
    let bottom = pos.row + pos.rows;
    bottom > 0 && r == bottom - 1 && pos.col <= c < pos.col + pos.cols && has_pane_at_row(
        positions,
        id,
        bottom,
    )
}

/// The first pane from index `i` on whose border the cell lies, with
/// whether that border is its right (vertical) one; the right border is
/// tried before the bottom one.
pub open spec fn border_from(positions: Seq<(PaneId, PanePosition)>, i: int, c: int, r: int) -> Option<(int, bool)>
    decreases positions.len() - i,
{
    if i < 0 || i >= positions.len() {
        None
    } else if on_right_border(positions, i, c, r) {
        Some((i, true))
    } else if on_bottom_border(positions, i, c, r) {
        Some((i, false))
    } else {
        border_from(positions, i + 1, c, r)
    }
}

/// The drag that a click at (`col`, `row`) starts, if it lands on a border.
pub open spec fn border_drag_at(positions: Seq<(PaneId, PanePosition)>, col: u16, row: u16) -> Option<BorderDrag> {
    match border_from(positions, 0, col as int, row as int) {
        Some((i, vertical)) => Some(
            BorderDrag { pane_id: positions[i].0, vertical, last_col: col, last_row: row },
        ),
        None => None,
    }
}

/// Whether a pane other than `id` starts at column `edge` (or at row
/// `edge` when `by_row`).
fn neighbour_at(positions: &[(PaneId, PanePosition)], id: PaneId, edge: usize, by_row: bool) -> (r: bool)
    ensures
        by_row ==> r == has_pane_at_row(positions@, id, edge as int),
        !by_row ==> r == has_pane_at_col(positions@, id, edge as int),
{
    let mut k: usize = 0;
    while k < positions.len()
        invariant
            0 <= k <= positions@.len(),
            by_row ==> forall|j: int|
                0 <= j < k ==> !((#[trigger] positions@[j]).0 != id && positions@[j].1.row == edge),
            !by_row ==> forall|j: int|
                0 <= j < k ==> !((#[trigger] positions@[j]).0 != id && positions@[j].1.col == edge),
        decreases positions@.len() - k,
    {
        let nid = positions[k].0;
        let np = positions[k].1;
        let start = if by_row { np.row } else { np.col };
        if nid != id && start == edge {
            proof {
                assert(positions@[k as int].0 != id);
            }
            return true;
        }
        k = k + 1;
    }
    false
}

/// Detect whether a mouse click is on a pane border, and the drag it starts.
pub fn detect_border_click(positions: &[(PaneId, PanePosition)], col: u16, row: u16) -> (r: Option<BorderDrag>)
    requires
        layout_fits(positions@),
    ensures
        r == border_drag_at(positions@, col, row),
{
    let c = col as usize;
    let rw = row as usize;
    let mut i: usize = 0;
    while i < positions.len()
        invariant
            0 <= i <= positions@.len(),
            layout_fits(positions@),
            c == col,
            rw == row,
            border_from(positions@, 0, c as int, rw as int) == border_from(
                positions@,
                i as int,
                c as int,
                rw as int,
            ),
        decreases positions@.len() - i,
    {
        let id = positions[i].0;
        let pos = positions[i].1;
        proof {
            assert(positions@[i as int].1.fits());
        }
        let right_edge = pos.col + pos.cols;
        if right_edge > 0 && c == right_edge - 1 && rw >= pos.row && rw < pos.row + pos.rows {
            if neighbour_at(positions, id, right_edge, false) {
                proof {
                    assert(on_right_border(positions@, i as int, c as int, rw as int));
                }
                return Some(BorderDrag { pane_id: id, vertical: true, last_col: col, last_row: row });
            }
        }
        let bottom_edge = pos.row + pos.rows;
        if bottom_edge > 0 && rw == bottom_edge - 1 && c >= pos.col && c < pos.col + pos.cols {
            if neighbour_at(positions, id, bottom_edge, true) {
                proof {
                    assert(on_bottom_border(positions@, i as int, c as int, rw as int));
                }
                return Some(BorderDrag { pane_id: id, vertical: false, last_col: col, last_row: row });
            }
        }
        i = i + 1;
    }
    None
}


/// A border to draw between two panes: `len` cells starting at (`col`,
/// `row`), going down when `vertical` and right otherwise; `active` when it
/// touches the active pane.
#[derive(Debug, Clone, Copy, PartialEq, Eq, Structural)]
pub struct BorderLine {
    pub vertical: bool,
    pub col: usize,
    pub row: usize,
    pub len: usize,
    pub active: bool,
}

/// The far edge of pane `a`: its right edge for vertical borders, its
/// bottom edge otherwise.
pub open spec fn far_edge(p: PanePosition, vertical: bool) -> int {
    if vertical {
        p.col + p.cols
    } else {
        p.row + p.rows
    }
}

/// Whether pane `b` starts where pane `a` ends, so that a border runs
/// between them.
pub open spec fn borders(ps: Seq<(PaneId, PanePosition)>, a: int, b: int, vertical: bool) -> bool {
    ps[a].0 != ps[b].0 && (if vertical {
        ps[b].1.col == far_edge(ps[a].1, true)
    } else {
        ps[b].1.row == far_edge(ps[a].1, false)
    })
}

/// Whether pane `a`'s far edge lies inside the pane area, so that a border
/// can follow it.
pub open spec fn edge_inside(ps: Seq<(PaneId, PanePosition)>, a: int, vertical: bool, total_cols: usize, area_rows: usize) -> bool {
    if vertical {
        far_edge(ps[a].1, true) < total_cols
    } else {
        far_edge(ps[a].1, false) < area_rows
    }
}

pub open spec fn max_int(x: int, y: int) -> int {
    if x >= y {
        x
    } else {
        y
    }
}

pub open spec fn min_int(x: int, y: int) -> int {
    if x <= y {
        x
    } else {
        y
    }
}

/// The border between panes `a` and `b`: on the last column (or row) of
/// `a`, over the rows (or columns) the two share, within the pane area.
pub open spec fn border_line(
    ps: Seq<(PaneId, PanePosition)>,
    a: int,
    b: int,
    vertical: bool,
    total_cols: usize,
    area_rows: usize,
    active: Option<PaneId>,
) -> BorderLine {
    let pa = ps[a].1;
    let pb = ps[b].1;
    let touches_active = active == Some(ps[a].0) || active == Some(ps[b].0);
    if vertical {
        let start = max_int(pa.row as int, pb.row as int);
        let end = min_int(min_int(pa.row + pa.rows, pb.row + pb.rows), area_rows as int);
        BorderLine {
            vertical: true,
            col: if far_edge(pa, true) > 0 { (far_edge(pa, true) - 1) as usize } else { 0 },
            row: start as usize,
            len: if end > start { (end - start) as usize } else { 0 },
            active: touches_active,
        }
    } else {
        let start = max_int(pa.col as int, pb.col as int);
        let end = min_int(min_int(pa.col + pa.cols, pb.col + pb.cols), total_cols as int);
        BorderLine {
            vertical: false,
            col: start as usize,
            row: if far_edge(pa, false) > 0 { (far_edge(pa, false) - 1) as usize } else { 0 },
            len: (end - start) as usize,
            active: touches_active,
        }
    }
}

/// The borders of pane `a` with panes `0..upto`, in order.
pub open spec fn borders_of(
    ps: Seq<(PaneId, PanePosition)>,
    a: int,
    upto: int,
    vertical: bool,
    total_cols: usize,
    area_rows: usize,
    active: Option<PaneId>,
) -> Seq<BorderLine>
    decreases upto,
{
    if upto <= 0 {
        Seq::empty()
    } else {
        let before = borders_of(ps, a, upto - 1, vertical, total_cols, area_rows, active);
        if borders(ps, a, upto - 1, vertical) {
            before.push(border_line(ps, a, upto - 1, vertical, total_cols, area_rows, active))
        } else {
            before
        }
    }
}

/// The borders of panes `0..upto` with every pane, in order.
pub open spec fn borders_upto(
    ps: Seq<(PaneId, PanePosition)>,
    upto: int,
    vertical: bool,
    total_cols: usize,
    area_rows: usize,
    active: Option<PaneId>,
) -> Seq<BorderLine>
    decreases upto,
{
    if upto <= 0 {
        Seq::empty()
    } else {
        let before = borders_upto(ps, upto - 1, vertical, total_cols, area_rows, active);
        if edge_inside(ps, upto - 1, vertical, total_cols, area_rows) {
            before + borders_of(ps, upto - 1, ps.len() as int, vertical, total_cols, area_rows, active)
        } else {
            before
        }
    }
}

/// All borders between panes: the vertical ones, then the horizontal ones.
pub open spec fn border_lines(
    ps: Seq<(PaneId, PanePosition)>,
    total_cols: usize,
    area_rows: usize,
    active: Option<PaneId>,
) -> Seq<BorderLine> {
    borders_upto(ps, ps.len() as int, true, total_cols, area_rows, active) + borders_upto(
        ps,
        ps.len() as int,
        false,
        total_cols,
        area_rows,
        active,
    )
}

/// Whether panes stacked one on another share columns: a horizontal border
/// between them never has negative length.
pub open spec fn stacked_panes_overlap(ps: Seq<(PaneId, PanePosition)>, total_cols: usize, area_rows: usize) -> bool {
    forall|a: int, b: int|
        0 <= a < ps.len() && 0 <= b < ps.len() && edge_inside(ps, a, false, total_cols, area_rows)
            && #[trigger] borders(ps, a, b, false) ==> max_int(ps[a].1.col as int, ps[b].1.col as int)
            <= min_int(
            min_int(ps[a].1.col + ps[a].1.cols, ps[b].1.col + ps[b].1.cols),
            total_cols as int,
        )
}

fn max_usize(x: usize, y: usize) -> (r: usize)
    ensures
        r == max_int(x as int, y as int),
{
    if x >= y {
        x
    } else {
        y
    }
}

fn min_usize(x: usize, y: usize) -> (r: usize)
    ensures
        r == min_int(x as int, y as int),
{
    if x <= y {
        x
    } else {
        y
    }
}

/// The borders of pane `a` with every pane.
fn borders_of_pane(
    ps: &[(PaneId, PanePosition)],
    a: usize,
    vertical: bool,
    total_cols: usize,
    area_rows: usize,
    active: Option<PaneId>,
    out: &mut Vec<BorderLine>,
)
    requires
        a < ps@.len(),
        layout_fits(ps@),
        !vertical ==> edge_inside(ps@, a as int, false, total_cols, area_rows),
        stacked_panes_overlap(ps@, total_cols, area_rows),
    ensures
        final(out)@ == old(out)@ + borders_of(
            ps@,
            a as int,
            ps@.len() as int,
            vertical,
            total_cols,
            area_rows,
            active,
        ),
{
    let id_a = ps[a].0;
    let pa = ps[a].1;
    proof {
        assert(ps@[a as int].1.fits());
    }
    let mut b: usize = 0;
    while b < ps.len()
        invariant
            0 <= b <= ps@.len(),
            a < ps@.len(),
            id_a == ps@[a as int].0,
            pa == ps@[a as int].1,
            layout_fits(ps@),
            !vertical ==> edge_inside(ps@, a as int, false, total_cols, area_rows),
            stacked_panes_overlap(ps@, total_cols, area_rows),
            out@ == old(out)@ + borders_of(
                ps@,
                a as int,
                b as int,
                vertical,
                total_cols,
                area_rows,
                active,
            ),
        decreases ps@.len() - b,
    {
        let id_b = ps[b].0;
        let pb = ps[b].1;
        proof {
            assert(ps@[b as int].1.fits());
        }
        let touches_active = active == Some(id_a) || active == Some(id_b);
        if vertical {
            let right_edge = pa.col + pa.cols;
            if id_a != id_b && pb.col == right_edge {
                let start = max_usize(pa.row, pb.row);
                let end = min_usize(min_usize(pa.row + pa.rows, pb.row + pb.rows), area_rows);
                let len = if end > start { end - start } else { 0 };
                let col = if right_edge > 0 { right_edge - 1 } else { 0 };
                out.push(BorderLine { vertical: true, col, row: start, len, active: touches_active });
            }
        } else {
            let bottom_edge = pa.row + pa.rows;
            if id_a != id_b && pb.row == bottom_edge {
                let start = max_usize(pa.col, pb.col);
                let end = min_usize(min_usize(pa.col + pa.cols, pb.col + pb.cols), total_cols);
                proof {
                    assert(borders(ps@, a as int, b as int, false));
                }
                let row = if bottom_edge > 0 { bottom_edge - 1 } else { 0 };
                out.push(BorderLine { vertical: false, col: start, row, len: end - start, active: touches_active });
            }
        }
        proof {
            assert(ps@[a as int] == (id_a, pa));
            assert(ps@[b as int] == (id_b, pb));
        }
        b = b + 1;
    }
}

/// Whether every rectangle's right and bottom edges are representable.
pub fn layout_fits_check(positions: &[(PaneId, PanePosition)]) -> (r: bool)
    ensures
        r == layout_fits(positions@),
{
    let mut i: usize = 0;
    while i < positions.len()
        invariant
            0 <= i <= positions@.len(),
            forall|j: int| 0 <= j < i ==> (#[trigger] positions@[j]).1.fits(),
        decreases positions@.len() - i,
    {
        let p = positions[i].1;
        if p.col > usize::MAX - p.cols || p.row > usize::MAX - p.rows {
            proof {
                assert(!positions@[i as int].1.fits());
            }
            return false;
        }
        i = i + 1;
    }
    true
}

/// Whether every horizontal border between stacked panes has a length
/// that is not negative.
pub fn stacked_panes_overlap_check(
    positions: &[(PaneId, PanePosition)],
    total_cols: usize,
    area_rows: usize,
) -> (r: bool)
    requires
        layout_fits(positions@),
    ensures
        r == stacked_panes_overlap(positions@, total_cols, area_rows),
{
    let n = positions.len();
    let mut a: usize = 0;
    while a < n
        invariant
            0 <= a <= n,
            n == positions@.len(),
            layout_fits(positions@),
            forall|x: int, y: int|
                0 <= x < a && 0 <= y < n && edge_inside(positions@, x, false, total_cols, area_rows)
                    && #[trigger] borders(positions@, x, y, false) ==> max_int(
                    positions@[x].1.col as int,
                    positions@[y].1.col as int,
                ) <= min_int(
                    min_int(
                        positions@[x].1.col + positions@[x].1.cols,
                        positions@[y].1.col + positions@[y].1.cols,
                    ),
                    total_cols as int,
                ),
        decreases n - a,
    {
        let pa = positions[a].1;
        let id_a = positions[a].0;
        proof {
            assert(positions@[a as int].1.fits());
        }
        let bottom = pa.row + pa.rows;
        let mut b: usize = 0;
        while b < n
            invariant
                0 <= b <= n,
                a < n,
                n == positions@.len(),
                layout_fits(positions@),
                pa == positions@[a as int].1,
                id_a == positions@[a as int].0,
                bottom == pa.row + pa.rows,
                forall|x: int, y: int|
                    0 <= x < a && 0 <= y < n && edge_inside(positions@, x, false, total_cols, area_rows)
                        && #[trigger] borders(positions@, x, y, false) ==> max_int(
                        positions@[x].1.col as int,
                        positions@[y].1.col as int,
                    ) <= min_int(
                        min_int(
                            positions@[x].1.col + positions@[x].1.cols,
                            positions@[y].1.col + positions@[y].1.cols,
                        ),
                        total_cols as int,
                    ),
                forall|y: int|
                    0 <= y < b && edge_inside(positions@, a as int, false, total_cols, area_rows)
                        && #[trigger] borders(positions@, a as int, y, false) ==> max_int(
                        positions@[a as int].1.col as int,
                        positions@[y].1.col as int,
                    ) <= min_int(
                        min_int(
                            positions@[a as int].1.col + positions@[a as int].1.cols,
                            positions@[y].1.col + positions@[y].1.cols,
                        ),
                        total_cols as int,
                    ),
            decreases n - b,
        {
            let pb = positions[b].1;
            let id_b = positions[b].0;
            proof {
                assert(positions@[b as int].1.fits());
            }
            if bottom < area_rows && id_a != id_b && pb.row == bottom {
                let start = if pa.col >= pb.col { pa.col } else { pb.col };
                let e1 = if pa.col + pa.cols <= pb.col + pb.cols { pa.col + pa.cols } else { pb.col + pb.cols };
                let end = if e1 <= total_cols { e1 } else { total_cols };
                if start > end {
                    proof {
                        assert(borders(positions@, a as int, b as int, false));
                    }
                    return false;
                }
            }
            b = b + 1;
        }
        a = a + 1;
    }
    true
}

/// The borders to draw between panes: for every pane whose right edge lies
/// inside the terminal, a vertical border with each pane starting there;
/// then, for every pane whose bottom edge lies inside the pane area, a
/// horizontal border with each pane starting there.
pub fn border_segments(
    positions: &[(PaneId, PanePosition)],
    active: Option<PaneId>,
    total_cols: usize,
    area_rows: usize,
) -> (r: Vec<BorderLine>)
    requires
        layout_fits(positions@),
        stacked_panes_overlap(positions@, total_cols, area_rows),
    ensures
        r@ == border_lines(positions@, total_cols, area_rows, active),
{
    let mut out: Vec<BorderLine> = Vec::new();
    let mut pass: usize = 0;
    while pass < 2
        invariant
            0 <= pass <= 2,
            layout_fits(positions@),
            stacked_panes_overlap(positions@, total_cols, area_rows),
            pass == 0 ==> out@ == Seq::<BorderLine>::empty(),
            pass == 1 ==> out@ == borders_upto(
                positions@,
                positions@.len() as int,
                true,
                total_cols,
                area_rows,
                active,
            ),
            pass == 2 ==> out@ == border_lines(positions@, total_cols, area_rows, active),
        decreases 2 - pass,
    {
        let vertical = pass == 0;
        let ghost start = out@;
        let mut a: usize = 0;
        while a < positions.len()
            invariant
                0 <= a <= positions@.len(),
                layout_fits(positions@),
                stacked_panes_overlap(positions@, total_cols, area_rows),
                out@ == start + borders_upto(
                    positions@,
                    a as int,
                    vertical,
                    total_cols,
                    area_rows,
                    active,
                ),
            decreases positions@.len() - a,
        {
            let pa = positions[a].1;
            proof {
                assert(positions@[a as int].1.fits());
            }
            let inside = if vertical {
                pa.col + pa.cols < total_cols
            } else {
                pa.row + pa.rows < area_rows
            };
            if inside {
                borders_of_pane(positions, a, vertical, total_cols, area_rows, active, &mut out);
            }
            a = a + 1;
        }
        pass = pass + 1;
    }
    out
}


/// The pane a cell is found in holds that cell, and no pane before it in
/// the layout does.
pub proof fn law_pane_holding_is_first_holder(positions: Seq<(PaneId, PanePosition)>, col: int, row: int)
    ensures
        match pane_holding(positions, col, row) {
            Some(id) => exists|i: int|
                0 <= i < positions.len() && (#[trigger] positions[i]).0 == id && positions[i].1.holds(col, row)
                    && forall|j: int| 0 <= j < i ==> !(#[trigger] positions[j]).1.holds(col, row),
            None => forall|i: int| 0 <= i < positions.len() ==> !(#[trigger] positions[i]).1.holds(col, row),
        },
    decreases positions.len(),
{
    if positions.len() > 0 {
        let rest = positions.drop_first();
        law_pane_holding_is_first_holder(rest, col, row);
        if positions[0].1.holds(col, row) {
            assert(positions[0].0 == positions[0].0);
        } else {
            match pane_holding(rest, col, row) {
                Some(id) => {
                    let i = choose|i: int|
                        0 <= i < rest.len() && (#[trigger] rest[i]).0 == id && rest[i].1.holds(col, row)
                            && forall|j: int| 0 <= j < i ==> !(#[trigger] rest[j]).1.holds(col, row);
                    assert(positions[i + 1] == rest[i]);
                    assert forall|j: int| 0 <= j < i + 1 implies !(#[trigger] positions[j]).1.holds(col, row) by {
                        if j > 0 {
                            assert(positions[j] == rest[j - 1]);
                        }
                    }
                },
                None => {
                    assert forall|i: int| 0 <= i < positions.len() implies !(#[trigger] positions[i]).1.holds(col, row) by {
                        if i > 0 {
                            assert(positions[i] == rest[i - 1]);
                        }
                    }
                },
            }
        }
    }
}

} // verus!
