//! Mouse handling decisions: what a click, drag, release or wheel turn over
//! the panes asks for, and the report a pane's program receives.

use vstd::prelude::*;
use crate::geometry::{
    BorderDrag, PanePosition, border_drag_at, detect_border_click, layout_fits, pane_at_position,
    pane_holding,
};
use crate::pane::PaneId;

verus! {

/// A mouse button.
#[derive(Debug, Clone, Copy, PartialEq, Eq, Structural)]
pub enum MouseButton {
    Left,
    Right,
    Middle,
}

/// What the mouse did.
#[derive(Debug, Clone, Copy, PartialEq, Eq, Structural)]
pub enum MouseKind {
    Down(MouseButton),
    Up(MouseButton),
    Drag(MouseButton),
    Moved,
    ScrollDown,
    ScrollUp,
    ScrollLeft,
    ScrollRight,
}

/// The button number of the xterm mouse protocol.
pub open spec fn button_number(button: MouseButton) -> u8 {
    match button {
        MouseButton::Left => 0,
        MouseButton::Middle => 1,
        MouseButton::Right => 2,
    }
}

/// The button number of the xterm mouse protocol for a button.
pub fn button_code(button: MouseButton) -> (r: u8)
    ensures
        r == button_number(button),
{
    match button {
        MouseButton::Left => 0,
        MouseButton::Middle => 1,
        MouseButton::Right => 2,
    }
}

/// The direction a border drag resizes a pane in.
#[derive(Debug, Clone, Copy, PartialEq, Eq, Structural)]
pub enum ResizeDirection {
    Right,
    Down,
}

/// A resize of a pane by `delta` cells, growing it when positive.
#[derive(Debug, Clone, Copy, PartialEq, Eq, Structural)]
pub struct PaneResize {
    pub pane_id: PaneId,
    pub direction: ResizeDirection,
    pub delta: i32,
}

/// The lines a pane's view scrolls for one wheel turn.
pub const WHEEL_SCROLL_LINES: usize = 3;

/// What a mouse event over the panes asks for.
#[derive(Debug, Clone, Copy, PartialEq, Eq, Structural)]
pub enum MousePlan {
    /// A left click on a border starts dragging it.
    StartDrag(BorderDrag),
    /// A left click elsewhere: focus `focus` (a pane other than the active
    /// one under the pointer, if any), then forward the click if the pane
    /// under the pointer tracks the mouse.
    ClickPane { focus: Option<PaneId> },
    /// A wheel turn over `pane`: forwarded if the pane tracks the mouse,
    /// else its view scrolls `lines` lines (up into history when `up`).
    Scroll { pane: PaneId, up: bool, lines: usize },
    /// Forward the event to the pane under the pointer if it tracks the mouse.
    Forward,
    /// Forward the event only if the pane under the pointer tracks every
    /// motion.
    ForwardIfAnyMotion,
    /// The border drag ends: pane sizes are brought in line with the layout.
    EndDrag,
    /// The border drag goes on: resize by `delta` cells where it is not zero,
    /// and remember the pointer position in `drag`.
    ContinueDrag { drag: BorderDrag, resize: Option<PaneResize> },
    /// Nothing to do.
    Nothing,
}

/// The plan for a mouse event at (`col`, `row`), given the panes' layout,
/// the active pane and the border drag in progress, if any.
pub open spec fn mouse_plan(
    positions: Seq<(PaneId, PanePosition)>,
    kind: MouseKind,
    col: u16,
    row: u16,
    active: Option<PaneId>,
    drag: Option<BorderDrag>,
) -> MousePlan {
    match kind {
        MouseKind::Down(MouseButton::Left) => match border_drag_at(positions, col, row) {
            Some(d) => MousePlan::StartDrag(d),
            None => MousePlan::ClickPane {
                focus: match pane_holding(positions, col as int, row as int) {
                    Some(p) => if active == Some(p) {
                        None
                    } else {
                        Some(p)
                    },
                    None => None,
                },
            },
        },
        MouseKind::ScrollUp => match pane_holding(positions, col as int, row as int) {
            Some(p) => MousePlan::Scroll { pane: p, up: true, lines: WHEEL_SCROLL_LINES },
            None => MousePlan::Nothing,
        },
        MouseKind::ScrollDown => match pane_holding(positions, col as int, row as int) {
            Some(p) => MousePlan::Scroll { pane: p, up: false, lines: WHEEL_SCROLL_LINES },
            None => MousePlan::Nothing,
        },
        MouseKind::Down(_) => MousePlan::Forward,
        MouseKind::Up(_) => match drag {
            Some(_) => MousePlan::EndDrag,
            None => MousePlan::Forward,
        },
        MouseKind::Drag(MouseButton::Left) => match drag {
            Some(d) => MousePlan::ContinueDrag {
                drag: BorderDrag { last_col: col, last_row: row, ..d },
                resize: if d.vertical {
                    if col != d.last_col {
                        Some(PaneResize { pane_id: d.pane_id, direction: ResizeDirection::Right, delta: (col - d.last_col) as i32 })
                    } else {
                        None
                    }
                } else {
                    if row != d.last_row {
                        Some(PaneResize { pane_id: d.pane_id, direction: ResizeDirection::Down, delta: (row - d.last_row) as i32 })
                    } else {
                        None
                    }
                },
            },
            None => MousePlan::Forward,
        },
        MouseKind::Drag(_) => MousePlan::Forward,
        MouseKind::Moved => match pane_holding(positions, col as int, row as int) {
            Some(_) => MousePlan::ForwardIfAnyMotion,
            None => MousePlan::Nothing,
        },
        _ => MousePlan::Nothing,
    }
}

/// Decide what a mouse event at (`col`, `row`) asks for.
pub fn plan_mouse(
    positions: &[(PaneId, PanePosition)],
    kind: MouseKind,
    col: u16,
    row: u16,
    active: Option<PaneId>,
    drag: Option<BorderDrag>,
) -> (r: MousePlan)
    requires
        layout_fits(positions@),
    ensures
        r == mouse_plan(positions@, kind, col, row, active, drag),
{
    match kind {
        MouseKind::Down(MouseButton::Left) => match detect_border_click(positions, col, row) {
            Some(d) => MousePlan::StartDrag(d),
            None => {
                let focus = match pane_at_position(positions, col, row) {
                    Some(p) => if active == Some(p) {
                        None
                    } else {
                        Some(p)
                    },
                    None => None,
                };
                MousePlan::ClickPane { focus }
            },
        },
        MouseKind::ScrollUp => match pane_at_position(positions, col, row) {
            Some(p) => MousePlan::Scroll { pane: p, up: true, lines: WHEEL_SCROLL_LINES },
            None => MousePlan::Nothing,
        },
        MouseKind::ScrollDown => match pane_at_position(positions, col, row) {
            Some(p) => MousePlan::Scroll { pane: p, up: false, lines: WHEEL_SCROLL_LINES },
            None => MousePlan::Nothing,
        },
        MouseKind::Down(_) => MousePlan::Forward,
        MouseKind::Up(_) => match drag {
            Some(_) => MousePlan::EndDrag,
            None => MousePlan::Forward,
        },
        MouseKind::Drag(MouseButton::Left) => match drag {
            Some(d) => {
                let resize = if d.vertical {
                    if col != d.last_col {
                        Some(PaneResize { pane_id: d.pane_id, direction: ResizeDirection::Right, delta: col as i32 - d.last_col as i32 })
                    } else {
                        None
                    }
                } else {
                    if row != d.last_row {
                        Some(PaneResize { pane_id: d.pane_id, direction: ResizeDirection::Down, delta: row as i32 - d.last_row as i32 })
                    } else {
                        None
                    }
                };
                MousePlan::ContinueDrag {
                    drag: BorderDrag { last_col: col, last_row: row, ..d },
                    resize,
                }
            },
            None => MousePlan::Forward,
        },
        MouseKind::Drag(_) => MousePlan::Forward,
        MouseKind::Moved => match pane_at_position(positions, col, row) {
            Some(_) => MousePlan::ForwardIfAnyMotion,
            None => MousePlan::Nothing,
        },
        _ => MousePlan::Nothing,
    }
}

/// A mouse event as reported to a pane's program, in pane coordinates.
#[derive(Debug, Clone, Copy, PartialEq, Eq, Structural)]
pub enum MouseReport {
    Press { button: u8, col: u16, row: u16 },
    Release { col: u16, row: u16 },
    Drag { button: u8, col: u16, row: u16 },
}

/// The report for a forwarded event at pane cell (`col`, `row`): presses,
/// releases and drags; a motion with no button is a drag of button 3.
/// Wheel events are reported elsewhere.
pub open spec fn report_for(kind: MouseKind, col: u16, row: u16) -> Option<MouseReport> {
    match kind {
        MouseKind::Down(b) => Some(MouseReport::Press { button: button_number(b), col, row }),
        MouseKind::Up(_) => Some(MouseReport::Release { col, row }),
        MouseKind::Drag(b) => Some(MouseReport::Drag { button: button_number(b), col, row }),
        MouseKind::Moved => Some(MouseReport::Drag { button: 3, col, row }),
        _ => None,
    }
}

/// The report a pane's program receives for a forwarded event.
pub fn mouse_report(kind: MouseKind, col: u16, row: u16) -> (r: Option<MouseReport>)
    ensures
        r == report_for(kind, col, row),
{
    match kind {
        MouseKind::Down(b) => Some(MouseReport::Press { button: button_code(b), col, row }),
        MouseKind::Up(_) => Some(MouseReport::Release { col, row }),
        MouseKind::Drag(b) => Some(MouseReport::Drag { button: button_code(b), col, row }),
        MouseKind::Moved => Some(MouseReport::Drag { button: 3, col, row }),
        _ => None,
    }
}

/// The pane cell under terminal cell (`col`, `row`) for a pane at `pos`,
/// counting from the pane's top-left cell (zero where the pointer is left
/// of or above it).
pub open spec fn local_cell(pos: PanePosition, col: u16, row: u16) -> (u16, u16) {
    (
        if col >= pos.col {
            (col - pos.col) as u16
        } else {
            0
        },
        if row >= pos.row {
            (row - pos.row) as u16
        } else {
            0
        },
    )
}

/// The pane cell under a terminal cell.
pub fn local_position(pos: &PanePosition, col: u16, row: u16) -> (r: (u16, u16))
    ensures
        r == local_cell(*pos, col, row),
{
    let c = col as usize;
    let rw = row as usize;
    let lc = if c >= pos.col { (c - pos.col) as u16 } else { 0 };
    let lr = if rw >= pos.row { (rw - pos.row) as u16 } else { 0 };
    (lc, lr)
}

} // verus!
