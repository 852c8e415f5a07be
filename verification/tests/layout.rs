//! Pane hit testing, borders and mouse decisions.

use emux::geometry::{border_segments, detect_border_click, pane_at_position, BorderDrag, BorderLine, PanePosition};
use emux::mouse::{
    button_code, local_position, mouse_report, plan_mouse, MouseButton, MouseKind, MousePlan,
    MouseReport, PaneResize, ResizeDirection,
};

fn pos(col: usize, row: usize, cols: usize, rows: usize) -> PanePosition {
    PanePosition { col, row, cols, rows }
}

/// Two panes side by side, the right one split top and bottom.
fn layout() -> Vec<(u32, PanePosition)> {
    vec![(0, pos(0, 0, 40, 23)), (1, pos(40, 0, 40, 11)), (2, pos(40, 11, 40, 12))]
}

#[test]
fn pane_at_position_finds_the_pane_under_a_cell() {
    let ps = layout();
    assert_eq!(pane_at_position(&ps, 0, 0), Some(0));
    assert_eq!(pane_at_position(&ps, 39, 22), Some(0));
    assert_eq!(pane_at_position(&ps, 40, 0), Some(1));
    assert_eq!(pane_at_position(&ps, 79, 11), Some(2));
    assert_eq!(pane_at_position(&ps, 80, 0), None);
    assert_eq!(pane_at_position(&ps, 10, 23), None);
    assert_eq!(pane_at_position(&[], 0, 0), None);
}

#[test]
fn detect_border_click_on_right_and_bottom_borders() {
    let ps = layout();
    assert_eq!(
        detect_border_click(&ps, 39, 5),
        Some(BorderDrag { pane_id: 0, vertical: true, last_col: 39, last_row: 5 })
    );
    assert_eq!(
        detect_border_click(&ps, 50, 10),
        Some(BorderDrag { pane_id: 1, vertical: false, last_col: 50, last_row: 10 })
    );
    // The last column of the right panes has no neighbour.
    assert_eq!(detect_border_click(&ps, 79, 5), None);
    // The bottom of the left pane has nothing below it.
    assert_eq!(detect_border_click(&ps, 5, 22), None);
    assert_eq!(detect_border_click(&ps, 20, 5), None);
}

#[test]
fn border_segments_between_neighbours() {
    let ps = layout();
    let lines = border_segments(&ps, Some(2), 80, 23);
    assert_eq!(
        lines,
        vec![
            BorderLine { vertical: true, col: 39, row: 0, len: 11, active: false },
            BorderLine { vertical: true, col: 39, row: 11, len: 12, active: true },
            BorderLine { vertical: false, col: 40, row: 10, len: 40, active: true },
        ]
    );
    assert!(border_segments(&[(0, pos(0, 0, 80, 23))], Some(0), 80, 23).is_empty());
}

#[test]
fn mouse_plans() {
    let ps = layout();
    let down = MouseKind::Down(MouseButton::Left);
    assert_eq!(
        plan_mouse(&ps, down, 39, 3, Some(0), None),
        MousePlan::StartDrag(BorderDrag { pane_id: 0, vertical: true, last_col: 39, last_row: 3 })
    );
    assert_eq!(plan_mouse(&ps, down, 50, 3, Some(0), None), MousePlan::ClickPane { focus: Some(1) });
    assert_eq!(plan_mouse(&ps, down, 5, 3, Some(0), None), MousePlan::ClickPane { focus: None });
    assert_eq!(plan_mouse(&ps, MouseKind::ScrollUp, 50, 15, None, None), MousePlan::Scroll { pane: 2, up: true, lines: 3 });
    assert_eq!(plan_mouse(&ps, MouseKind::ScrollDown, 90, 15, None, None), MousePlan::Nothing);
    let drag = BorderDrag { pane_id: 0, vertical: true, last_col: 39, last_row: 3 };
    assert_eq!(
        plan_mouse(&ps, MouseKind::Drag(MouseButton::Left), 35, 4, None, Some(drag)),
        MousePlan::ContinueDrag {
            drag: BorderDrag { pane_id: 0, vertical: true, last_col: 35, last_row: 4 },
            resize: Some(PaneResize { pane_id: 0, direction: ResizeDirection::Right, delta: -4 }),
        }
    );
    assert_eq!(
        plan_mouse(&ps, MouseKind::Drag(MouseButton::Left), 39, 9, None, Some(drag)),
        MousePlan::ContinueDrag {
            drag: BorderDrag { pane_id: 0, vertical: true, last_col: 39, last_row: 9 },
            resize: None,
        }
    );
    assert_eq!(plan_mouse(&ps, MouseKind::Up(MouseButton::Left), 1, 1, None, Some(drag)), MousePlan::EndDrag);
    assert_eq!(plan_mouse(&ps, MouseKind::Up(MouseButton::Left), 1, 1, None, None), MousePlan::Forward);
    assert_eq!(plan_mouse(&ps, MouseKind::Down(MouseButton::Right), 1, 1, None, None), MousePlan::Forward);
    assert_eq!(plan_mouse(&ps, MouseKind::Moved, 1, 1, None, None), MousePlan::ForwardIfAnyMotion);
    assert_eq!(plan_mouse(&ps, MouseKind::ScrollLeft, 1, 1, None, None), MousePlan::Nothing);
}

#[test]
fn mouse_reports_in_pane_cells() {
    assert_eq!(button_code(MouseButton::Left), 0);
    assert_eq!(button_code(MouseButton::Middle), 1);
    assert_eq!(button_code(MouseButton::Right), 2);
    assert_eq!(local_position(&pos(40, 11, 40, 12), 45, 13), (5, 2));
    assert_eq!(local_position(&pos(40, 11, 40, 12), 3, 2), (0, 0));
    assert_eq!(
        mouse_report(MouseKind::Down(MouseButton::Right), 5, 2),
        Some(MouseReport::Press { button: 2, col: 5, row: 2 })
    );
    assert_eq!(mouse_report(MouseKind::Up(MouseButton::Left), 5, 2), Some(MouseReport::Release { col: 5, row: 2 }));
    assert_eq!(mouse_report(MouseKind::Moved, 1, 1), Some(MouseReport::Drag { button: 3, col: 1, row: 1 }));
    assert_eq!(mouse_report(MouseKind::ScrollUp, 1, 1), None);
}
