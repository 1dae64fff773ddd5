use fractalium::edit_state::{delete_selected_line, plan_edit_press, DrawState, EditPress, LineEnd};
use fractalium::placement_rules::{
    paste_replica, plan_drag_start, pointer_buttons, remove_replica_at, replica_to_delete,
    topmost_hit, track_drag_touch, DragStart,
};

#[test]
fn topmost_hit_prefers_last_drawn() {
    assert_eq!(topmost_hit(&[true, false, true, false]), Some(2));
    assert_eq!(topmost_hit(&[false, false]), None);
    assert_eq!(topmost_hit(&[]), None);
}

#[test]
fn drag_start_priorities() {
    // the selected replica wins when its own frame is hit
    assert_eq!(plan_drag_start(Some(0), &[true, true]), DragStart::Grab(0));
    // otherwise the topmost other hit
    assert_eq!(plan_drag_start(Some(1), &[true, false, false]), DragStart::Grab(0));
    assert_eq!(plan_drag_start(None, &[true, true, false]), DragStart::Grab(1));
    // nothing hit: rotate around the selection, or nothing
    assert_eq!(plan_drag_start(Some(1), &[false, false]), DragStart::RotateAround(1));
    assert_eq!(plan_drag_start(Some(5), &[false, false]), DragStart::Nothing);
    assert_eq!(plan_drag_start(None, &[false]), DragStart::Nothing);
}

#[test]
fn removal_keeps_selection_on_same_replica() {
    let mut v = vec!['a', 'b', 'c', 'd'];
    let sel = remove_replica_at(&mut v, Some(2), 0);
    assert_eq!(v, vec!['b', 'c', 'd']);
    assert_eq!(sel, Some(1));
    assert_eq!(v[1], 'c');
    let sel = remove_replica_at(&mut v, sel, 1);
    assert_eq!(sel, None);
    let sel = remove_replica_at(&mut v, Some(0), 1);
    assert_eq!(sel, Some(0));
    assert_eq!(v, vec!['b']);
    assert_eq!(remove_replica_at(&mut v, None, 0), None);
    assert!(v.is_empty());
}

#[test]
fn delete_key_and_paste() {
    assert_eq!(replica_to_delete(Some(1), 3), Some(1));
    assert_eq!(replica_to_delete(Some(3), 3), None);
    assert_eq!(replica_to_delete(None, 3), None);
    let mut v = vec![1, 2];
    let i = paste_replica(&mut v, 9);
    assert_eq!(i, 2);
    assert_eq!(v[i], 9);
}

#[test]
fn draw_state_selection_and_release() {
    let moving: DrawState<(i32, i32)> = DrawState::MovingLine {
        idx: 2,
        cursor_start: (0, 0),
        line_a_start: (1, 1),
        line_b_start: (2, 2),
    };
    assert_eq!(moving.selected_index(), Some(2));
    assert!(moving.refers_past(2));
    assert!(!moving.refers_past(3));
    assert!(matches!(moving.after_release(), DrawState::Selected(2)));
    let endpoint: DrawState<(i32, i32)> = DrawState::MovingEndpoint {
        idx: 0,
        end: LineEnd::B,
        fixed: (0, 0),
        last_cursor: (1, 0),
    };
    assert!(matches!(endpoint.after_release(), DrawState::Selected(0)));
    let drawing: DrawState<(i32, i32)> = DrawState::DrawingLine { start: (0, 0), last_cursor: (3, 4) };
    assert_eq!(drawing.selected_index(), None);
    assert!(!drawing.refers_past(0));
    assert!(matches!(drawing.after_release(), DrawState::Idle));
    let idle: DrawState<(i32, i32)> = DrawState::Idle;
    assert!(matches!(idle.after_release(), DrawState::Idle));
}

#[test]
fn delete_selected_line_removes_only_a_plain_selection() {
    let mut lines = vec![10, 20, 30];
    let mut st: DrawState<(i32, i32)> = DrawState::Selected(1);
    assert!(delete_selected_line(&mut st, &mut lines));
    assert_eq!(lines, vec![10, 30]);
    assert!(matches!(st, DrawState::Idle));
    let mut st2: DrawState<(i32, i32)> = DrawState::Selected(5);
    assert!(!delete_selected_line(&mut st2, &mut lines));
    assert_eq!(lines, vec![10, 30]);
    let mut st3: DrawState<(i32, i32)> = DrawState::MovingLine {
        idx: 0,
        cursor_start: (0, 0),
        line_a_start: (0, 0),
        line_b_start: (0, 0),
    };
    assert!(!delete_selected_line(&mut st3, &mut lines));
    assert_eq!(lines.len(), 2);
}

#[test]
fn touch_tracking() {
    // a second finger cancels the touch drag
    assert_eq!(track_drag_touch(Some(4), 2, false, None), (None, true));
    // a double-tap zoom cancels it too, and with no touch driving nothing is cancelled
    assert_eq!(track_drag_touch(Some(4), 1, true, Some(9)), (None, true));
    assert_eq!(track_drag_touch(None, 1, true, Some(9)), (None, false));
    // the first new touch takes over, an existing one stays
    assert_eq!(track_drag_touch(None, 1, false, Some(9)), (Some(9), false));
    assert_eq!(track_drag_touch(Some(4), 1, false, Some(9)), (Some(4), false));
    assert_eq!(track_drag_touch(None, 0, false, None), (None, false));
}

#[test]
fn pointer_prefers_touch() {
    assert_eq!(pointer_buttons((false, true, false), (true, false, false)), (false, true, false));
    assert_eq!(pointer_buttons((false, false, false), (true, false, true)), (true, false, true));
}

#[test]
fn edit_press_priorities() {
    let selected: DrawState<(i32, i32)> = DrawState::Selected(1);
    // endpoints of the selected segment come first, A before B
    assert_eq!(
        plan_edit_press(&selected, 3, true, true, Some(0)),
        EditPress::MoveEndpoint { idx: 1, end: LineEnd::A }
    );
    assert_eq!(
        plan_edit_press(&selected, 3, false, true, Some(0)),
        EditPress::MoveEndpoint { idx: 1, end: LineEnd::B }
    );
    // then the segment under the cursor, then a new segment
    assert_eq!(plan_edit_press(&selected, 3, false, false, Some(0)), EditPress::MoveLine(0));
    assert_eq!(plan_edit_press(&selected, 3, false, false, None), EditPress::DrawNew);
    // a selection past the segments has no endpoints to grab
    assert_eq!(plan_edit_press(&selected, 1, true, true, None), EditPress::DrawNew);
    let idle: DrawState<(i32, i32)> = DrawState::Idle;
    assert_eq!(plan_edit_press(&idle, 3, true, false, Some(2)), EditPress::MoveLine(2));
}
