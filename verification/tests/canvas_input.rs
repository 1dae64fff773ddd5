use fractalium::edit_input::{
    edit_frame, edit_frame_step, edit_frame_update, edit_press_step, edit_press_update, EditEffect,
    EditFrame, EditPressFrame,
};
use fractalium::fractal_state::{BaseShape, FractalState};
use fractalium::undo::UndoStack;
use fractalium::edit_state::{DrawState, LineEnd};
use fractalium::placement_input::{
    placement_drag_step, placement_drag_update, placement_frame, placement_keys_step,
    placement_keys_update, placement_press_step, placement_press_update, PlacementDragFrame,
    PlacementEffect, PlacementKeys, PlacementPressFrame,
};
use fractalium::placement_rules::{PlacementDrag, PlacementState};

type Pt = (i32, i32);

type Seg = (Pt, Pt);

fn quiet() -> EditFrame<Pt, Seg> {
    EditFrame {
        escape: false,
        delete_key: false,
        egui_wants_keyboard: false,
        pressed: false,
        just_released: false,
        cursor: None,
        held_line: None,
        drawn_line: None,
    }
}

#[test]
fn edit_resets_escapes_and_deletes() {
    let mut s: DrawState<Pt> = DrawState::Selected(5);
    assert_eq!(edit_frame_step(&mut s, 3, &quiet()), (vec![], true));
    assert!(matches!(s, DrawState::Idle));

    let mut s: DrawState<Pt> = DrawState::Selected(1);
    let esc = EditFrame { escape: true, ..quiet() };
    assert_eq!(edit_frame_step(&mut s, 3, &esc), (vec![], true));
    assert!(matches!(s, DrawState::Idle));

    let mut s: DrawState<Pt> = DrawState::Selected(1);
    let del = EditFrame { delete_key: true, ..quiet() };
    assert_eq!(edit_frame_step(&mut s, 3, &del), (vec![EditEffect::RecordUndo, EditEffect::RemoveLine(1)], true));
    assert!(matches!(s, DrawState::Idle));

    // a focused text field keeps the key
    let mut s: DrawState<Pt> = DrawState::Selected(1);
    let del_ui = EditFrame { delete_key: true, egui_wants_keyboard: true, ..quiet() };
    assert_eq!(edit_frame_step(&mut s, 3, &del_ui), (vec![], false));
    assert!(matches!(s, DrawState::Selected(1)));
}

#[test]
fn edit_holds_and_releases() {
    let mut s: DrawState<Pt> = DrawState::MovingEndpoint { idx: 0, end: LineEnd::B, fixed: (0, 0), last_cursor: (1, 1) };
    let hold = EditFrame { pressed: true, cursor: Some((4, 5)), held_line: Some(((0, 0), (4, 5))), ..quiet() };
    let (e, done) = edit_frame_step(&mut s, 2, &hold);
    assert!(!done);
    assert_eq!(e, vec![EditEffect::SetLine(0, ((0, 0), (4, 5)))]);
    assert!(matches!(s, DrawState::MovingEndpoint { last_cursor: (4, 5), .. }));
    let release = EditFrame { just_released: true, ..quiet() };
    assert_eq!(edit_frame_step(&mut s, 2, &release), (vec![], false));
    assert!(matches!(s, DrawState::Selected(0)));

    // a drawn segment is kept when long enough
    let mut s: DrawState<Pt> = DrawState::DrawingLine { start: (0, 0), last_cursor: (3, 0) };
    let keep = EditFrame { just_released: true, cursor: Some((9, 9)), drawn_line: Some(((0, 0), (9, 9))), ..quiet() };
    assert_eq!(
        edit_frame_step(&mut s, 0, &keep).0,
        vec![EditEffect::RecordUndo, EditEffect::AddLine(((0, 0), (9, 9)))]
    );
    assert!(matches!(s, DrawState::Idle));
    let mut s: DrawState<Pt> = DrawState::DrawingLine { start: (0, 0), last_cursor: (3, 0) };
    let short = EditFrame { just_released: true, ..quiet() };
    assert_eq!(edit_frame_step(&mut s, 0, &short), (vec![], false));
    assert!(matches!(s, DrawState::Idle));
}

type World = FractalState<Seg, char>;

fn world(lines: Vec<Seg>, replicas: Vec<char>) -> World {
    FractalState { base_shape: BaseShape { lines }, replicas, depth: 3, show_all_generations: false }
}

#[test]
fn edit_updates_change_the_fractal_and_record_undo() {
    let a = ((0, 0), (1, 0));
    let b = ((1, 0), (1, 1));
    let c = ((1, 1), (0, 0));
    // Delete removes exactly the selected segment and records the fractal before it
    let mut f = world(vec![a, b, c], vec![]);
    let mut u: UndoStack<World> = UndoStack::new();
    let mut s: DrawState<Pt> = DrawState::Selected(1);
    let del = EditFrame { delete_key: true, ..quiet() };
    assert!(edit_frame_update(&mut f, &mut u, &mut s, &del));
    assert_eq!(f.base_shape.lines, vec![a, c]);
    assert!(matches!(s, DrawState::Idle));
    let before = u.undo_pop(world(vec![], vec![])).unwrap();
    assert_eq!(before.base_shape.lines, vec![a, b, c]);

    // a finished drawing is appended and recorded
    let mut f = world(vec![a], vec![]);
    let mut u: UndoStack<World> = UndoStack::new();
    let mut s: DrawState<Pt> = DrawState::DrawingLine { start: (0, 0), last_cursor: (2, 2) };
    let keep = EditFrame { just_released: true, drawn_line: Some(c), ..quiet() };
    assert!(!edit_frame_update(&mut f, &mut u, &mut s, &keep));
    assert_eq!(f.base_shape.lines, vec![a, c]);
    assert!(u.can_undo());

    // moving a segment replaces it, with no undo record
    let mut f = world(vec![a, b], vec![]);
    let mut u: UndoStack<World> = UndoStack::new();
    let mut s: DrawState<Pt> = DrawState::MovingLine { idx: 1, cursor_start: (0, 0), line_a_start: (1, 0), line_b_start: (1, 1) };
    let hold = EditFrame { pressed: true, cursor: Some((1, 1)), held_line: Some(((2, 1), (2, 2))), ..quiet() };
    edit_frame_update(&mut f, &mut u, &mut s, &hold);
    assert_eq!(f.base_shape.lines, vec![a, ((2, 1), (2, 2))]);
    assert!(!u.can_undo());

    // grabbing a segment records the fractal and leaves the segments as they are
    let mut s: DrawState<Pt> = DrawState::Idle;
    let f2 = EditPressFrame { line_hit: Some((0, (0, 0), (1, 0))), ..press() };
    edit_press_update(&mut f, &mut u, &mut s, &f2);
    assert!(u.can_undo());
    assert_eq!(f.base_shape.lines, vec![a, ((2, 1), (2, 2))]);
    assert!(matches!(s, DrawState::MovingLine { idx: 0, .. }));

    // a hit past the segments is a miss
    let mut s: DrawState<Pt> = DrawState::Idle;
    let far = EditPressFrame { line_hit: Some((5, (0, 0), (1, 0))), ..press() };
    edit_press_update(&mut f, &mut u, &mut s, &far);
    assert!(matches!(s, DrawState::DrawingLine { .. }));
}

#[test]
fn edit_frame_runs_both_steps() {
    let a = ((0, 0), (1, 0));
    let mut f = world(vec![a], vec![]);
    let mut u: UndoStack<World> = UndoStack::new();
    // a release that finishes a drawing, then a press on the new segment in the same frame
    let mut s: DrawState<Pt> = DrawState::DrawingLine { start: (5, 5), last_cursor: (6, 6) };
    let frame = EditFrame { just_released: true, drawn_line: Some(((5, 5), (6, 6))), ..quiet() };
    edit_frame(&mut f, &mut u, &mut s, &frame, |fr: &World, _s: &DrawState<Pt>| EditPressFrame {
        line_hit: Some((fr.base_shape.lines.len() - 1, (5, 5), (6, 6))),
        ..press()
    });
    assert_eq!(f.base_shape.lines, vec![a, ((5, 5), (6, 6))]);
    assert!(matches!(s, DrawState::MovingLine { idx: 1, .. }));
    // Escape ends the frame before any press
    let esc = EditFrame { escape: true, ..quiet() };
    edit_frame(&mut f, &mut u, &mut s, &esc, |_: &World, _: &DrawState<Pt>| press());
    assert!(matches!(s, DrawState::Idle));
}

fn press() -> EditPressFrame<Pt> {
    EditPressFrame {
        just_pressed: true,
        egui_wants_pointer: false,
        cursor: Some((2, 2)),
        endpoint_hit: None,
        line_hit: None,
        draw_start: (2, 3),
    }
}

#[test]
fn edit_press_step_priorities() {
    let mut s: DrawState<Pt> = DrawState::Selected(1);
    let f = EditPressFrame { endpoint_hit: Some((LineEnd::A, (7, 7))), line_hit: Some((0, (0, 0), (1, 1))), ..press() };
    assert_eq!(edit_press_step(&mut s, 2, &f), vec![EditEffect::<Seg>::RecordUndo]);
    assert!(matches!(s, DrawState::MovingEndpoint { idx: 1, end: LineEnd::A, fixed: (7, 7), last_cursor: (2, 2) }));

    let mut s: DrawState<Pt> = DrawState::Idle;
    let f = EditPressFrame { line_hit: Some((0, (0, 0), (1, 1))), ..press() };
    assert_eq!(edit_press_step(&mut s, 2, &f), vec![EditEffect::<Seg>::RecordUndo]);
    assert!(matches!(
        s,
        DrawState::MovingLine { idx: 0, cursor_start: (2, 2), line_a_start: (0, 0), line_b_start: (1, 1) }
    ));

    let mut s: DrawState<Pt> = DrawState::Selected(1);
    assert_eq!(edit_press_step::<Pt, Seg>(&mut s, 2, &press()), vec![]);
    assert!(matches!(s, DrawState::DrawingLine { start: (2, 3), last_cursor: (2, 3) }));

    let mut s: DrawState<Pt> = DrawState::Selected(1);
    let ui = EditPressFrame { egui_wants_pointer: true, ..press() };
    assert_eq!(edit_press_step::<Pt, Seg>(&mut s, 2, &ui), vec![]);
    assert!(matches!(s, DrawState::Selected(1)));
}

type Placement = PlacementState<Pt, i32, char>;

fn keys() -> PlacementKeys {
    PlacementKeys {
        touch_cancel: false,
        escape: false,
        delete_key: false,
        ctrl: false,
        egui_wants_keyboard: false,
        copy_key: false,
        paste_key: false,
    }
}

#[test]
fn placement_keys() {
    let mut p: Placement = PlacementState { selected: Some(1), drag: PlacementDrag::Idle, clipboard: None };
    let del = PlacementKeys { delete_key: true, ..keys() };
    assert_eq!(
        placement_keys_step(&mut p, &['a', 'b', 'c'], &del),
        (vec![PlacementEffect::RecordUndo, PlacementEffect::RemoveReplica(1)], true)
    );
    assert_eq!(p.selected, None);

    // copy and paste in one frame: the copy of the selection is appended and selected
    let mut p: Placement = PlacementState { selected: Some(2), drag: PlacementDrag::Idle, clipboard: None };
    let cv = PlacementKeys { ctrl: true, copy_key: true, paste_key: true, ..keys() };
    assert_eq!(
        placement_keys_step(&mut p, &['a', 'b', 'c'], &cv),
        (vec![PlacementEffect::RecordUndo, PlacementEffect::PasteReplica], false)
    );
    assert_eq!(p.clipboard, Some('c'));
    assert_eq!(p.selected, Some(3));

    // nothing copied: no paste; without Ctrl the keys do nothing
    let mut p: Placement = PlacementState::default();
    let v = PlacementKeys { ctrl: true, paste_key: true, ..keys() };
    assert_eq!(placement_keys_step(&mut p, &['a'], &v), (vec![], false));
    let c_only = PlacementKeys { copy_key: true, ..keys() };
    p.selected = Some(0);
    assert_eq!(placement_keys_step(&mut p, &['a'], &c_only), (vec![], false));
    assert_eq!(p.clipboard, None);

    // escape ends everything; a cancelled touch ends the drag
    let mut p: Placement = PlacementState {
        selected: Some(0),
        drag: PlacementDrag::Move { start_cursor: (0, 0), start_position: (1, 1) },
        clipboard: Some('x'),
    };
    let tc = PlacementKeys { touch_cancel: true, ..keys() };
    assert_eq!(placement_keys_step(&mut p, &['a'], &tc), (vec![], false));
    assert!(matches!(p.drag, PlacementDrag::Idle));
    assert_eq!(p.selected, Some(0));
    let esc = PlacementKeys { escape: true, ..keys() };
    assert_eq!(placement_keys_step(&mut p, &['a'], &esc), (vec![], true));
    assert_eq!(p.selected, None);
    assert_eq!(p.clipboard, Some('x'));
}

#[test]
fn placement_drag_promotes_and_releases() {
    let pending = PlacementDrag::RotatePending { pivot: (0, 0), start_cursor: (1, 0), start_angle: 0, start_rotation: 5 };
    let mut p: Placement = PlacementState { selected: Some(0), drag: pending, clipboard: None };
    let hold = PlacementDragFrame { pressed: true, just_released: false, cursor: true, rotation_threshold_passed: true };
    assert_eq!(
        placement_drag_step(&mut p, &hold),
        vec![PlacementEffect::RecordUndo, PlacementEffect::ApplyDrag]
    );
    assert!(matches!(p.drag, PlacementDrag::Rotate { start_rotation: 5, .. }));
    let up = PlacementDragFrame { pressed: false, just_released: true, cursor: true, rotation_threshold_passed: false };
    assert_eq!(placement_drag_step(&mut p, &up), vec![]);
    assert_eq!(p.selected, Some(0));
    assert!(matches!(p.drag, PlacementDrag::Idle));

    // a click on empty canvas that never turned into a rotation deselects
    let mut p: Placement = PlacementState { selected: Some(0), drag: pending, clipboard: None };
    assert_eq!(placement_drag_step(&mut p, &up), vec![]);
    assert_eq!(p.selected, None);
}

fn press_frame(left: Vec<Option<PlacementDrag<Pt, i32>>>, right_hits: Vec<bool>) -> PlacementPressFrame<Pt, i32> {
    PlacementPressFrame {
        egui_wants_pointer: false,
        just_pressed: true,
        cursor: true,
        left,
        rotate: PlacementDrag::RotatePending { pivot: (9, 9), start_cursor: (2, 2), start_angle: 1, start_rotation: 2 },
        right_just_pressed: false,
        right_hits,
    }
}

#[test]
fn placement_press_grabs_rotates_and_deletes() {
    let mv = PlacementDrag::Move { start_cursor: (2, 2), start_position: (0, 0) };
    let sc = PlacementDrag::Scale { pivot: (0, 0), start_cursor_dist: 3, start_scale: 1 };
    // the selected replica wins over the one on top
    let mut p: Placement = PlacementState { selected: Some(0), drag: PlacementDrag::Idle, clipboard: None };
    assert_eq!(placement_press_step(&mut p, &press_frame(vec![Some(sc), Some(mv)], vec![])), vec![PlacementEffect::RecordUndo]);
    assert_eq!(p.selected, Some(0));
    assert!(matches!(p.drag, PlacementDrag::Scale { .. }));
    // otherwise the topmost hit
    let mut p: Placement = PlacementState::default();
    assert_eq!(placement_press_step(&mut p, &press_frame(vec![Some(sc), Some(mv), None], vec![])), vec![PlacementEffect::RecordUndo]);
    assert_eq!(p.selected, Some(1));
    assert!(matches!(p.drag, PlacementDrag::Move { .. }));
    // nothing hit with a selection: a pending rotation, no undo record
    let mut p: Placement = PlacementState { selected: Some(1), drag: PlacementDrag::Idle, clipboard: None };
    assert_eq!(placement_press_step(&mut p, &press_frame(vec![None, None], vec![])), vec![]);
    assert!(matches!(p.drag, PlacementDrag::RotatePending { pivot: (9, 9), .. }));
    // the UI has the pointer
    let mut p: Placement = PlacementState::default();
    let mut f = press_frame(vec![Some(mv)], vec![]);
    f.egui_wants_pointer = true;
    assert_eq!(placement_press_step(&mut p, &f), vec![]);
    assert_eq!(p.selected, None);
    // a right click deletes the topmost replica under it; the selection follows
    let mut p: Placement = PlacementState { selected: Some(2), drag: PlacementDrag::Idle, clipboard: None };
    let mut f = press_frame(vec![None, None, None], vec![true, false, false]);
    f.just_pressed = false;
    f.right_just_pressed = true;
    assert_eq!(
        placement_press_step(&mut p, &f),
        vec![PlacementEffect::RecordUndo, PlacementEffect::RemoveReplica(0)]
    );
    assert_eq!(p.selected, Some(1));
}

#[test]
fn placement_updates_change_the_fractal_and_record_undo() {
    let a = ((0, 0), (1, 0));
    // Delete removes exactly the selected replica
    let mut f = world(vec![a], vec!['a', 'b', 'c']);
    let mut u: UndoStack<World> = UndoStack::new();
    let mut p: Placement = PlacementState { selected: Some(1), drag: PlacementDrag::Idle, clipboard: None };
    let del = PlacementKeys { delete_key: true, ..keys() };
    assert!(placement_keys_update(&mut f, &mut u, &mut p, &del, |r: char| r));
    assert_eq!(f.replicas, vec!['a', 'c']);
    assert_eq!(u.undo_pop(world(vec![], vec![])).unwrap().replicas, vec!['a', 'b', 'c']);

    // Ctrl+V appends the moved copy and selects it
    let mut f = world(vec![a], vec!['a', 'b']);
    let mut u: UndoStack<World> = UndoStack::new();
    let mut p: Placement = PlacementState { selected: None, drag: PlacementDrag::Idle, clipboard: Some('a') };
    let v = PlacementKeys { ctrl: true, paste_key: true, ..keys() };
    let next = |r: char| ((r as u8) + 1) as char;
    assert!(!placement_keys_update(&mut f, &mut u, &mut p, &v, next));
    assert_eq!(f.replicas, vec!['a', 'b', 'b']);
    assert_eq!(p.clipboard, Some('b'));
    assert_eq!(p.selected, Some(2));
    assert!(u.can_undo());

    // a move changes the selected replica only
    let mut u: UndoStack<World> = UndoStack::new();
    let mut p: Placement = PlacementState {
        selected: Some(0),
        drag: PlacementDrag::Move { start_cursor: (0, 0), start_position: (0, 0) },
        clipboard: None,
    };
    let hold = PlacementDragFrame { pressed: true, just_released: false, cursor: true, rotation_threshold_passed: false };
    placement_drag_update(&mut f, &mut u, &mut p, &hold, |_r: char, _d: PlacementDrag<Pt, i32>| 'z');
    assert_eq!(f.replicas, vec!['z', 'b', 'b']);
    assert!(!u.can_undo());

    // a right click removes the replica on top under the cursor and records it
    let mut p: Placement = PlacementState { selected: Some(2), drag: PlacementDrag::Idle, clipboard: None };
    let mut fr = press_frame(vec![None, None, None], vec![false, true, false]);
    fr.just_pressed = false;
    fr.right_just_pressed = true;
    placement_press_update(&mut f, &mut u, &mut p, &fr);
    assert_eq!(f.replicas, vec!['z', 'b']);
    assert_eq!(p.selected, Some(1));
    assert_eq!(u.undo_pop(world(vec![], vec![])).unwrap().replicas, vec!['z', 'b', 'b']);
}

#[test]
fn placement_frame_runs_all_steps() {
    let mv = PlacementDrag::Move { start_cursor: (2, 2), start_position: (0, 0) };
    let mut f = world(vec![], vec!['a', 'b']);
    let mut u: UndoStack<World> = UndoStack::new();
    let mut p: Placement = PlacementState::default();
    placement_frame(
        &mut f,
        &mut u,
        &mut p,
        &keys(),
        |r: char| r,
        |r: char, _d: PlacementDrag<Pt, i32>| r,
        |_: &World, _: &Placement| PlacementDragFrame {
            pressed: true,
            just_released: false,
            cursor: true,
            rotation_threshold_passed: false,
        },
        |_: &World, _: &Placement| press_frame(vec![None, Some(mv)], vec![]),
    );
    assert_eq!(p.selected, Some(1));
    assert!(matches!(p.drag, PlacementDrag::Move { .. }));
    assert!(u.can_undo());
    assert_eq!(f.replicas, vec!['a', 'b']);
}
