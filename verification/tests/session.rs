use fractalium::edit_state::DrawState;
use fractalium::fractal_state::{BaseShape, FractalState};
use fractalium::placement_rules::{PlacementDrag, PlacementState};
use fractalium::session_rules::{apply_whole_fractal_preset, PendingResultCameraFit};
use fractalium::undo::UndoStack;

type Seg = ((f32, f32), (f32, f32));
type State = FractalState<Seg, u8>;

fn state(lines: usize, replicas: usize, depth: u32) -> State {
    FractalState {
        base_shape: BaseShape { lines: vec![((0.0, 0.0), (1.0, 0.0)); lines] },
        replicas: vec![0u8; replicas],
        depth,
        show_all_generations: false,
    }
}

#[test]
fn applying_a_preset_resets_the_session_and_can_be_undone() {
    let mut fractal = state(3, 2, 5);
    let mut undo: UndoStack<State> = UndoStack::new();
    let mut draw: DrawState<(f32, f32)> = DrawState::Selected(1);
    let mut placement: PlacementState<(f32, f32), f32, u8> = PlacementState {
        selected: Some(1),
        drag: PlacementDrag::Move { start_cursor: (0.0, 0.0), start_position: (1.0, 1.0) },
        clipboard: Some(7),
    };
    let mut fit = PendingResultCameraFit(false);

    // a preset with 4 segments, 3 replicas and depth 9
    apply_whole_fractal_preset(
        Some(state(4, 3, 9)),
        &mut fractal,
        &mut undo,
        &mut draw,
        &mut placement,
        &mut fit,
    );
    assert_eq!(fractal.base_shape.lines.len(), 4);
    assert_eq!(fractal.replicas.len(), 3);
    assert_eq!(fractal.depth, 9);
    assert!(matches!(draw, DrawState::Idle));
    assert_eq!(placement.selected, None);
    assert!(matches!(placement.drag, PlacementDrag::Idle));
    assert_eq!(placement.clipboard, Some(7));
    assert!(fit.0);
    assert!(undo.can_undo());
    assert!(!undo.can_redo());

    // undo gives back the fractal from before the preset
    let current = state(4, 3, 9);
    let previous = undo.undo_pop(current).unwrap();
    assert_eq!(previous.base_shape.lines.len(), 3);
    assert_eq!(previous.replicas.len(), 2);
    assert_eq!(previous.depth, 5);
}

#[test]
fn applying_a_preset_clamps_its_depth_to_the_budget() {
    let mut fractal = state(1, 1, 2);
    let mut undo: UndoStack<State> = UndoStack::new();
    let mut draw: DrawState<(f32, f32)> = DrawState::Idle;
    let mut placement: PlacementState<(f32, f32), f32, u8> = PlacementState::default();
    let mut fit = PendingResultCameraFit(false);
    // 4 replicas, one segment: depth 11 draws 4^10 leaves; depth 12 breaks both budgets
    apply_whole_fractal_preset(
        Some(state(1, 4, 2000)),
        &mut fractal,
        &mut undo,
        &mut draw,
        &mut placement,
        &mut fit,
    );
    assert_eq!(fractal.depth, fractalium::budget::max_depth_for_budget(1, 4, false));
    assert_eq!(fractal.depth, 11);
}

#[test]
fn empty_choice_loads_the_default_fractal() {
    let mut fractal = state(2, 2, 3);
    let mut undo: UndoStack<State> = UndoStack::new();
    let mut draw: DrawState<(f32, f32)> = DrawState::DrawingLine {
        start: (0.0, 0.0),
        last_cursor: (1.0, 1.0),
    };
    let mut placement: PlacementState<(f32, f32), f32, u8> = PlacementState::default();
    let mut fit = PendingResultCameraFit(false);
    apply_whole_fractal_preset(None, &mut fractal, &mut undo, &mut draw, &mut placement, &mut fit);
    assert!(fractal.base_shape.lines.is_empty());
    assert!(fractal.replicas.is_empty());
    assert_eq!(fractal.depth, 4);
    assert!(!fractal.show_all_generations);
    assert!(matches!(draw, DrawState::Idle));
    assert!(fit.0);
}

#[test]
fn releasing_a_pending_rotation_deselects() {
    let mut p: PlacementState<(f32, f32), f32, u8> = PlacementState {
        selected: Some(2),
        drag: PlacementDrag::RotatePending {
            pivot: (0.0, 0.0),
            start_cursor: (1.0, 0.0),
            start_angle: 0.0,
            start_rotation: 0.5,
        },
        clipboard: None,
    };
    p.release_drag();
    assert_eq!(p.selected, None);
    assert!(matches!(p.drag, PlacementDrag::Idle));

    p.selected = Some(1);
    p.drag = PlacementDrag::Rotate { pivot: (0.0, 0.0), start_angle: 0.0, start_rotation: 0.0 };
    p.release_drag();
    assert_eq!(p.selected, Some(1));
    assert!(matches!(p.drag, PlacementDrag::Idle));

    p.clipboard = Some(3);
    p.deselect();
    assert_eq!(p.selected, None);
    assert_eq!(p.clipboard, Some(3));
}
