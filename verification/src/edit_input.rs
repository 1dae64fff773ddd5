//! One frame of input on the Edit canvas, where the base shape's segments are drawn,
//! selected, moved and deleted.
//!
//! A frame is handled in two steps: [`edit_frame_update`] (a selection left behind by a
//! clear or an undo, Escape, Delete / Backspace, then the held and released button) and
//! [`edit_press_update`] (a new press), measured on the segments the first step left.
//! The geometry (snapping, distances, hit tests, where a dragged segment goes) is floating
//! point and made by the caller, who hands its outcome in with the frame. Each step
//! decides the new state and the changes ([`edit_frame_step`], [`edit_press_step`]) and
//! makes them on the fractal and the undo history.
use crate::edit_state::{spec_selected_index, DrawState, LineEnd};
use crate::fractal_state::{FractalState, FractalView};
use crate::session_rules::record_undo;
use crate::undo::{spec_push, stack_views, UndoStack, UndoView};
use vstd::prelude::*;

verus! {

/// A change to the fractal that a step of the Edit canvas makes, in order.
#[derive(Clone, Copy, Debug, PartialEq, Eq)]
pub enum EditEffect<L> {
    /// Record the current fractal for undo (before the change that follows).
    RecordUndo,
    /// Delete the segment with this index.
    RemoveLine(usize),
    /// Replace the segment with this index (a segment being moved).
    SetLine(usize, L),
    /// Append a segment (a finished drawing).
    AddLine(L),
}

/// The keys and the button of a frame, as far as [`edit_frame_step`] reads them.
pub struct EditFrame<P, L> {
    /// Escape went down.
    pub escape: bool,
    /// Delete or Backspace went down.
    pub delete_key: bool,
    /// The UI has the keyboard (a text field is focused).
    pub egui_wants_keyboard: bool,
    /// The left button is held.
    pub pressed: bool,
    /// The left button went up.
    pub just_released: bool,
    /// The cursor on the canvas, if any.
    pub cursor: Option<P>,
    /// While a segment is being moved (as a whole or by an endpoint) and the cursor is on
    /// the canvas: that segment where the cursor now puts it (snapped).
    pub held_line: Option<L>,
    /// When a segment is being drawn and the button goes up: the finished segment, from
    /// its start to the release point (the cursor, else the last cursor) snapped, when it
    /// is long enough to keep.
    pub drawn_line: Option<L>,
}

/// The state and the changes of a held button (before a release).
pub open spec fn spec_edit_hold<P, L>(state: DrawState<P>, frame: EditFrame<P, L>) -> (DrawState<P>, Seq<EditEffect<L>>) {
    if frame.pressed && frame.cursor is Some {
        let c = frame.cursor.unwrap();
        let moved = match frame.held_line {
            Some(l) => seq![EditEffect::SetLine(spec_selected_index(state).unwrap(), l)],
            None => Seq::empty(),
        };
        match state {
            DrawState::DrawingLine { start, .. } => (DrawState::DrawingLine { start, last_cursor: c }, Seq::empty()),
            DrawState::MovingLine { .. } => (state, moved),
            DrawState::MovingEndpoint { idx, end, fixed, .. } => (
                DrawState::MovingEndpoint { idx, end, fixed, last_cursor: c },
                moved,
            ),
            _ => (state, Seq::empty()),
        }
    } else {
        (state, Seq::empty())
    }
}

/// The state and the changes of a release: a drawn segment is kept when long enough and
/// the canvas goes idle; a move ends with its segment selected.
pub open spec fn spec_edit_release<P, L>(state: DrawState<P>, frame: EditFrame<P, L>) -> (DrawState<P>, Seq<EditEffect<L>>) {
    if frame.just_released {
        match state {
            DrawState::DrawingLine { .. } => (
                DrawState::Idle,
                match frame.drawn_line {
                    Some(l) => seq![EditEffect::RecordUndo, EditEffect::AddLine(l)],
                    None => Seq::empty(),
                },
            ),
            DrawState::MovingLine { idx, .. } => (DrawState::Selected(idx), Seq::empty()),
            DrawState::MovingEndpoint { idx, .. } => (DrawState::Selected(idx), Seq::empty()),
            _ => (state, Seq::empty()),
        }
    } else {
        (state, Seq::empty())
    }
}

/// The first step of a frame: the new state, the changes in order, and whether the frame
/// is over (no press is handled after a reset, Escape or a deletion).
pub open spec fn spec_edit_frame<P, L>(state: DrawState<P>, line_count: usize, frame: EditFrame<P, L>) -> (
    DrawState<P>,
    Seq<EditEffect<L>>,
    bool,
) {
    if spec_selected_index(state) matches Some(i) && i >= line_count {
        (DrawState::Idle, Seq::empty(), true)
    } else if frame.escape {
        (DrawState::Idle, Seq::empty(), true)
    } else if frame.delete_key && !frame.egui_wants_keyboard && state is Selected {
        (DrawState::Idle, seq![EditEffect::RecordUndo, EditEffect::RemoveLine(state->0)], true)
    } else {
        let (held, e1) = spec_edit_hold(state, frame);
        let (released, e2) = spec_edit_release(held, frame);
        (released, e1 + e2, false)
    }
}

/// The first step of a frame on the Edit canvas (see [`spec_edit_frame`]), given the
/// number of segments. Returns the changes to make, in order, and whether the frame is over.
pub fn edit_frame_step<P: Copy, L: Copy>(state: &mut DrawState<P>, line_count: usize, frame: &EditFrame<P, L>) -> (res: (
    Vec<EditEffect<L>>,
    bool,
))
    ensures
        (*final(state), res.0@, res.1) == spec_edit_frame(*old(state), line_count, *frame),
{
    let mut effects: Vec<EditEffect<L>> = Vec::new();
    if state.refers_past(line_count) || frame.escape {
        *state = DrawState::Idle;
        return (effects, true);
    }
    if frame.delete_key && !frame.egui_wants_keyboard {
        if let DrawState::Selected(idx) = *state {
            effects.push(EditEffect::RecordUndo);
            effects.push(EditEffect::RemoveLine(idx));
            *state = DrawState::Idle;
            proof {
                assert(effects@ =~= seq![EditEffect::RecordUndo, EditEffect::RemoveLine(idx)]);
            }
            return (effects, true);
        }
    }
    if frame.pressed {
        if let Some(c) = frame.cursor {
            match *state {
                DrawState::DrawingLine { start, .. } => {
                    *state = DrawState::DrawingLine { start, last_cursor: c };
                },
                DrawState::MovingLine { idx, .. } => {
                    if let Some(l) = frame.held_line {
                        effects.push(EditEffect::SetLine(idx, l));
                    }
                },
                DrawState::MovingEndpoint { idx, end, fixed, .. } => {
                    *state = DrawState::MovingEndpoint { idx, end, fixed, last_cursor: c };
                    if let Some(l) = frame.held_line {
                        effects.push(EditEffect::SetLine(idx, l));
                    }
                },
                _ => {},
            }
        }
    }
    let ghost held = effects@;
    if frame.just_released {
        match *state {
            DrawState::DrawingLine { .. } => {
                if let Some(l) = frame.drawn_line {
                    effects.push(EditEffect::RecordUndo);
                    effects.push(EditEffect::AddLine(l));
                }
                *state = DrawState::Idle;
            },
            DrawState::MovingLine { idx, .. } => {
                *state = DrawState::Selected(idx);
            },
            DrawState::MovingEndpoint { idx, .. } => {
                *state = DrawState::Selected(idx);
            },
            _ => {},
        }
    }
    proof {
        let (h, e1) = spec_edit_hold(*old(state), *frame);
        let (r, e2) = spec_edit_release(h, *frame);
        assert(held =~= e1);
        assert(effects@ =~= e1 + e2);
    }
    (effects, false)
}

/// What [`edit_press_step`] reads of a frame; the hit tests are made on the segments as
/// they stand after [`edit_frame_step`] and its changes.
pub struct EditPressFrame<P> {
    /// The left button went down.
    pub just_pressed: bool,
    /// The UI has the pointer.
    pub egui_wants_pointer: bool,
    /// The cursor on the canvas, if any.
    pub cursor: Option<P>,
    /// When a segment is selected: the endpoint within reach of the cursor (A before B)
    /// and the other endpoint.
    pub endpoint_hit: Option<(LineEnd, P)>,
    /// The segment under the cursor (the last drawn of those within reach) and its
    /// endpoints; an index past the segments counts as a miss.
    pub line_hit: Option<(usize, P, P)>,
    /// Where a new segment starts: the cursor, snapped to the grid with Ctrl.
    pub draw_start: P,
}

/// The state and the changes of a press, in order of priority: an endpoint of the
/// selected segment, then the segment under the cursor, then a new segment. Grabbing
/// records the fractal for undo first.
pub open spec fn spec_edit_press<P, L>(state: DrawState<P>, line_count: usize, frame: EditPressFrame<P>) -> (
    DrawState<P>,
    Seq<EditEffect<L>>,
) {
    if frame.just_pressed && !frame.egui_wants_pointer && frame.cursor is Some {
        let c = frame.cursor.unwrap();
        if state is Selected && state->0 < line_count && frame.endpoint_hit is Some {
            let (end, fixed) = frame.endpoint_hit.unwrap();
            (
                DrawState::MovingEndpoint { idx: state->0, end, fixed, last_cursor: c },
                seq![EditEffect::RecordUndo],
            )
        } else if frame.line_hit is Some && frame.line_hit.unwrap().0 < line_count {
            let (i, a, b) = frame.line_hit.unwrap();
            (
                DrawState::MovingLine { idx: i, cursor_start: c, line_a_start: a, line_b_start: b },
                seq![EditEffect::RecordUndo],
            )
        } else {
            (DrawState::DrawingLine { start: frame.draw_start, last_cursor: frame.draw_start }, Seq::empty())
        }
    } else {
        (state, Seq::empty())
    }
}

/// The second step of a frame on the Edit canvas: a press (see [`spec_edit_press`]).
pub fn edit_press_step<P: Copy, L>(state: &mut DrawState<P>, line_count: usize, frame: &EditPressFrame<P>) -> (res: Vec<
    EditEffect<L>,
>)
    ensures
        (*final(state), res@) == spec_edit_press::<P, L>(*old(state), line_count, *frame),
{
    let mut effects: Vec<EditEffect<L>> = Vec::new();
    if !frame.just_pressed || frame.egui_wants_pointer {
        return effects;
    }
    let c = match frame.cursor {
        Some(c) => c,
        None => {
            return effects;
        },
    };
    let selected_valid = match *state {
        DrawState::Selected(sel) => sel < line_count,
        _ => false,
    };
    if selected_valid {
        if let Some((end, fixed)) = frame.endpoint_hit {
            let sel = match *state {
                DrawState::Selected(sel) => sel,
                _ => 0,
            };
            effects.push(EditEffect::RecordUndo);
            *state = DrawState::MovingEndpoint { idx: sel, end, fixed, last_cursor: c };
            proof {
                assert(effects@ =~= seq![EditEffect::<L>::RecordUndo]);
            }
            return effects;
        }
    }
    match frame.line_hit {
        Some((i, a, b)) => {
            if i < line_count {
                effects.push(EditEffect::RecordUndo);
                *state = DrawState::MovingLine { idx: i, cursor_start: c, line_a_start: a, line_b_start: b };
                proof {
                    assert(effects@ =~= seq![EditEffect::<L>::RecordUndo]);
                }
            } else {
                *state = DrawState::DrawingLine { start: frame.draw_start, last_cursor: frame.draw_start };
            }
        },
        None => {
            *state = DrawState::DrawingLine { start: frame.draw_start, last_cursor: frame.draw_start };
        },
    }
    effects
}

/// The fractal (by its view) and the undo history (each entry by its view).
pub type EditWorld<L, R> = (FractalView<L, R>, UndoView<FractalView<L, R>>);

/// One change made: a record pushes the current fractal onto the undo history; the
/// others change the segments (a change at an index past the segments changes nothing).
pub open spec fn spec_apply_edit_effect<L, R>(w: EditWorld<L, R>, e: EditEffect<L>) -> EditWorld<L, R> {
    let f = w.0;
    match e {
        EditEffect::RecordUndo => (f, spec_push(w.1, f)),
        EditEffect::RemoveLine(i) => if i < f.0.len() {
            ((f.0.remove(i as int), f.1, f.2, f.3), w.1)
        } else {
            w
        },
        EditEffect::SetLine(i, l) => if i < f.0.len() {
            ((f.0.update(i as int, l), f.1, f.2, f.3), w.1)
        } else {
            w
        },
        EditEffect::AddLine(l) => ((f.0.push(l), f.1, f.2, f.3), w.1),
    }
}

/// The changes made in order.
pub open spec fn spec_apply_edit_effects<L, R>(w: EditWorld<L, R>, effects: Seq<EditEffect<L>>) -> EditWorld<L, R>
    decreases effects.len(),
{
    if effects.len() == 0 {
        w
    } else {
        spec_apply_edit_effect(spec_apply_edit_effects(w, effects.drop_last()), effects.last())
    }
}

proof fn lemma_apply_edit_short<L, R>(w: EditWorld<L, R>, a: EditEffect<L>, b: EditEffect<L>)
    ensures
        spec_apply_edit_effects(w, Seq::<EditEffect<L>>::empty()) == w,
        spec_apply_edit_effects(w, seq![a]) == spec_apply_edit_effect(w, a),
        spec_apply_edit_effects(w, seq![a, b]) == spec_apply_edit_effect(spec_apply_edit_effect(w, a), b),
{
    reveal_with_fuel(spec_apply_edit_effects, 3);
    assert(seq![a].drop_last() =~= Seq::<EditEffect<L>>::empty());
    assert(seq![a].last() == a);
    assert(seq![a, b].drop_last() =~= seq![a]);
    assert(seq![a, b].last() == b);
}

/// Makes the changes, in order, on the fractal and the undo history.
pub fn apply_edit_effects<L: Copy, R: Copy>(
    effects: &Vec<EditEffect<L>>,
    fractal: &mut FractalState<L, R>,
    undo: &mut UndoStack<FractalState<L, R>>,
)
    ensures
        (final(fractal)@, stack_views(final(undo)@)) == spec_apply_edit_effects(
            (old(fractal)@, stack_views(old(undo)@)),
            effects@,
        ),
{
    let ghost w0 = (fractal@, stack_views(undo@));
    let mut k: usize = 0;
    while k < effects.len()
        invariant
            k <= effects@.len(),
            (fractal@, stack_views(undo@)) == spec_apply_edit_effects(w0, effects@.take(k as int)),
        decreases effects@.len() - k,
    {
        proof {
            assert(effects@.take(k + 1).drop_last() =~= effects@.take(k as int));
            assert(effects@.take(k + 1).last() == effects@[k as int]);
        }
        match effects[k] {
            EditEffect::RecordUndo => {
                record_undo(fractal, undo);
            },
            EditEffect::RemoveLine(i) => {
                if i < fractal.base_shape.lines.len() {
                    fractal.base_shape.lines.remove(i);
                }
            },
            EditEffect::SetLine(i, l) => {
                if i < fractal.base_shape.lines.len() {
                    fractal.base_shape.lines.set(i, l);
                }
            },
            EditEffect::AddLine(l) => {
                fractal.base_shape.lines.push(l);
            },
        }
        k = k + 1;
    }
    proof {
        assert(effects@.take(effects@.len() as int) =~= effects@);
    }
}

/// The first step of a frame on the Edit canvas, made on the fractal and the undo
/// history: the state and the changes of [`spec_edit_frame`], made in order. In
/// particular, Delete / Backspace on a selected segment removes exactly that segment
/// (the others keep their order) and records the fractal before it for undo; a finished
/// drawing long enough to keep is appended and recorded for undo.
pub fn edit_frame_update<P: Copy, L: Copy, R: Copy>(
    fractal: &mut FractalState<L, R>,
    undo: &mut UndoStack<FractalState<L, R>>,
    state: &mut DrawState<P>,
    frame: &EditFrame<P, L>,
) -> (done: bool)
    ensures
        ({
            let r = spec_edit_frame(*old(state), old(fractal).base_shape.lines@.len() as usize, *frame);
            &&& *final(state) == r.0
            &&& done == r.2
            &&& (final(fractal)@, stack_views(final(undo)@)) == spec_apply_edit_effects(
                (old(fractal)@, stack_views(old(undo)@)),
                r.1,
            )
        }),
        (*old(state) is Selected && old(state)->0 < old(fractal).base_shape.lines@.len() && !frame.escape
            && frame.delete_key && !frame.egui_wants_keyboard) ==> {
            &&& final(fractal).base_shape.lines@ == old(fractal).base_shape.lines@.remove(
                old(state)->0 as int,
            )
            &&& final(fractal).replicas@ == old(fractal).replicas@
            &&& stack_views(final(undo)@) == spec_push(stack_views(old(undo)@), old(fractal)@)
            &&& *final(state) == DrawState::<P>::Idle
            &&& done
        },
        (*old(state) is DrawingLine && !frame.escape && frame.just_released && frame.drawn_line is Some) ==> {
            &&& final(fractal).base_shape.lines@ == old(fractal).base_shape.lines@.push(frame.drawn_line.unwrap())
            &&& final(fractal).replicas@ == old(fractal).replicas@
            &&& stack_views(final(undo)@) == spec_push(stack_views(old(undo)@), old(fractal)@)
            &&& *final(state) == DrawState::<P>::Idle
        },
        spec_selected_index(*final(state)) matches Some(i) ==> i < final(fractal).base_shape.lines@.len(),
{
    let (effects, done) = edit_frame_step(state, fractal.base_shape.lines.len(), frame);
    apply_edit_effects(&effects, fractal, undo);
    proof {
        let w = (old(fractal)@, stack_views(old(undo)@));
        let r = spec_edit_frame(*old(state), old(fractal).base_shape.lines@.len() as usize, *frame);
        if *old(state) is DrawingLine && !frame.escape && frame.just_released && frame.drawn_line is Some {
            let e2 = seq![EditEffect::RecordUndo, EditEffect::AddLine(frame.drawn_line.unwrap())];
            assert(r.1 =~= e2);
            lemma_apply_edit_short(w, EditEffect::RecordUndo, EditEffect::AddLine(frame.drawn_line.unwrap()));
        }
        if *old(state) is Selected {
            lemma_apply_edit_short(w, EditEffect::RecordUndo, EditEffect::RemoveLine(old(state)->0));
        }
        if !r.2 {
            let (h, e1) = spec_edit_hold(*old(state), *frame);
            let (rel, e2) = spec_edit_release(h, *frame);
            if let Some(l) = frame.drawn_line {
                lemma_apply_edit_short(w, EditEffect::RecordUndo, EditEffect::AddLine(l));
            }
            if let Some(l) = frame.held_line {
                if spec_selected_index(*old(state)) is Some {
                    lemma_apply_edit_short(w, EditEffect::SetLine(spec_selected_index(*old(state)).unwrap(), l), EditEffect::RecordUndo);
                }
            }
            lemma_apply_edit_short(w, EditEffect::<L>::RecordUndo, EditEffect::<L>::RecordUndo);
            assert(Seq::<EditEffect<L>>::empty() + e2 =~= e2);
            assert(e1 + Seq::<EditEffect<L>>::empty() =~= e1);
        }
    }
    done
}

/// The second step of a frame on the Edit canvas, made on the fractal and the undo
/// history: the state and the changes of [`spec_edit_press`]. Grabbing an endpoint or a
/// segment records the fractal for undo and leaves the segments as they are.
pub fn edit_press_update<P: Copy, L: Copy, R: Copy>(
    fractal: &mut FractalState<L, R>,
    undo: &mut UndoStack<FractalState<L, R>>,
    state: &mut DrawState<P>,
    frame: &EditPressFrame<P>,
)
    ensures
        ({
            let r = spec_edit_press::<P, L>(*old(state), old(fractal).base_shape.lines@.len() as usize, *frame);
            &&& *final(state) == r.0
            &&& (final(fractal)@, stack_views(final(undo)@)) == spec_apply_edit_effects(
                (old(fractal)@, stack_views(old(undo)@)),
                r.1,
            )
        }),
        final(fractal)@ == old(fractal)@,
        (*final(state) is MovingLine || *final(state) is MovingEndpoint) && !(*old(state) is MovingLine
            || *old(state) is MovingEndpoint) ==> stack_views(final(undo)@) == spec_push(
            stack_views(old(undo)@),
            old(fractal)@,
        ),
        (spec_selected_index(*old(state)) matches Some(i) ==> i < old(fractal).base_shape.lines@.len()) ==> (
        spec_selected_index(*final(state)) matches Some(j) ==> j < final(fractal).base_shape.lines@.len()),
{
    let effects: Vec<EditEffect<L>> = edit_press_step(state, fractal.base_shape.lines.len(), frame);
    apply_edit_effects(&effects, fractal, undo);
    proof {
        let w = (old(fractal)@, stack_views(old(undo)@));
        lemma_apply_edit_short(w, EditEffect::<L>::RecordUndo, EditEffect::<L>::RecordUndo);
    }
}

/// What the first step does: from state `s0` and fractal and history `w0` to `s1`, `w1`,
/// with `done` telling whether the frame is over.
pub open spec fn edit_frame_rel<P, L, R>(
    s0: DrawState<P>,
    w0: EditWorld<L, R>,
    frame: EditFrame<P, L>,
    s1: DrawState<P>,
    w1: EditWorld<L, R>,
    done: bool,
) -> bool {
    let r = spec_edit_frame(s0, w0.0.0.len() as usize, frame);
    &&& s1 == r.0
    &&& done == r.2
    &&& w1 == spec_apply_edit_effects(w0, r.1)
}

/// What the press step does: from state `s0` and fractal and history `w0` to `s1`, `w1`.
pub open spec fn edit_press_rel<P, L, R>(
    s0: DrawState<P>,
    w0: EditWorld<L, R>,
    frame: EditPressFrame<P>,
    s1: DrawState<P>,
    w1: EditWorld<L, R>,
) -> bool {
    let r = spec_edit_press::<P, L>(s0, w0.0.0.len() as usize, frame);
    &&& s1 == r.0
    &&& w1 == spec_apply_edit_effects(w0, r.1)
}

/// One whole frame of the Edit canvas: the first step ([`edit_frame_update`]) and, unless
/// it ends the frame, the press ([`edit_press_update`]) with what `measure` gives for the
/// fractal and the state the first step left (the hit tests, which are floating point).
pub fn edit_frame<P: Copy, L: Copy, R: Copy, F: FnOnce(&FractalState<L, R>, &DrawState<P>) -> EditPressFrame<P>>(
    fractal: &mut FractalState<L, R>,
    undo: &mut UndoStack<FractalState<L, R>>,
    state: &mut DrawState<P>,
    frame: &EditFrame<P, L>,
    measure: F,
)
    requires
        forall|f: &FractalState<L, R>, s: &DrawState<P>| measure.requires((f, s)),
    ensures
        exists|mid: FractalState<L, R>, s1: DrawState<P>, u1: UndoView<FractalView<L, R>>, done: bool|
            #[trigger] edit_frame_rel(
                *old(state),
                (old(fractal)@, stack_views(old(undo)@)),
                *frame,
                s1,
                (mid@, u1),
                done,
            ) && (done ==> *final(state) == s1 && final(fractal)@ == mid@ && stack_views(final(undo)@) == u1)
                && (!done ==> exists|pf: EditPressFrame<P>|
                #[trigger] measure.ensures((&mid, &s1), pf) && edit_press_rel(
                    s1,
                    (mid@, u1),
                    pf,
                    *final(state),
                    (final(fractal)@, stack_views(final(undo)@)),
                )),
{
    let done = edit_frame_update(fractal, undo, state, frame);
    let ghost mid: FractalState<L, R> = *fractal;
    let ghost s1: DrawState<P> = *state;
    let ghost u1 = stack_views(undo@);
    if done {
        proof {
            assert(edit_frame_rel(*old(state), (old(fractal)@, stack_views(old(undo)@)), *frame, s1, (mid@, u1), done));
        }
        return;
    }
    let pf = measure(&*fractal, &*state);
    edit_press_update(fractal, undo, state, &pf);
    proof {
        assert(measure.ensures((&mid, &s1), pf));
        assert(edit_press_rel(s1, (mid@, u1), pf, *state, (fractal@, stack_views(undo@))));
        assert(edit_frame_rel(*old(state), (old(fractal)@, stack_views(old(undo)@)), *frame, s1, (mid@, u1), done));
    }
}

/// Law: releasing the button after moving a segment (as a whole or by an endpoint)
/// leaves that segment selected, whatever else the frame holds short of Escape: the
/// release never deselects the moved segment, never ends the frame, and changes nothing
/// but the segment being moved.
pub proof fn law_release_keeps_moved_segment_selected<P, L>(
    state: DrawState<P>,
    line_count: usize,
    frame: EditFrame<P, L>,
)
    requires
        state is MovingLine || state is MovingEndpoint,
        spec_selected_index(state).unwrap() < line_count,
        frame.just_released,
        !frame.escape,
    ensures
        spec_edit_frame(state, line_count, frame).0 == DrawState::<P>::Selected(spec_selected_index(state).unwrap()),
        !spec_edit_frame(state, line_count, frame).2,
        forall|k: int|
            0 <= k < spec_edit_frame(state, line_count, frame).1.len() ==> #[trigger] spec_edit_frame(
                state,
                line_count,
                frame,
            ).1[k] == EditEffect::SetLine(spec_selected_index(state).unwrap(), frame.held_line.unwrap()),
{
}

} // verus!
