//! One frame of input on the Placement canvas, where the replicas are selected, moved,
//! scaled, rotated, copied, pasted and deleted.
//!
//! A frame is handled in three steps, in this order: [`placement_keys_step`] (Escape,
//! Delete / Backspace, Ctrl+C / Ctrl+V), [`placement_drag_step`] (the held and released
//! button) and [`placement_press_step`] (a new left press, then a right click). Between
//! the steps the caller makes the changes asked for and computes, on the replicas as they
//! then stand, what the next step reads: the hit tests against the replicas' frames, the
//! drag a grab would start, the distance a pending rotation has moved. Those are floating
//! point; which replica is picked, what the selection and the drag become, and when the
//! fractal is recorded for undo, is decided here.
use crate::fractal_state::{FractalState, FractalView};
use crate::session_rules::record_undo;
use crate::undo::{spec_push, stack_views, UndoStack, UndoView};
use crate::placement_rules::{
    last_hit_before, plan_drag_start, spec_plan_drag_start, spec_selection_after_removal, topmost_hit,
    DragStart, PlacementDrag, PlacementState,
};
use vstd::prelude::*;

verus! {

/// A change to the fractal that a step of the Placement canvas asks for, in order.
#[derive(Clone, Copy, Debug, PartialEq, Eq, Structural)]
pub enum PlacementEffect {
    /// Record the current fractal for undo (before the change that follows).
    RecordUndo,
    /// Delete the replica with this index.
    RemoveReplica(usize),
    /// Move the copied replica by the paste offset and append a copy of it.
    PasteReplica,
    /// Update the selected replica from the cursor and the drag in progress (move, scale
    /// or rotate; a pending rotation or no drag changes nothing).
    ApplyDrag,
}

/// The keys of a frame, as far as [`placement_keys_step`] reads them.
pub struct PlacementKeys {
    /// The touch driving the drag was cancelled (a second finger, a double-tap zoom).
    pub touch_cancel: bool,
    /// Escape went down.
    pub escape: bool,
    /// Delete or Backspace went down.
    pub delete_key: bool,
    /// Ctrl is held, or the grid snapping is on.
    pub ctrl: bool,
    /// The UI has the keyboard.
    pub egui_wants_keyboard: bool,
    /// C went down.
    pub copy_key: bool,
    /// V went down.
    pub paste_key: bool,
}

/// The first step, over the selection, the drag, the copied replica and the replicas:
/// the new selection, drag and copied replica, the changes, and whether the frame is over.
pub open spec fn spec_placement_keys<P, S, C>(
    selected: Option<usize>,
    drag: PlacementDrag<P, S>,
    clipboard: Option<C>,
    replicas: Seq<C>,
    keys: PlacementKeys,
) -> (Option<usize>, PlacementDrag<P, S>, Option<C>, Seq<PlacementEffect>, bool) {
    let drag0 = if keys.touch_cancel {
        PlacementDrag::Idle
    } else {
        drag
    };
    if keys.escape {
        (None, PlacementDrag::Idle, clipboard, Seq::empty(), true)
    } else if keys.delete_key {
        if selected matches Some(s) && s < replicas.len() {
            (
                None,
                PlacementDrag::Idle,
                clipboard,
                seq![PlacementEffect::RecordUndo, PlacementEffect::RemoveReplica(selected.unwrap())],
                true,
            )
        } else {
            (selected, drag0, clipboard, Seq::empty(), true)
        }
    } else if keys.ctrl && !keys.egui_wants_keyboard {
        let copied = if keys.copy_key && selected is Some {
            if selected.unwrap() < replicas.len() {
                Some(replicas[selected.unwrap() as int])
            } else {
                None
            }
        } else {
            clipboard
        };
        if keys.paste_key && copied is Some {
            (
                Some(replicas.len() as usize),
                drag0,
                copied,
                seq![PlacementEffect::RecordUndo, PlacementEffect::PasteReplica],
                false,
            )
        } else {
            (selected, drag0, copied, Seq::empty(), false)
        }
    } else {
        (selected, drag0, clipboard, Seq::empty(), false)
    }
}

/// The first step of a frame on the Placement canvas (see [`spec_placement_keys`]).
/// Returns the changes to make, in order, and whether the frame is over.
pub fn placement_keys_step<P, S, C: Copy>(
    placement: &mut PlacementState<P, S, C>,
    replicas: &[C],
    keys: &PlacementKeys,
) -> (res: (Vec<PlacementEffect>, bool))
    ensures
        (final(placement).selected, final(placement).drag, final(placement).clipboard, res.0@, res.1)
            == spec_placement_keys(
            old(placement).selected,
            old(placement).drag,
            old(placement).clipboard,
            replicas@,
            *keys,
        ),
{
    let mut effects: Vec<PlacementEffect> = Vec::new();
    if keys.touch_cancel {
        placement.drag = PlacementDrag::Idle;
    }
    if keys.escape {
        placement.deselect();
        return (effects, true);
    }
    if keys.delete_key {
        if let Some(sel) = placement.selected {
            if sel < replicas.len() {
                effects.push(PlacementEffect::RecordUndo);
                effects.push(PlacementEffect::RemoveReplica(sel));
                placement.deselect();
                proof {
                    assert(effects@ =~= seq![PlacementEffect::RecordUndo, PlacementEffect::RemoveReplica(sel)]);
                }
            }
        }
        return (effects, true);
    }
    if keys.ctrl && !keys.egui_wants_keyboard {
        if keys.copy_key {
            if let Some(sel) = placement.selected {
                placement.clipboard = if sel < replicas.len() {
                    Some(replicas[sel])
                } else {
                    None
                };
            }
        }
        if keys.paste_key && placement.clipboard.is_some() {
            effects.push(PlacementEffect::RecordUndo);
            effects.push(PlacementEffect::PasteReplica);
            placement.selected = Some(replicas.len());
            proof {
                assert(effects@ =~= seq![PlacementEffect::RecordUndo, PlacementEffect::PasteReplica]);
            }
        }
    }
    (effects, false)
}

/// The button of a frame, as far as [`placement_drag_step`] reads it.
pub struct PlacementDragFrame {
    /// The left button (or the driving touch) is held.
    pub pressed: bool,
    /// It went up.
    pub just_released: bool,
    /// There is a cursor on the canvas.
    pub cursor: bool,
    /// A pending rotation has been dragged far enough from where it started to begin.
    pub rotation_threshold_passed: bool,
}

/// A pending rotation dragged far enough while the button is held becomes a rotation
/// (recorded for undo first).
pub open spec fn spec_promote_rotation<P, S>(drag: PlacementDrag<P, S>, frame: PlacementDragFrame) -> (
    PlacementDrag<P, S>,
    Seq<PlacementEffect>,
) {
    if frame.pressed && frame.cursor && frame.rotation_threshold_passed && drag is RotatePending {
        (
            PlacementDrag::Rotate {
                pivot: drag->RotatePending_pivot,
                start_angle: drag->RotatePending_start_angle,
                start_rotation: drag->RotatePending_start_rotation,
            },
            seq![PlacementEffect::RecordUndo],
        )
    } else {
        (drag, Seq::empty())
    }
}

/// The second step: while the button is held, a pending rotation dragged far enough
/// becomes a rotation (recorded for undo first) and the drag is applied; when it goes up,
/// the drag ends, and a pending rotation that never began (a click on empty canvas) also
/// clears the selection.
pub open spec fn spec_placement_drag<P, S>(
    selected: Option<usize>,
    drag: PlacementDrag<P, S>,
    frame: PlacementDragFrame,
) -> (Option<usize>, PlacementDrag<P, S>, Seq<PlacementEffect>) {
    let (drag1, promoted) = spec_promote_rotation(drag, frame);
    let held = if frame.pressed && frame.cursor {
        promoted.push(PlacementEffect::ApplyDrag)
    } else {
        promoted
    };
    if frame.just_released && !(drag1 is Idle) {
        (if drag1 is RotatePending { None } else { selected }, PlacementDrag::Idle, held)
    } else {
        (selected, drag1, held)
    }
}

/// Promotes a pending rotation dragged far enough (see [`spec_promote_rotation`]).
fn promote_rotation<P: Copy, S: Copy, C>(placement: &mut PlacementState<P, S, C>, frame: &PlacementDragFrame) -> (res: Vec<
    PlacementEffect,
>)
    ensures
        (final(placement).drag, res@) == spec_promote_rotation(old(placement).drag, *frame),
        final(placement).selected == old(placement).selected,
        final(placement).clipboard == old(placement).clipboard,
{
    let mut effects: Vec<PlacementEffect> = Vec::new();
    if frame.pressed && frame.cursor && frame.rotation_threshold_passed {
        if let PlacementDrag::RotatePending { pivot, start_angle, start_rotation, .. } = placement.drag {
            effects.push(PlacementEffect::RecordUndo);
            placement.drag = PlacementDrag::Rotate { pivot, start_angle, start_rotation };
            proof {
                assert(effects@ =~= seq![PlacementEffect::RecordUndo]);
            }
        }
    }
    effects
}

/// Ends the drag when the button goes up (see [`spec_placement_drag`]).
fn end_drag_on_release<P, S, C>(placement: &mut PlacementState<P, S, C>, frame: &PlacementDragFrame)
    ensures
        (frame.just_released && !(old(placement).drag is Idle)) ==> {
            &&& final(placement).selected == (if old(placement).drag is RotatePending {
                None
            } else {
                old(placement).selected
            })
            &&& final(placement).drag is Idle
        },
        !(frame.just_released && !(old(placement).drag is Idle)) ==> final(placement).selected == old(
            placement,
        ).selected && final(placement).drag == old(placement).drag,
        final(placement).clipboard == old(placement).clipboard,
{
    if frame.just_released {
        let idle = match placement.drag {
            PlacementDrag::Idle => true,
            _ => false,
        };
        if !idle {
            placement.release_drag();
        }
    }
}

/// The second step of a frame on the Placement canvas (see [`spec_placement_drag`]).
pub fn placement_drag_step<P: Copy, S: Copy, C>(
    placement: &mut PlacementState<P, S, C>,
    frame: &PlacementDragFrame,
) -> (res: Vec<PlacementEffect>)
    ensures
        (final(placement).selected, final(placement).drag, res@) == spec_placement_drag(
            old(placement).selected,
            old(placement).drag,
            *frame,
        ),
        final(placement).clipboard == old(placement).clipboard,
{
    let mut effects = promote_rotation(placement, frame);
    if frame.pressed && frame.cursor {
        effects.push(PlacementEffect::ApplyDrag);
    }
    end_drag_on_release(placement, frame);
    effects
}

/// What [`placement_press_step`] reads of a frame; one entry per replica in drawing
/// order, the hit tests made on the replicas as they stand after the first two steps.
pub struct PlacementPressFrame<P, S> {
    /// The UI has the pointer: no press is handled.
    pub egui_wants_pointer: bool,
    /// The left button (or the driving touch) went down.
    pub just_pressed: bool,
    /// There is a cursor on the canvas.
    pub cursor: bool,
    /// For each replica: `None` when the press misses its frame, otherwise the drag a
    /// grab of it starts there (a scale near a corner of its frame, a move elsewhere).
    pub left: Vec<Option<PlacementDrag<P, S>>>,
    /// The pending rotation a press on empty canvas starts about the selected replica.
    pub rotate: PlacementDrag<P, S>,
    /// The right button went down.
    pub right_just_pressed: bool,
    /// For each replica: the right click hits its frame.
    pub right_hits: Vec<bool>,
}

/// Which replicas a press hits.
pub open spec fn press_hits<P, S>(left: Seq<Option<PlacementDrag<P, S>>>) -> Seq<bool> {
    left.map_values(|d: Option<PlacementDrag<P, S>>| d is Some)
}

/// The third step: a left press grabs a replica ([`spec_plan_drag_start`]: selecting it
/// and recording the fractal for undo) or starts a pending rotation about the selection;
/// then a right click deletes the replica on top under the cursor (recorded for undo
/// first), the selection following the deletion and the drag ending.
pub open spec fn spec_placement_press<P, S>(
    selected: Option<usize>,
    drag: PlacementDrag<P, S>,
    frame: PlacementPressFrame<P, S>,
) -> (Option<usize>, PlacementDrag<P, S>, Seq<PlacementEffect>) {
    if frame.egui_wants_pointer {
        (selected, drag, Seq::empty())
    } else {
        let (sel1, drag1, e1) = if frame.just_pressed && frame.cursor {
            match spec_plan_drag_start(selected, press_hits(frame.left@)) {
                DragStart::Grab(i) => (Some(i), frame.left@[i as int].unwrap(), seq![PlacementEffect::RecordUndo]),
                DragStart::RotateAround(_) => (selected, frame.rotate, Seq::empty()),
                DragStart::Nothing => (selected, drag, Seq::empty()),
            }
        } else {
            (selected, drag, Seq::empty())
        };
        if frame.right_just_pressed && frame.cursor && last_hit_before(
            frame.right_hits@,
            None,
            frame.right_hits@.len() as int,
        ) is Some {
            let i = last_hit_before(frame.right_hits@, None, frame.right_hits@.len() as int).unwrap();
            (
                spec_selection_after_removal(sel1, i),
                PlacementDrag::Idle,
                e1 + seq![PlacementEffect::RecordUndo, PlacementEffect::RemoveReplica(i)],
            )
        } else {
            (sel1, drag1, e1)
        }
    }
}

/// The third step of a frame on the Placement canvas (see [`spec_placement_press`]).
pub fn placement_press_step<P: Copy, S: Copy, C>(
    placement: &mut PlacementState<P, S, C>,
    frame: &PlacementPressFrame<P, S>,
) -> (res: Vec<PlacementEffect>)
    ensures
        (final(placement).selected, final(placement).drag, res@) == spec_placement_press(
            old(placement).selected,
            old(placement).drag,
            *frame,
        ),
        final(placement).clipboard == old(placement).clipboard,
{
    let mut effects: Vec<PlacementEffect> = Vec::new();
    if frame.egui_wants_pointer {
        return effects;
    }
    if frame.just_pressed && frame.cursor {
        let mut hits: Vec<bool> = Vec::new();
        let mut k: usize = 0;
        while k < frame.left.len()
            invariant
                k <= frame.left@.len(),
                hits@ == press_hits(frame.left@).take(k as int),
            decreases frame.left@.len() - k,
        {
            hits.push(frame.left[k].is_some());
            k = k + 1;
            proof {
                assert(hits@ =~= press_hits(frame.left@).take(k as int));
            }
        }
        proof {
            assert(hits@ =~= press_hits(frame.left@));
        }
        match plan_drag_start(placement.selected, &hits) {
            DragStart::Grab(i) => {
                proof {
                    lemma_grab_is_hit(placement.selected, hits@, i);
                }
                placement.selected = Some(i);
                placement.drag = match frame.left[i] {
                    Some(d) => d,
                    None => PlacementDrag::Idle,
                };
                effects.push(PlacementEffect::RecordUndo);
            },
            DragStart::RotateAround(_) => {
                placement.drag = frame.rotate;
            },
            DragStart::Nothing => {},
        }
    }
    let ghost e1 = effects@;
    if frame.right_just_pressed && frame.cursor {
        if let Some(i) = topmost_hit(&frame.right_hits) {
            let sel = placement.selected;
            placement.selected = match sel {
                Some(s) => if s == i {
                    None
                } else if s > i {
                    Some(s - 1)
                } else {
                    Some(s)
                },
                None => None,
            };
            placement.drag = PlacementDrag::Idle;
            effects.push(PlacementEffect::RecordUndo);
            effects.push(PlacementEffect::RemoveReplica(i));
            proof {
                assert(effects@ =~= e1 + seq![PlacementEffect::RecordUndo, PlacementEffect::RemoveReplica(i)]);
            }
        }
    }
    effects
}

/// A grabbed replica is one the press hits.
proof fn lemma_grab_is_hit(selected: Option<usize>, hits: Seq<bool>, i: usize)
    requires
        spec_plan_drag_start(selected, hits) == DragStart::Grab(i),
        hits.len() <= usize::MAX,
    ensures
        i < hits.len(),
        hits[i as int],
{
    if !(selected matches Some(s) && s < hits.len() && hits[s as int]) {
        lemma_last_hit_is_hit(hits, selected, hits.len() as int);
    }
}

proof fn lemma_last_hit_is_hit(hits: Seq<bool>, skip: Option<usize>, end: int)
    requires
        end <= hits.len(),
        hits.len() <= usize::MAX,
    ensures
        last_hit_before(hits, skip, end) matches Some(i) ==> 0 <= i < end && hits[i as int],
    decreases end,
{
    if end > 0 {
        lemma_last_hit_is_hit(hits, skip, end - 1);
        assert(((end - 1) as usize) as int == end - 1);
    }
}

/// The fractal (by its view) and the undo history (each entry by its view).
pub type PlacementWorld<L, R> = (FractalView<L, R>, UndoView<FractalView<L, R>>);

/// A drag that changes the selected replica (a move, a scale or a rotation).
pub open spec fn drag_moves_replica<P, S>(drag: PlacementDrag<P, S>) -> bool {
    drag is Move || drag is Scale || drag is Rotate
}

/// One change made, with `pasted` the replica a paste appends and `dragged` the index and
/// new value of the replica a drag changes: a record pushes the current fractal onto the
/// undo history; a change at an index past the replicas changes nothing.
pub open spec fn spec_apply_placement_effect<L, R>(
    w: PlacementWorld<L, R>,
    e: PlacementEffect,
    pasted: Option<R>,
    dragged: Option<(usize, R)>,
) -> PlacementWorld<L, R> {
    let f = w.0;
    match e {
        PlacementEffect::RecordUndo => (f, spec_push(w.1, f)),
        PlacementEffect::RemoveReplica(i) => if i < f.1.len() {
            ((f.0, f.1.remove(i as int), f.2, f.3), w.1)
        } else {
            w
        },
        PlacementEffect::PasteReplica => match pasted {
            Some(r) => ((f.0, f.1.push(r), f.2, f.3), w.1),
            None => w,
        },
        PlacementEffect::ApplyDrag => match dragged {
            Some((i, r)) => if i < f.1.len() {
                ((f.0, f.1.update(i as int, r), f.2, f.3), w.1)
            } else {
                w
            },
            None => w,
        },
    }
}

/// The changes made in order.
pub open spec fn spec_apply_placement_effects<L, R>(
    w: PlacementWorld<L, R>,
    effects: Seq<PlacementEffect>,
    pasted: Option<R>,
    dragged: Option<(usize, R)>,
) -> PlacementWorld<L, R>
    decreases effects.len(),
{
    if effects.len() == 0 {
        w
    } else {
        spec_apply_placement_effect(
            spec_apply_placement_effects(w, effects.drop_last(), pasted, dragged),
            effects.last(),
            pasted,
            dragged,
        )
    }
}

proof fn lemma_apply_placement_short<L, R>(
    w: PlacementWorld<L, R>,
    a: PlacementEffect,
    b: PlacementEffect,
    pasted: Option<R>,
    dragged: Option<(usize, R)>,
)
    ensures
        spec_apply_placement_effects(w, Seq::<PlacementEffect>::empty(), pasted, dragged) == w,
        spec_apply_placement_effects(w, seq![a], pasted, dragged) == spec_apply_placement_effect(w, a, pasted, dragged),
        spec_apply_placement_effects(w, seq![a, b], pasted, dragged) == spec_apply_placement_effect(
            spec_apply_placement_effect(w, a, pasted, dragged),
            b,
            pasted,
            dragged,
        ),
{
    reveal_with_fuel(spec_apply_placement_effects, 3);
    assert(seq![a].drop_last() =~= Seq::<PlacementEffect>::empty());
    assert(seq![a].last() == a);
    assert(spec_apply_placement_effects(w, seq![a], pasted, dragged) == spec_apply_placement_effect(
        w,
        a,
        pasted,
        dragged,
    ));
    assert(seq![a, b].drop_last() =~= seq![a]);
    assert(seq![a, b].last() == b);
}

/// The Placement changes leave the segments, the depth and the drawing mode as they are.
proof fn lemma_apply_placement_keeps_shape<L, R>(
    w: PlacementWorld<L, R>,
    effects: Seq<PlacementEffect>,
    pasted: Option<R>,
    dragged: Option<(usize, R)>,
)
    ensures
        spec_apply_placement_effects(w, effects, pasted, dragged).0.0 == w.0.0,
        spec_apply_placement_effects(w, effects, pasted, dragged).0.2 == w.0.2,
        spec_apply_placement_effects(w, effects, pasted, dragged).0.3 == w.0.3,
    decreases effects.len(),
{
    if effects.len() > 0 {
        lemma_apply_placement_keeps_shape(w, effects.drop_last(), pasted, dragged);
    }
}

/// Makes the changes, in order, on the fractal and the undo history (`pasted`: what a
/// paste appends; `dragged`: which replica a drag changes, and to what).
pub fn apply_placement_effects<L: Copy, R: Copy>(
    effects: &Vec<PlacementEffect>,
    fractal: &mut FractalState<L, R>,
    undo: &mut UndoStack<FractalState<L, R>>,
    pasted: Option<R>,
    dragged: Option<(usize, R)>,
)
    ensures
        (final(fractal)@, stack_views(final(undo)@)) == spec_apply_placement_effects(
            (old(fractal)@, stack_views(old(undo)@)),
            effects@,
            pasted,
            dragged,
        ),
{
    let ghost w0 = (fractal@, stack_views(undo@));
    let mut k: usize = 0;
    while k < effects.len()
        invariant
            k <= effects@.len(),
            (fractal@, stack_views(undo@)) == spec_apply_placement_effects(
                w0,
                effects@.take(k as int),
                pasted,
                dragged,
            ),
        decreases effects@.len() - k,
    {
        proof {
            assert(effects@.take(k + 1).drop_last() =~= effects@.take(k as int));
            assert(effects@.take(k + 1).last() == effects@[k as int]);
        }
        match effects[k] {
            PlacementEffect::RecordUndo => {
                record_undo(fractal, undo);
            },
            PlacementEffect::RemoveReplica(i) => {
                if i < fractal.replicas.len() {
                    fractal.replicas.remove(i);
                }
            },
            PlacementEffect::PasteReplica => {
                if let Some(r) = pasted {
                    fractal.replicas.push(r);
                }
            },
            PlacementEffect::ApplyDrag => {
                if let Some((i, r)) = dragged {
                    if i < fractal.replicas.len() {
                        fractal.replicas.set(i, r);
                    }
                }
            },
        }
        k = k + 1;
    }
    proof {
        assert(effects@.take(effects@.len() as int) =~= effects@);
    }
}

/// What the key step does: from selection state `p0` and fractal and history `w0` to
/// `p1`, `w1`, with `done` telling whether the frame is over.
pub open spec fn placement_keys_rel<P, S, L, R, F: Fn(R) -> R>(
    p0: PlacementState<P, S, R>,
    w0: PlacementWorld<L, R>,
    keys: PlacementKeys,
    offset: F,
    p1: PlacementState<P, S, R>,
    w1: PlacementWorld<L, R>,
    done: bool,
) -> bool {
    let k = spec_placement_keys(p0.selected, p0.drag, p0.clipboard, w0.0.1, keys);
    let pasting = k.3 == seq![PlacementEffect::RecordUndo, PlacementEffect::PasteReplica];
    &&& p1.selected == k.0
    &&& p1.drag == k.1
    &&& done == k.4
    &&& !pasting ==> p1.clipboard == k.2
    &&& pasting ==> p1.clipboard is Some && offset.ensures((k.2.unwrap(),), p1.clipboard.unwrap())
    &&& w1 == spec_apply_placement_effects(w0, k.3, p1.clipboard, None)
}

/// What the drag step does: from `p0`, `w0` to `p1`, `w1`, the dragged replica becoming
/// what `drag_to` gives for it and the drag.
pub open spec fn placement_drag_rel<P, S, L, R, F: Fn(R, PlacementDrag<P, S>) -> R>(
    p0: PlacementState<P, S, R>,
    w0: PlacementWorld<L, R>,
    frame: PlacementDragFrame,
    drag_to: F,
    p1: PlacementState<P, S, R>,
    w1: PlacementWorld<L, R>,
) -> bool {
    let d = spec_placement_drag(p0.selected, p0.drag, frame);
    let drag1 = spec_promote_rotation(p0.drag, frame).0;
    let sel = p0.selected;
    let applies = frame.pressed && frame.cursor && sel is Some && sel.unwrap() < w0.0.1.len() && drag_moves_replica(
        drag1,
    );
    &&& p1.selected == d.0
    &&& p1.drag == d.1
    &&& p1.clipboard == p0.clipboard
    &&& w1.0.1.len() == w0.0.1.len()
    &&& applies ==> drag_to.ensures((w0.0.1[sel.unwrap() as int], drag1), w1.0.1[sel.unwrap() as int])
    &&& w1 == spec_apply_placement_effects(
        w0,
        d.2,
        None,
        if applies {
            Some((sel.unwrap(), w1.0.1[sel.unwrap() as int]))
        } else {
            None
        },
    )
}

/// What the press step does: from `p0`, `w0` to `p1`, `w1`.
pub open spec fn placement_press_rel<P, S, L, R>(
    p0: PlacementState<P, S, R>,
    w0: PlacementWorld<L, R>,
    frame: PlacementPressFrame<P, S>,
    p1: PlacementState<P, S, R>,
    w1: PlacementWorld<L, R>,
) -> bool {
    let p = spec_placement_press(p0.selected, p0.drag, frame);
    &&& p1.selected == p.0
    &&& p1.drag == p.1
    &&& p1.clipboard == p0.clipboard
    &&& w1 == spec_apply_placement_effects(w0, p.2, None, None)
}

/// The first step of a frame on the Placement canvas, made on the fractal and the undo
/// history: the selection, drag and changes of [`spec_placement_keys`]. A paste moves the
/// copied replica by the paste offset (`offset`, which the copied replica becomes) and
/// appends it. In particular, Delete / Backspace on a selected replica removes exactly
/// that replica and records the fractal before it for undo; a paste appends the moved
/// copy, selects it and records the fractal before it for undo.
pub fn placement_keys_update<P, S, L: Copy, R: Copy, F: Fn(R) -> R>(
    fractal: &mut FractalState<L, R>,
    undo: &mut UndoStack<FractalState<L, R>>,
    placement: &mut PlacementState<P, S, R>,
    keys: &PlacementKeys,
    offset: F,
) -> (done: bool)
    requires
        forall|r: R| offset.requires((r,)),
    ensures
        ({
            let k = spec_placement_keys(
                old(placement).selected,
                old(placement).drag,
                old(placement).clipboard,
                old(fractal).replicas@,
                *keys,
            );
            let pasting = k.3 == seq![PlacementEffect::RecordUndo, PlacementEffect::PasteReplica];
            &&& final(placement).selected == k.0
            &&& final(placement).drag == k.1
            &&& done == k.4
            &&& !pasting ==> final(placement).clipboard == k.2
            &&& pasting ==> final(placement).clipboard is Some && offset.ensures(
                (k.2.unwrap(),),
                final(placement).clipboard.unwrap(),
            )
            &&& (final(fractal)@, stack_views(final(undo)@)) == spec_apply_placement_effects(
                (old(fractal)@, stack_views(old(undo)@)),
                k.3,
                final(placement).clipboard,
                None,
            )
            &&& pasting ==> {
                &&& final(fractal).replicas@ == old(fractal).replicas@.push(final(placement).clipboard.unwrap())
                &&& final(placement).selected == Some(old(fractal).replicas@.len() as usize)
            }
            &&& k.3.len() == 0 ==> final(fractal)@ == old(fractal)@ && stack_views(final(undo)@) == stack_views(
                old(undo)@,
            )
        }),
        (!keys.escape && keys.delete_key && old(placement).selected is Some && old(placement).selected.unwrap()
            < old(fractal).replicas@.len()) ==> {
            &&& final(fractal).replicas@ == old(fractal).replicas@.remove(old(placement).selected.unwrap() as int)
            &&& final(fractal).base_shape.lines@ == old(fractal).base_shape.lines@
            &&& final(placement).selected is None
            &&& final(placement).drag is Idle
        },
        (!keys.escape && !keys.delete_key && keys.ctrl && !keys.egui_wants_keyboard && keys.paste_key
            && !keys.copy_key && old(placement).clipboard is Some) ==> {
            &&& offset.ensures((old(placement).clipboard.unwrap(),), final(placement).clipboard.unwrap())
            &&& final(fractal).replicas@ == old(fractal).replicas@.push(final(placement).clipboard.unwrap())
            &&& final(placement).selected == Some(old(fractal).replicas@.len() as usize)
        },
        (spec_placement_keys(
            old(placement).selected,
            old(placement).drag,
            old(placement).clipboard,
            old(fractal).replicas@,
            *keys,
        ).3.len() > 0) ==> stack_views(final(undo)@) == spec_push(stack_views(old(undo)@), old(fractal)@),
        placement_keys_rel(
            *old(placement),
            (old(fractal)@, stack_views(old(undo)@)),
            *keys,
            offset,
            *final(placement),
            (final(fractal)@, stack_views(final(undo)@)),
            done,
        ),
{
    let (effects, done) = placement_keys_step(placement, &fractal.replicas, keys);
    let ghost k = spec_placement_keys(
        old(placement).selected,
        old(placement).drag,
        old(placement).clipboard,
        old(fractal).replicas@,
        *keys,
    );
    let ghost w = (old(fractal)@, stack_views(old(undo)@));
    let pasting = effects.len() == 2 && match effects[1] {
        PlacementEffect::PasteReplica => true,
        _ => false,
    };
    if pasting {
        if let Some(c) = placement.clipboard {
            let moved = offset(c);
            placement.clipboard = Some(moved);
        }
    }
    let pasted = placement.clipboard;
    proof {
        assert(pasting == (k.3 == seq![PlacementEffect::RecordUndo, PlacementEffect::PasteReplica])) by {
            if k.3 == seq![PlacementEffect::RecordUndo, PlacementEffect::PasteReplica] {
                assert(effects@[1] == PlacementEffect::PasteReplica);
            }
            if pasting {
                assert(k.3 =~= seq![PlacementEffect::RecordUndo, PlacementEffect::PasteReplica]);
            }
        }
    }
    apply_placement_effects(&effects, fractal, undo, pasted, None);
    proof {
        lemma_apply_placement_short(w, PlacementEffect::RecordUndo, PlacementEffect::PasteReplica, pasted, None);
        if old(placement).selected is Some {
            lemma_apply_placement_short(
                w,
                PlacementEffect::RecordUndo,
                PlacementEffect::RemoveReplica(old(placement).selected.unwrap()),
                pasted,
                None,
            );
        }
    }
    done
}

/// The second step of a frame on the Placement canvas, made on the fractal and the undo
/// history: the selection, drag and changes of [`spec_placement_drag`]. Promoting a
/// pending rotation records the fractal for undo; applying a move, scale or rotation to
/// the selected replica replaces it by what `drag_to` gives for it and the drag (the
/// floating-point drag maths), leaving the other replicas as they are.
pub fn placement_drag_update<P: Copy, S: Copy, L: Copy, R: Copy, F: Fn(R, PlacementDrag<P, S>) -> R>(
    fractal: &mut FractalState<L, R>,
    undo: &mut UndoStack<FractalState<L, R>>,
    placement: &mut PlacementState<P, S, R>,
    frame: &PlacementDragFrame,
    drag_to: F,
)
    requires
        forall|r: R, d: PlacementDrag<P, S>| drag_to.requires((r, d)),
    ensures
        placement_drag_rel(
            *old(placement),
            (old(fractal)@, stack_views(old(undo)@)),
            *frame,
            drag_to,
            *final(placement),
            (final(fractal)@, stack_views(final(undo)@)),
        ),
        ({
            let d = spec_placement_drag(old(placement).selected, old(placement).drag, *frame);
            let drag1 = spec_promote_rotation(old(placement).drag, *frame).0;
            let sel = old(placement).selected;
            let applies = frame.pressed && frame.cursor && sel is Some && sel.unwrap() < old(fractal).replicas@.len()
                && drag_moves_replica(drag1);
            &&& final(placement).selected == d.0
            &&& final(placement).drag == d.1
            &&& final(placement).clipboard == old(placement).clipboard
            &&& final(fractal).replicas@.len() == old(fractal).replicas@.len()
            &&& applies ==> {
                &&& drag_to.ensures(
                    (old(fractal).replicas@[sel.unwrap() as int], drag1),
                    final(fractal).replicas@[sel.unwrap() as int],
                )
                &&& final(fractal).replicas@ == old(fractal).replicas@.update(
                    sel.unwrap() as int,
                    final(fractal).replicas@[sel.unwrap() as int],
                )
            }
            &&& !applies ==> final(fractal).replicas@ == old(fractal).replicas@
            &&& final(fractal).base_shape.lines@ == old(fractal).base_shape.lines@
            &&& (final(fractal)@, stack_views(final(undo)@)) == spec_apply_placement_effects(
                (old(fractal)@, stack_views(old(undo)@)),
                d.2,
                None,
                if applies {
                    Some((sel.unwrap(), final(fractal).replicas@[sel.unwrap() as int]))
                } else {
                    None
                },
            )
        }),
{
    let ghost w = (old(fractal)@, stack_views(old(undo)@));
    let mut effects = promote_rotation(placement, frame);
    let mut dragged: Option<(usize, R)> = None;
    if frame.pressed && frame.cursor {
        if let Some(sel) = placement.selected {
            if sel < fractal.replicas.len() {
                let d = placement.drag;
                let moves = match d {
                    PlacementDrag::Move { .. } => true,
                    PlacementDrag::Scale { .. } => true,
                    PlacementDrag::Rotate { .. } => true,
                    _ => false,
                };
                if moves {
                    let r = drag_to(fractal.replicas[sel], d);
                    dragged = Some((sel, r));
                }
            }
        }
        effects.push(PlacementEffect::ApplyDrag);
    }
    end_drag_on_release(placement, frame);
    apply_placement_effects(&effects, fractal, undo, None, dragged);
    proof {
        let d = spec_placement_drag(old(placement).selected, old(placement).drag, *frame);
        lemma_apply_placement_keeps_shape(w, effects@, None, dragged);
        lemma_apply_placement_short(w, PlacementEffect::RecordUndo, PlacementEffect::ApplyDrag, None, dragged);
        lemma_apply_placement_short(w, PlacementEffect::ApplyDrag, PlacementEffect::ApplyDrag, None, dragged);
        if frame.pressed && frame.cursor {
            if frame.rotation_threshold_passed && old(placement).drag is RotatePending {
                assert(d.2 =~= seq![PlacementEffect::RecordUndo, PlacementEffect::ApplyDrag]);
                assert(effects@ =~= d.2);
            } else {
                assert(d.2 =~= seq![PlacementEffect::ApplyDrag]);
                assert(effects@ =~= d.2);
            }
        } else {
            assert(d.2 =~= Seq::<PlacementEffect>::empty());
            assert(effects@ =~= d.2);
        }
        if let Some((i, r)) = dragged {
            assert(fractal.replicas@ =~= old(fractal).replicas@.update(i as int, r));
        } else {
            assert(fractal.replicas@ =~= old(fractal).replicas@);
        }
    }
}

/// The third step of a frame on the Placement canvas, made on the fractal and the undo
/// history: the selection, drag and changes of [`spec_placement_press`]. Grabbing a
/// replica records the fractal for undo; a right click on a replica removes exactly the
/// one on top under the cursor (the others keep their order) and records the fractal
/// before it for undo.
pub fn placement_press_update<P: Copy, S: Copy, L: Copy, R: Copy>(
    fractal: &mut FractalState<L, R>,
    undo: &mut UndoStack<FractalState<L, R>>,
    placement: &mut PlacementState<P, S, R>,
    frame: &PlacementPressFrame<P, S>,
)
    ensures
        ({
            let p = spec_placement_press(old(placement).selected, old(placement).drag, *frame);
            &&& final(placement).selected == p.0
            &&& final(placement).drag == p.1
            &&& final(placement).clipboard == old(placement).clipboard
            &&& (final(fractal)@, stack_views(final(undo)@)) == spec_apply_placement_effects(
                (old(fractal)@, stack_views(old(undo)@)),
                p.2,
                None,
                None,
            )
        }),
        final(fractal).base_shape.lines@ == old(fractal).base_shape.lines@,
        placement_press_rel(
            *old(placement),
            (old(fractal)@, stack_views(old(undo)@)),
            *frame,
            *final(placement),
            (final(fractal)@, stack_views(final(undo)@)),
        ),
        ({
            let hit = last_hit_before(frame.right_hits@, None, frame.right_hits@.len() as int);
            (!frame.egui_wants_pointer && !frame.just_pressed && frame.right_just_pressed && frame.cursor
                && hit is Some && hit.unwrap() < old(fractal).replicas@.len()) ==> {
                &&& final(fractal).replicas@ == old(fractal).replicas@.remove(hit.unwrap() as int)
                &&& stack_views(final(undo)@) == spec_push(stack_views(old(undo)@), old(fractal)@)
                &&& final(placement).selected == spec_selection_after_removal(old(placement).selected, hit.unwrap())
                &&& final(placement).drag is Idle
            }
        }),
        (!frame.egui_wants_pointer && frame.just_pressed && frame.cursor && !frame.right_just_pressed && spec_plan_drag_start(
            old(placement).selected,
            press_hits(frame.left@),
        ) is Grab) ==> {
            &&& final(fractal)@ == old(fractal)@
            &&& stack_views(final(undo)@) == spec_push(stack_views(old(undo)@), old(fractal)@)
            &&& final(placement).selected == Some(spec_plan_drag_start(old(placement).selected, press_hits(frame.left@))->Grab_0)
        },
{
    let ghost w = (old(fractal)@, stack_views(old(undo)@));
    let effects = placement_press_step(placement, frame);
    apply_placement_effects(&effects, fractal, undo, None, None);
    proof {
        lemma_apply_placement_keeps_shape(w, effects@, None, None);
        let hit = last_hit_before(frame.right_hits@, None, frame.right_hits@.len() as int);
        lemma_apply_placement_short(w, PlacementEffect::RecordUndo, PlacementEffect::RecordUndo, None, None);
        if hit is Some {
            lemma_apply_placement_short(
                w,
                PlacementEffect::RecordUndo,
                PlacementEffect::RemoveReplica(hit.unwrap()),
                None,
                None,
            );
            assert(Seq::<PlacementEffect>::empty() + seq![
                PlacementEffect::RecordUndo,
                PlacementEffect::RemoveReplica(hit.unwrap()),
            ] =~= seq![PlacementEffect::RecordUndo, PlacementEffect::RemoveReplica(hit.unwrap())]);
        }
    }
}

/// One whole frame of the Placement canvas: the keys ([`placement_keys_update`]) and,
/// unless they end the frame, the held or released button ([`placement_drag_update`]) and
/// the presses ([`placement_press_update`]), each measured by the caller (`measure_drag`,
/// `measure_press`: the floating-point distances and hit tests) on the fractal and the
/// selection state the previous step left.
pub fn placement_frame<
    P: Copy,
    S: Copy,
    L: Copy,
    R: Copy,
    F1: Fn(R) -> R,
    F2: Fn(R, PlacementDrag<P, S>) -> R,
    M1: FnOnce(&FractalState<L, R>, &PlacementState<P, S, R>) -> PlacementDragFrame,
    M2: FnOnce(&FractalState<L, R>, &PlacementState<P, S, R>) -> PlacementPressFrame<P, S>,
>(
    fractal: &mut FractalState<L, R>,
    undo: &mut UndoStack<FractalState<L, R>>,
    placement: &mut PlacementState<P, S, R>,
    keys: &PlacementKeys,
    offset: F1,
    drag_to: F2,
    measure_drag: M1,
    measure_press: M2,
)
    requires
        forall|r: R| offset.requires((r,)),
        forall|r: R, d: PlacementDrag<P, S>| drag_to.requires((r, d)),
        forall|f: &FractalState<L, R>, p: &PlacementState<P, S, R>| measure_drag.requires((f, p)),
        forall|f: &FractalState<L, R>, p: &PlacementState<P, S, R>| measure_press.requires((f, p)),
    ensures
        exists|f1: FractalState<L, R>, p1: PlacementState<P, S, R>, u1: UndoView<FractalView<L, R>>, done: bool|
            #[trigger] placement_keys_rel(
                *old(placement),
                (old(fractal)@, stack_views(old(undo)@)),
                *keys,
                offset,
                p1,
                (f1@, u1),
                done,
            ) && (done ==> *final(placement) == p1 && final(fractal)@ == f1@ && stack_views(final(undo)@) == u1)
                && (!done ==> exists|
                df: PlacementDragFrame,
                f2: FractalState<L, R>,
                p2: PlacementState<P, S, R>,
                u2: UndoView<FractalView<L, R>>,
                pf: PlacementPressFrame<P, S>,
            |
                #![trigger measure_drag.ensures((&f1, &p1), df), placement_drag_rel(p1, (f1@, u1), df, drag_to, p2, (f2@, u2)), measure_press.ensures((&f2, &p2), pf)]
                measure_drag.ensures((&f1, &p1), df) && placement_drag_rel(
                    p1,
                    (f1@, u1),
                    df,
                    drag_to,
                    p2,
                    (f2@, u2),
                ) && measure_press.ensures((&f2, &p2), pf) && placement_press_rel(
                    p2,
                    (f2@, u2),
                    pf,
                    *final(placement),
                    (final(fractal)@, stack_views(final(undo)@)),
                )),
{
    let done = placement_keys_update(fractal, undo, placement, keys, offset);
    let ghost f1: FractalState<L, R> = *fractal;
    let ghost p1: PlacementState<P, S, R> = *placement;
    let ghost u1 = stack_views(undo@);
    if done {
        proof {
            assert(placement_keys_rel(
                *old(placement),
                (old(fractal)@, stack_views(old(undo)@)),
                *keys,
                offset,
                p1,
                (f1@, u1),
                done,
            ));
        }
        return;
    }
    let df = measure_drag(&*fractal, &*placement);
    placement_drag_update(fractal, undo, placement, &df, drag_to);
    let ghost f2: FractalState<L, R> = *fractal;
    let ghost p2: PlacementState<P, S, R> = *placement;
    let ghost u2 = stack_views(undo@);
    let pf = measure_press(&*fractal, &*placement);
    placement_press_update(fractal, undo, placement, &pf);
    proof {
        assert(placement_keys_rel(
            *old(placement),
            (old(fractal)@, stack_views(old(undo)@)),
            *keys,
            offset,
            p1,
            (f1@, u1),
            done,
        ));
        assert(measure_drag.ensures((&f1, &p1), df));
        assert(placement_drag_rel(p1, (f1@, u1), df, drag_to, p2, (f2@, u2)));
        assert(measure_press.ensures((&f2, &p2), pf));
        assert(placement_press_rel(p2, (f2@, u2), pf, *placement, (fractal@, stack_views(undo@))));
    }
}

/// Law: Ctrl+C copies the selected replica. With a valid selection, Ctrl and C (no
/// Escape or Delete, the keyboard not taken by the UI), the copied replica is the
/// selected one, and a paste in the same frame appends what the paste offset makes of it.
pub proof fn law_copy_takes_the_selected_replica<P, S, C>(
    selected: Option<usize>,
    drag: PlacementDrag<P, S>,
    clipboard: Option<C>,
    replicas: Seq<C>,
    keys: PlacementKeys,
)
    requires
        keys.ctrl,
        keys.copy_key,
        !keys.escape,
        !keys.delete_key,
        !keys.egui_wants_keyboard,
        selected is Some,
        selected.unwrap() < replicas.len(),
    ensures
        spec_placement_keys(selected, drag, clipboard, replicas, keys).2 == Some(replicas[selected.unwrap() as int]),
        !keys.paste_key ==> spec_placement_keys(selected, drag, clipboard, replicas, keys).3.len() == 0,
        !keys.paste_key ==> spec_placement_keys(selected, drag, clipboard, replicas, keys).0 == selected,
{
}

/// Law: while the UI has the keyboard (a text field is focused), Ctrl+C and Ctrl+V do
/// nothing: short of Escape and Delete, the key step makes no change to the fractal, and
/// the selection and the copied replica stay as they were.
pub proof fn law_keys_ignored_while_typing<P, S, C>(
    selected: Option<usize>,
    drag: PlacementDrag<P, S>,
    clipboard: Option<C>,
    replicas: Seq<C>,
    keys: PlacementKeys,
)
    requires
        keys.egui_wants_keyboard,
        !keys.escape,
        !keys.delete_key,
    ensures
        spec_placement_keys(selected, drag, clipboard, replicas, keys).3.len() == 0,
        spec_placement_keys(selected, drag, clipboard, replicas, keys).0 == selected,
        spec_placement_keys(selected, drag, clipboard, replicas, keys).2 == clipboard,
        !spec_placement_keys(selected, drag, clipboard, replicas, keys).4,
{
}

/// Law: a press on empty canvas becomes a rotation only once the cursor has been dragged
/// past the threshold. Below it, holding the button keeps the rotation pending and records
/// nothing for undo, and releasing it (a plain click) clears the selection and ends the
/// drag.
pub proof fn law_pending_rotation_needs_the_threshold<P, S>(
    selected: Option<usize>,
    drag: PlacementDrag<P, S>,
    frame: PlacementDragFrame,
)
    requires
        drag is RotatePending,
        !frame.rotation_threshold_passed,
    ensures
        spec_promote_rotation(drag, frame) == (drag, Seq::<PlacementEffect>::empty()),
        !frame.just_released ==> spec_placement_drag(selected, drag, frame).1 == drag,
        !frame.just_released ==> spec_placement_drag(selected, drag, frame).0 == selected,
        forall|k: int|
            0 <= k < spec_placement_drag(selected, drag, frame).2.len() ==> #[trigger] spec_placement_drag(
                selected,
                drag,
                frame,
            ).2[k] == PlacementEffect::ApplyDrag,
        frame.just_released ==> spec_placement_drag(selected, drag, frame).0 is None,
        frame.just_released ==> spec_placement_drag(selected, drag, frame).1 is Idle,
{
}

} // verus!
