//! Rules that change several parts of the editing session at once, such as loading a
//! whole new fractal from the preset menu.
use crate::edit_state::DrawState;
use crate::fractal_state::{clamp_fractal_state_depth, clamped_depth, copy_state, state_depth_cap, FractalState};
use crate::placement_rules::PlacementState;
use crate::undo::{lemma_push_views, spec_push, stack_views, UndoStack};
use vstd::prelude::*;

verus! {

/// Set when the result canvas is to be fitted again to the fractal (after a new fractal
/// has been loaded).
pub struct PendingResultCameraFit(pub bool);

/// Loads a whole new fractal in one step, with the side effects of every preset entry:
/// the current fractal is recorded for undo, `choice` (what a preset built) or, for
/// `None`, the empty default fractal replaces it with its depth brought within the
/// budget, the Edit canvas goes back to idle, the Placement selection and drag are
/// cleared (the copied replica stays) and the result canvas is fitted again.
pub fn apply_whole_fractal_preset<L, R, P, Q, S, C>(
    choice: Option<FractalState<L, R>>,
    fractal: &mut FractalState<L, R>,
    undo: &mut UndoStack<FractalState<L, R>>,
    draw: &mut DrawState<P>,
    placement: &mut PlacementState<Q, S, C>,
    pending_result_fit: &mut PendingResultCameraFit,
)
    ensures
        final(undo)@ == spec_push(old(undo)@, *old(fractal)),
        choice matches Some(next) ==> {
            &&& final(fractal).base_shape == next.base_shape
            &&& final(fractal).replicas == next.replicas
            &&& final(fractal).show_all_generations == next.show_all_generations
            &&& final(fractal).depth == clamped_depth(next.depth as int, state_depth_cap(next))
        },
        choice is None ==> {
            &&& final(fractal).base_shape.lines@.len() == 0
            &&& final(fractal).replicas@.len() == 0
            &&& !final(fractal).show_all_generations
            &&& final(fractal).depth == 4
        },
        *final(draw) is Idle,
        final(placement).selected is None,
        final(placement).drag is Idle,
        final(placement).clipboard == old(placement).clipboard,
        final(pending_result_fit).0,
{
    let mut previous = match choice {
        Some(next) => next,
        None => FractalState::default(),
    };
    std::mem::swap(&mut previous, fractal);
    clamp_fractal_state_depth(fractal);
    undo.push(previous);
    *draw = DrawState::Idle;
    placement.deselect();
    pending_result_fit.0 = true;
}

/// Records a copy of the current fractal as the newest undo entry.
pub fn record_undo<L: Copy, R: Copy>(fractal: &FractalState<L, R>, undo: &mut UndoStack<FractalState<L, R>>)
    ensures
        stack_views(final(undo)@) == spec_push(stack_views(old(undo)@), fractal@),
{
    let copy = copy_state(fractal);
    undo.push(copy);
    proof {
        lemma_push_views(old(undo)@, copy);
    }
}

} // verus!
