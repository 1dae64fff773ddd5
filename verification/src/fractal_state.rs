//! The fractal definition that is edited, saved and shared: a base shape (a list of
//! segments), the replicas applied at every recursion step, the recursion depth and
//! whether intermediate generations are drawn.
//!
//! The state is generic over the segment type `L` and the replica type `R`: the rules
//! here (the depth budget, replacing a whole definition) read only the counts, the depth
//! and the drawing mode, never the coordinates.
use crate::budget::{
    fits_budget, max_depth_for_budget, spec_max_depth_for_budget, MAX_LINE_SEGMENTS,
    MAX_RECURSION_NODES,
};
use crate::fractal_line_walk::{
    count_draws, count_enters, law_walk_events_counted, law_walk_matches_budget_estimates, walk_draws,
    walk_events, walk_nodes,
};
use vstd::prelude::*;

verus! {

/// The base shape: the segments the recursion draws, in order.
pub struct BaseShape<L> {
    /// The segments. An empty list is a shape that has not been drawn yet.
    pub lines: Vec<L>,
}

/// The whole fractal definition: base shape, replicas (one per branch of the recursion),
/// depth (1 = the base shape only) and whether intermediate generations are drawn.
pub struct FractalState<L, R> {
    /// The shape drawn at the nodes of the recursion.
    pub base_shape: BaseShape<L>,
    /// The similarity transforms applied at each recursion step.
    pub replicas: Vec<R>,
    /// Recursion depth; 1 draws the base shape alone, 2 and more apply the replicas.
    pub depth: u32,
    /// When true, every generation is drawn, not only the last one.
    pub show_all_generations: bool,
}

/// What a fractal definition holds: its segments, its replicas, its depth and whether all
/// generations are drawn.
pub type FractalView<L, R> = (Seq<L>, Seq<R>, u32, bool);

impl<L, R> View for FractalState<L, R> {
    type V = FractalView<L, R>;

    open spec fn view(&self) -> FractalView<L, R> {
        (self.base_shape.lines@, self.replicas@, self.depth, self.show_all_generations)
    }
}

/// A copy of a fractal definition (for the undo history).
pub fn copy_state<L: Copy, R: Copy>(state: &FractalState<L, R>) -> (res: FractalState<L, R>)
    ensures
        res@ == state@,
{
    let mut lines: Vec<L> = Vec::new();
    let mut i: usize = 0;
    while i < state.base_shape.lines.len()
        invariant
            i <= state.base_shape.lines@.len(),
            lines@ == state.base_shape.lines@.take(i as int),
        decreases state.base_shape.lines@.len() - i,
    {
        lines.push(state.base_shape.lines[i]);
        i = i + 1;
        proof {
            assert(lines@ =~= state.base_shape.lines@.take(i as int));
        }
    }
    let mut replicas: Vec<R> = Vec::new();
    let mut j: usize = 0;
    while j < state.replicas.len()
        invariant
            j <= state.replicas@.len(),
            replicas@ == state.replicas@.take(j as int),
        decreases state.replicas@.len() - j,
    {
        replicas.push(state.replicas[j]);
        j = j + 1;
        proof {
            assert(replicas@ =~= state.replicas@.take(j as int));
        }
    }
    proof {
        assert(lines@ =~= state.base_shape.lines@);
        assert(replicas@ =~= state.replicas@);
    }
    FractalState {
        base_shape: BaseShape { lines },
        replicas,
        depth: state.depth,
        show_all_generations: state.show_all_generations,
    }
}

/// The depth value kept by [`clamp_fractal_state_depth`]: `depth` limited to `cap`, and at least 1.
pub open spec fn clamped_depth(depth: int, cap: int) -> int {
    if depth > cap {
        if cap < 1 {
            1
        } else {
            cap
        }
    } else if depth < 1 {
        1
    } else {
        depth
    }
}

/// The depth budget of a state: [`max_depth_for_budget`] for its segment and replica counts.
pub open spec fn state_depth_cap<L, R>(state: FractalState<L, R>) -> int {
    spec_max_depth_for_budget(
        state.base_shape.lines.len() as int,
        state.replicas.len() as int,
        state.show_all_generations,
    )
}

impl<L, R> Default for FractalState<L, R> {
    /// The initial state: no segments, no replicas, depth 4, leaves only.
    fn default() -> (res: Self)
        ensures
            res.base_shape.lines@.len() == 0,
            res.replicas@.len() == 0,
            res.depth == 4,
            !res.show_all_generations,
    {
        FractalState {
            base_shape: BaseShape { lines: Vec::new() },
            replicas: Vec::new(),
            depth: 4,
            show_all_generations: false,
        }
    }
}

/// Brings `depth` into `[1, cap]`, where `cap` is the budget depth for the current base
/// shape, replica count and drawing mode. Nothing but `depth` changes.
pub fn clamp_fractal_state_depth<L, R>(state: &mut FractalState<L, R>)
    ensures
        final(state).base_shape == old(state).base_shape,
        final(state).replicas == old(state).replicas,
        final(state).show_all_generations == old(state).show_all_generations,
        final(state).depth == clamped_depth(old(state).depth as int, state_depth_cap(*old(state))),
        1 <= final(state).depth <= state_depth_cap(*old(state)),
{
    let cap = max_depth_for_budget(
        state.base_shape.lines.len(),
        state.replicas.len(),
        state.show_all_generations,
    );
    let d = state.depth;
    let limited = if d > cap {
        cap
    } else {
        d
    };
    state.depth = if limited < 1 {
        1
    } else {
        limited
    };
}

/// Lowers `depth` to the budget depth when it is above it (the step run just before the
/// mesh is rebuilt); a depth within the budget, even 0, is left as it is.
pub fn clamp_fractal_depth_to_budget<L, R>(state: &mut FractalState<L, R>)
    ensures
        final(state).base_shape == old(state).base_shape,
        final(state).replicas == old(state).replicas,
        final(state).show_all_generations == old(state).show_all_generations,
        final(state).depth == (if old(state).depth > state_depth_cap(*old(state)) {
            state_depth_cap(*old(state))
        } else {
            old(state).depth as int
        }),
{
    let cap = max_depth_for_budget(
        state.base_shape.lines.len(),
        state.replicas.len(),
        state.show_all_generations,
    );
    if state.depth > cap {
        state.depth = cap;
    }
}

/// Replaces the whole fractal definition (a preset, a decoded link) and brings the new
/// depth within the budget.
pub fn replace_fractal_state<L, R>(state: &mut FractalState<L, R>, new_state: FractalState<L, R>)
    ensures
        final(state).base_shape == new_state.base_shape,
        final(state).replicas == new_state.replicas,
        final(state).show_all_generations == new_state.show_all_generations,
        final(state).depth == clamped_depth(new_state.depth as int, state_depth_cap(new_state)),
{
    *state = new_state;
    clamp_fractal_state_depth(state);
}

/// Law: clamping is idempotent; a clamped depth is left as it is by a second clamp.
pub proof fn law_clamp_idempotent(depth: int, cap: int)
    requires
        cap >= 1,
    ensures
        clamped_depth(clamped_depth(depth, cap), cap) == clamped_depth(depth, cap),
{
}

/// Law: a state whose depth has been clamped never makes the walk exceed the budget.
/// With at least one replica and a clamped depth above 1, the walk visits at most
/// [`MAX_RECURSION_NODES`] nodes and writes at most [`MAX_LINE_SEGMENTS`] segments
/// (the base shape's segments at every draw); in particular the steps that
/// [`crate::fractal_line_walk::FractalWalk`] yields for the state stay within both.
/// Depth 1, the base shape alone, is always allowed.
pub proof fn law_clamped_state_walk_within_budget<L, R>(state: FractalState<L, R>)
    requires
        state.replicas.len() >= 1,
        state.depth >= 2,
        state.depth <= state_depth_cap(state),
    ensures
        walk_nodes(state.depth as nat, state.replicas.len() as nat) <= MAX_RECURSION_NODES,
        state.base_shape.lines.len() * walk_draws(
            state.depth as nat,
            state.replicas.len() as nat,
            state.show_all_generations,
        ) <= MAX_LINE_SEGMENTS,
        count_enters(walk_events(state.depth as nat, state.replicas.len() as nat, state.show_all_generations))
            + 1 <= MAX_RECURSION_NODES,
        state.base_shape.lines.len() * count_draws(
            walk_events(state.depth as nat, state.replicas.len() as nat, state.show_all_generations),
        ) <= MAX_LINE_SEGMENTS,
{
    let l = state.base_shape.lines.len() as int;
    let r = state.replicas.len() as int;
    let s = state.show_all_generations;
    let d = state.depth as nat;
    crate::budget::lemma_budget_depth_fits(l, r, s);
    assert(fits_budget(l, r, s, d));
    law_walk_matches_budget_estimates(d, r as nat, s);
    law_walk_events_counted(d, r as nat, s);
}

} // verus!
