use fractalium::fractal_state::clamp_fractal_depth_to_budget;
use fractalium::budget::{line_draw_invocations, max_depth_for_budget, recursion_node_count};
use fractalium::fractal_line_walk::{walk_events_vec, walk_node, FractalWalk, WalkEvent};
use fractalium::fractal_line_walk::WalkEvent::{Draw, Enter, Leave};
use fractalium::fractal_state::{
    clamp_fractal_state_depth, replace_fractal_state, BaseShape, FractalState,
};

fn walk_counts(depth: u32, replicas: usize, show_all: bool) -> (u64, u64) {
    let node = walk_node(depth, replicas, show_all);
    let mut nodes = 1u64;
    let mut draws = if node.draws_here { 1u64 } else { 0 };
    if node.descends {
        for _ in 0..replicas {
            let (n, d) = walk_counts(depth - 1, replicas, show_all);
            nodes += n;
            draws += d;
        }
    }
    (nodes, draws)
}

#[test]
fn walk_node_decisions() {
    let leaf = walk_node(1, 3, false);
    assert!(leaf.draws_here && !leaf.descends);
    let no_replicas = walk_node(5, 0, false);
    assert!(no_replicas.draws_here && !no_replicas.descends);
    let inner = walk_node(4, 3, false);
    assert!(!inner.draws_here && inner.descends);
    let inner_all = walk_node(4, 3, true);
    assert!(inner_all.draws_here && inner_all.descends);
}

#[test]
fn walk_counts_match_budget_estimates() {
    for r in 1..4usize {
        for d in 1..6u32 {
            for show in [false, true] {
                let (nodes, draws) = walk_counts(d, r, show);
                assert_eq!(Some(nodes), recursion_node_count(r as u64, d));
                assert_eq!(Some(draws), line_draw_invocations(r as u64, d, show));
            }
        }
    }
}

fn state(lines: usize, replicas: usize, depth: u32, show: bool) -> FractalState<u8, u8> {
    FractalState {
        base_shape: BaseShape { lines: vec![0u8; lines] },
        replicas: vec![0u8; replicas],
        depth,
        show_all_generations: show,
    }
}

#[test]
fn default_state_is_empty_depth_four() {
    let s: FractalState<u8, u8> = FractalState::default();
    assert!(s.base_shape.lines.is_empty());
    assert!(s.replicas.is_empty());
    assert_eq!(s.depth, 4);
    assert!(!s.show_all_generations);
}

#[test]
fn clamp_limits_depth_to_budget() {
    let mut s = state(1, 8, 30, false);
    clamp_fractal_state_depth(&mut s);
    assert_eq!(s.depth, 7);
    assert_eq!(s.base_shape.lines.len(), 1);
    assert_eq!(s.replicas.len(), 8);
    let mut z = state(3, 2, 0, false);
    clamp_fractal_state_depth(&mut z);
    assert_eq!(z.depth, 1);
    let mut ok = state(3, 2, 5, true);
    clamp_fractal_state_depth(&mut ok);
    assert_eq!(ok.depth, 5);
    // clamping twice changes nothing more
    let before = s.depth;
    clamp_fractal_state_depth(&mut s);
    assert_eq!(s.depth, before);
}

#[test]
fn clamped_walk_stays_within_budget() {
    let mut s = state(4, 3, 100, true);
    clamp_fractal_state_depth(&mut s);
    let (nodes, draws) = walk_counts(s.depth, 3, true);
    assert!(nodes <= fractalium::budget::MAX_RECURSION_NODES);
    assert!(4 * draws <= fractalium::budget::MAX_LINE_SEGMENTS);
    assert_eq!(s.depth, max_depth_for_budget(4, 3, true));
}

#[test]
fn replace_takes_new_definition_and_clamps() {
    let mut s = state(1, 1, 3, false);
    replace_fractal_state(&mut s, state(2, 8, 40, false));
    assert_eq!(s.base_shape.lines.len(), 2);
    assert_eq!(s.replicas.len(), 8);
    assert_eq!(s.depth, max_depth_for_budget(2, 8, false));
}

#[test]
fn pre_mesh_step_only_lowers_depth() {
    let mut s = state(1, 8, 30, false);
    clamp_fractal_depth_to_budget(&mut s);
    assert_eq!(s.depth, 7);
    let mut z = state(1, 8, 0, false);
    clamp_fractal_depth_to_budget(&mut z);
    assert_eq!(z.depth, 0);
    let mut ok = state(1, 8, 5, false);
    clamp_fractal_depth_to_budget(&mut ok);
    assert_eq!(ok.depth, 5);
}

/// The steps of a walk, driven one at a time, and the path of replica indices at each
/// drawing step.
struct Recorder {
    events: Vec<WalkEvent>,
    path: Vec<usize>,
    drawn_at: Vec<Vec<usize>>,
}

fn record(depth: u32, replicas: usize, show_all: bool) -> Recorder {
    let mut r = Recorder { events: vec![], path: vec![], drawn_at: vec![] };
    let mut walk = FractalWalk::new(depth, replicas, show_all);
    while !walk.is_finished() {
        if let Some(e) = walk.next_event() {
            match e {
                Draw => r.drawn_at.push(r.path.clone()),
                Enter(i) => r.path.push(i),
                Leave => {
                    r.path.pop();
                }
            }
            r.events.push(e);
        }
    }
    assert_eq!(walk.next_event(), None);
    assert_eq!(r.events, walk_events_vec(depth, replicas, show_all));
    r
}

#[test]
fn walk_visits_children_in_replica_order() {
    let r = record(3, 2, false);
    assert_eq!(
        r.events,
        vec![
            Enter(0), Enter(0), Draw, Leave, Enter(1), Draw, Leave, Leave,
            Enter(1), Enter(0), Draw, Leave, Enter(1), Draw, Leave, Leave,
        ]
    );
    assert_eq!(r.drawn_at, vec![vec![0, 0], vec![0, 1], vec![1, 0], vec![1, 1]]);
    // all generations: every node draws before its children
    let r = record(2, 2, true);
    assert_eq!(r.events, vec![Draw, Enter(0), Draw, Leave, Enter(1), Draw, Leave]);
    // a leaf root draws the base shape once
    assert_eq!(record(1, 5, false).events, vec![Draw]);
    assert_eq!(record(7, 0, false).events, vec![Draw]);
    assert_eq!(record(0, 3, true).events, vec![Draw]);
}

#[test]
fn walk_steps_match_budget_counts() {
    for &(depth, replicas, show_all) in &[(1u32, 3usize, false), (4, 3, false), (4, 3, true), (6, 2, true), (5, 1, false)] {
        let r = record(depth, replicas, show_all);
        let draws = r.events.iter().filter(|e| **e == Draw).count() as u64;
        let enters = r.events.iter().filter(|e| matches!(e, WalkEvent::Enter(_))).count() as u64;
        assert_eq!(Some(draws), line_draw_invocations(replicas as u64, depth, show_all));
        assert_eq!(Some(enters + 1), recursion_node_count(replicas as u64, depth));
    }
}

#[test]
fn walk_steps_are_well_nested() {
    for &(depth, replicas, show_all) in &[(5u32, 3usize, false), (4, 2, true), (1, 4, true), (3, 1, false)] {
        let r = record(depth, replicas, show_all);
        let mut level: i64 = 0;
        for e in &r.events {
            match e {
                Enter(_) => level += 1,
                Leave => level -= 1,
                Draw => {}
            }
            assert!(level >= 0);
        }
        assert_eq!(level, 0);
        assert!(r.path.is_empty());
    }
}
