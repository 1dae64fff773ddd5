use fractalium::budget::{max_depth_for_limits, native_budget_limits, web_budget_limits};
use fractalium::budget::{
    line_draw_invocations, max_depth_for_budget, recursion_node_count, FRACTAL_DEPTH_HARD_CAP,
    MAX_LINE_SEGMENTS, MAX_RECURSION_NODES,
};

#[test]
fn budget_empty_replicas_allows_abs_max_depth() {
    assert_eq!(max_depth_for_budget(100, 0, true), FRACTAL_DEPTH_HARD_CAP);
}

#[test]
fn budget_high_branching_clamps_below_hard_cap() {
    let d = max_depth_for_budget(1, 8, false);
    assert!(d < FRACTAL_DEPTH_HARD_CAP);
    assert!(d >= 1);
    let nodes = recursion_node_count(8, d).expect("nodes");
    assert!(nodes <= MAX_RECURSION_NODES);
}

#[test]
fn budget_two_replicas_allow_depth_above_twelve_within_budget() {
    let d = max_depth_for_budget(1, 2, false);
    assert!(d > 12);
    assert!(d <= FRACTAL_DEPTH_HARD_CAP);
}

#[test]
fn recursion_node_count_geometric_series() {
    assert_eq!(recursion_node_count(3, 4), Some(1 + 3 + 9 + 27));
}

#[test]
fn line_draw_invocations_leaf_only() {
    assert_eq!(line_draw_invocations(5, 3, false), Some(25));
}

#[test]
fn fractal_empty_replicas_allows_abs_max_depth() {
    assert_eq!(max_depth_for_budget(100, 0, true), FRACTAL_DEPTH_HARD_CAP);
}

#[test]
fn fractal_high_branching_clamps_below_hard_cap() {
    let d = max_depth_for_budget(1, 8, false);
    assert!(d < FRACTAL_DEPTH_HARD_CAP);
    assert!(d >= 1);
    let nodes = recursion_node_count(8, d).expect("nodes");
    assert!(nodes <= MAX_RECURSION_NODES);
}

#[test]
fn fractal_two_replicas_allow_depth_above_twelve_within_budget() {
    let d = max_depth_for_budget(1, 2, false);
    assert!(d > 12);
    assert!(d <= FRACTAL_DEPTH_HARD_CAP);
}

#[test]
fn recursion_node_count_edge_cases() {
    assert_eq!(recursion_node_count(0, 5), None);
    assert_eq!(recursion_node_count(3, 0), None);
    assert_eq!(recursion_node_count(1, 2048), Some(2048));
    assert_eq!(recursion_node_count(2, 63), Some((1u64 << 63) - 1));
    // 2^64 no longer fits, although the sum 2^64 - 1 would
    assert_eq!(recursion_node_count(2, 64), None);
    assert_eq!(recursion_node_count(1 << 32, 2), None);
    assert_eq!(recursion_node_count(u64::MAX, 1), Some(1));
}

#[test]
fn line_draw_invocations_edge_cases() {
    assert_eq!(line_draw_invocations(5, 0, true), Some(0));
    assert_eq!(line_draw_invocations(5, 1, false), Some(1));
    assert_eq!(line_draw_invocations(3, 4, true), Some(40));
    assert_eq!(line_draw_invocations(0, 3, false), Some(0));
    assert_eq!(line_draw_invocations(0, 3, true), None);
    assert_eq!(line_draw_invocations(2, 65, false), None);
    assert_eq!(line_draw_invocations(2, 64, false), Some(1u64 << 63));
}

#[test]
fn max_depth_exact_values() {
    // 8 replicas, leaves only: nodes 1+8+...+8^(d-1); d = 7 gives 299593, d = 8 gives 2396745
    assert_eq!(max_depth_for_budget(1, 8, false), 7);
    // one segment, two replicas: nodes 2^d - 1 <= 2_000_000 up to d = 20
    assert_eq!(max_depth_for_budget(1, 2, false), 20);
    // a single replica is a chain: nodes = depth, the hard cap decides
    assert_eq!(max_depth_for_budget(1, 1, true), FRACTAL_DEPTH_HARD_CAP);
    // too many segments even for depth 1 still gives 1
    assert_eq!(max_depth_for_budget(2_000_000, 2, false), 1);
}

#[test]
fn max_depth_segments_budget_binds() {
    // 1000 segments, 2 replicas, leaves only: 1000 * 2^(d-1) <= 1_500_000 up to d = 11
    let d = max_depth_for_budget(1000, 2, false);
    assert_eq!(d, 11);
    assert!(1000 * line_draw_invocations(2, d, false).unwrap() <= MAX_LINE_SEGMENTS);
    assert!(1000 * line_draw_invocations(2, d + 1, false).unwrap() > MAX_LINE_SEGMENTS);
}

#[test]
fn budget_laws_on_concrete_values() {
    // more segments never deeper
    assert!(max_depth_for_budget(10, 3, false) <= max_depth_for_budget(1, 3, false));
    // more replicas never deeper
    assert!(max_depth_for_budget(4, 5, false) <= max_depth_for_budget(4, 3, false));
    // all generations never deeper than leaves only
    assert!(max_depth_for_budget(4, 3, true) <= max_depth_for_budget(4, 3, false));
    assert_eq!(max_depth_for_budget(1, 2, true), 20);
    assert_eq!(max_depth_for_budget(100, 2, true), 13);
}

#[test]
fn budget_under_other_limits() {
    // 2 replicas, 1 segment, leaves only: 2^d - 1 nodes, 2^(d-1) segments
    assert_eq!(max_depth_for_limits(1, 2, false, native_budget_limits()), 20);
    assert_eq!(max_depth_for_budget(1, 2, false), 20);
    assert_eq!(max_depth_for_limits(1, 2, false, web_budget_limits()), 18);
    assert_eq!(max_depth_for_limits(3, 0, true, web_budget_limits()), 512);
    for &(l, r, g) in &[(1usize, 3usize, false), (40, 5, true), (7, 1, true), (0, 64, false)] {
        assert_eq!(max_depth_for_limits(l, r, g, native_budget_limits()), max_depth_for_budget(l, r, g));
    }
}
