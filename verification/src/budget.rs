//! Work budget of the recursive fractal expansion.
//!
//! Depth and branching make the number of visited nodes and of drawn segments grow
//! exponentially. Three limits bound them together: an absolute cap on `depth`
//! ([`FRACTAL_DEPTH_HARD_CAP`]), a cap on the visited recursion nodes
//! ([`MAX_RECURSION_NODES`]) and a cap on the segments written to the mesh
//! ([`MAX_LINE_SEGMENTS`]). [`max_depth_for_budget`] tries `depth = 1, 2, ...` and
//! stops at the first depth that breaks one of them.
use vstd::arithmetic::power::{lemma_pow_adds, lemma_pow_increases, lemma_pow_positive, pow};
use vstd::prelude::*;

verus! {

/// Absolute upper bound on `depth` accepted by the share format, the UI and the recursion.
pub const FRACTAL_DEPTH_HARD_CAP: u32 = 2048;

/// Budget on the number of recursion-tree nodes visited by one expansion.
pub const MAX_RECURSION_NODES: u64 = 2_000_000;

/// Budget on the number of line segments written to the dynamic mesh.
pub const MAX_LINE_SEGMENTS: u64 = 1_500_000;

/// Nodes of the complete `r`-ary tree of the given depth, walked generation by
/// generation: `r^0 + r^1 + ... + r^(depth-1)`.
pub open spec fn node_count(r: int, depth: nat) -> int
    decreases depth,
{
    if depth == 0 {
        0
    } else {
        node_count(r, (depth - 1) as nat) + pow(r, (depth - 1) as nat)
    }
}

/// Leaves of the complete `r`-ary tree of the given depth: `r^(depth-1)` (none at depth 0).
pub open spec fn leaf_count(r: int, depth: nat) -> int {
    if depth == 0 {
        0
    } else {
        pow(r, (depth - 1) as nat)
    }
}

/// How many times the base shape is drawn: at every node when all generations are
/// shown, at the leaves only otherwise.
pub open spec fn draw_count(r: int, depth: nat, show_all_generations: bool) -> int {
    if show_all_generations {
        node_count(r, depth)
    } else {
        leaf_count(r, depth)
    }
}

/// The value [`recursion_node_count`] returns: `None` for an empty tree (`r == 0` or
/// `depth == 0`) and where the running powers leave `u64`, the node count otherwise.
pub open spec fn spec_recursion_node_count(r: u64, depth: u32) -> Option<u64> {
    if r == 0 || depth == 0 {
        None
    } else if pow(r as int, depth as nat) > u64::MAX {
        None
    } else {
        Some(node_count(r as int, depth as nat) as u64)
    }
}

/// The value [`line_draw_invocations`] returns.
pub open spec fn spec_line_draw_invocations(r: u64, depth: u32, show_all_generations: bool) -> Option<u64> {
    if depth == 0 {
        Some(0)
    } else if show_all_generations {
        spec_recursion_node_count(r, depth)
    } else if leaf_count(r as int, depth as nat) > u64::MAX {
        None
    } else {
        Some(leaf_count(r as int, depth as nat) as u64)
    }
}

/// A depth fits the budget when the visited nodes stay within [`MAX_RECURSION_NODES`]
/// and the drawn segments (`lines` per draw) within [`MAX_LINE_SEGMENTS`].
pub open spec fn fits_budget(lines: int, r: int, show_all_generations: bool, depth: nat) -> bool {
    &&& node_count(r, depth) <= MAX_RECURSION_NODES
    &&& lines * draw_count(r, depth, show_all_generations) <= MAX_LINE_SEGMENTS
}

/// Every depth from 1 to `depth` fits the budget.
pub open spec fn fits_up_to(lines: int, r: int, show_all_generations: bool, depth: nat) -> bool {
    forall|k: nat| 1 <= k <= depth ==> #[trigger] fits_budget(lines, r, show_all_generations, k)
}

/// The deepest `d <= bound` such that every depth from 1 to `d` fits the budget (0 if none).
pub open spec fn deepest_fitting(lines: int, r: int, show_all_generations: bool, bound: nat) -> nat
    decreases bound,
{
    if bound == 0 {
        0
    } else if fits_up_to(lines, r, show_all_generations, bound) {
        bound
    } else {
        deepest_fitting(lines, r, show_all_generations, (bound - 1) as nat)
    }
}

/// The depth [`max_depth_for_budget`] allows: the hard cap when there are no replicas
/// (no recursion), otherwise the deepest depth up to the hard cap whose levels all fit
/// the budget, and at least 1.
pub open spec fn spec_max_depth_for_budget(lines: int, r: int, show_all_generations: bool) -> int {
    if r == 0 {
        FRACTAL_DEPTH_HARD_CAP as int
    } else {
        let d = deepest_fitting(lines, r, show_all_generations, FRACTAL_DEPTH_HARD_CAP as nat);
        if d == 0 {
            1
        } else {
            d as int
        }
    }
}

proof fn lemma_pow_step(r: int, e: nat)
    ensures
        pow(r, e + 1) == pow(r, e) * r,
{
    lemma_pow_adds(r, e, 1);
    vstd::arithmetic::power::lemma_pow1(r);
}

proof fn lemma_pow_nonneg(r: int, e: nat)
    requires
        r >= 0,
    ensures
        pow(r, e) >= 0,
    decreases e,
{
    if e == 0 {
        vstd::arithmetic::power::lemma_pow0(r);
    } else {
        lemma_pow_nonneg(r, (e - 1) as nat);
        lemma_pow_step(r, (e - 1) as nat);
        assert(pow(r, (e - 1) as nat) * r >= 0) by (nonlinear_arith)
            requires
                pow(r, (e - 1) as nat) >= 0,
                r >= 0,
        ;
    }
}

/// For `r >= 1` the powers of `r` do not decrease with the exponent.
proof fn lemma_pow_mono(r: int, e1: nat, e2: nat)
    requires
        r >= 1,
        e1 <= e2,
    ensures
        pow(r, e1) <= pow(r, e2),
{
    lemma_pow_increases(r as nat, e1, e2);
}

/// Powers with the same exponent do not decrease with a non-negative base.
proof fn lemma_pow_base_mono(a: int, b: int, e: nat)
    requires
        0 <= a <= b,
    ensures
        0 <= pow(a, e) <= pow(b, e),
    decreases e,
{
    if e == 0 {
        vstd::arithmetic::power::lemma_pow0(a);
        vstd::arithmetic::power::lemma_pow0(b);
    } else {
        let e1 = (e - 1) as nat;
        lemma_pow_base_mono(a, b, e1);
        lemma_pow_step(a, e1);
        lemma_pow_step(b, e1);
        let pa = pow(a, e1);
        let pb = pow(b, e1);
        assert(0 <= pa * a <= pb * b) by (nonlinear_arith)
            requires
                0 <= pa <= pb,
                0 <= a <= b,
        ;
    }
}

/// `node_count` is non-negative and does not decrease with the depth (`r >= 0`).
proof fn lemma_node_count_mono(r: int, d1: nat, d2: nat)
    requires
        r >= 0,
        d1 <= d2,
    ensures
        0 <= node_count(r, d1) <= node_count(r, d2),
    decreases d2,
{
    if d2 == 0 {
    } else if d1 == d2 {
        lemma_node_count_mono(r, 0, (d2 - 1) as nat);
        lemma_pow_nonneg(r, (d2 - 1) as nat);
    } else {
        lemma_node_count_mono(r, d1, (d2 - 1) as nat);
        lemma_pow_nonneg(r, (d2 - 1) as nat);
    }
}

/// `node_count` does not decrease with a non-negative branching factor.
proof fn lemma_node_count_base_mono(a: int, b: int, d: nat)
    requires
        0 <= a <= b,
    ensures
        node_count(a, d) <= node_count(b, d),
    decreases d,
{
    if d > 0 {
        lemma_node_count_base_mono(a, b, (d - 1) as nat);
        lemma_pow_base_mono(a, b, (d - 1) as nat);
    }
}

/// The closed form of the geometric sum: `(r - 1) * node_count(r, d) == r^d - 1`.
proof fn lemma_node_count_closed_form(r: int, d: nat)
    ensures
        (r - 1) * node_count(r, d) == pow(r, d) - 1,
    decreases d,
{
    if d == 0 {
        vstd::arithmetic::power::lemma_pow0(r);
    } else {
        let d1 = (d - 1) as nat;
        lemma_node_count_closed_form(r, d1);
        lemma_pow_step(r, d1);
        let n = node_count(r, d1);
        let p = pow(r, d1);
        assert((r - 1) * (n + p) == p * r - 1) by (nonlinear_arith)
            requires
                (r - 1) * n == p - 1,
        ;
    }
}

/// For `r >= 2` the node count stays below `r^d`.
proof fn lemma_node_count_below_pow(r: int, d: nat)
    requires
        r >= 2,
    ensures
        node_count(r, d) < pow(r, d),
{
    lemma_node_count_closed_form(r, d);
    lemma_node_count_mono(r, 0, d);
    let n = node_count(r, d);
    assert(n < (r - 1) * n + 1) by (nonlinear_arith)
        requires
            r >= 2,
            n >= 0,
    ;
}

/// The last generation is part of the walk: `node_count(r, d) >= leaf_count(r, d)` (`r >= 0`).
proof fn lemma_leaves_within_nodes(r: int, d: nat)
    requires
        r >= 0,
    ensures
        0 <= leaf_count(r, d) <= node_count(r, d),
{
    if d > 0 {
        lemma_node_count_mono(r, 0, (d - 1) as nat);
        lemma_pow_nonneg(r, (d - 1) as nat);
    }
}

/// With a single replica the tree is a chain: `node_count(1, d) == d`.
proof fn lemma_node_count_one(d: nat)
    ensures
        node_count(1, d) == d,
    decreases d,
{
    if d > 0 {
        lemma_node_count_one((d - 1) as nat);
        vstd::arithmetic::power::lemma1_pow((d - 1) as nat);
    }
}

/// A depth whose powers leave `u64` is far beyond the node budget.
proof fn lemma_overflow_exceeds_node_budget(r: int, d: nat)
    requires
        2 <= r <= u64::MAX,
        d >= 1,
        pow(r, d) > u64::MAX,
    ensures
        node_count(r, d) > MAX_RECURSION_NODES,
{
    let d1 = (d - 1) as nat;
    lemma_pow_step(r, d1);
    lemma_leaves_within_nodes(r, d);
    let p = pow(r, d1);
    lemma_pow_nonneg(r, d1);
    if p <= MAX_RECURSION_NODES {
        // then r itself is large, and the second generation already has r nodes
        assert(r > MAX_RECURSION_NODES) by (nonlinear_arith)
            requires
                p * r > u64::MAX,
                0 <= p <= MAX_RECURSION_NODES,
                r >= 0,
        ;
        if d1 == 0 {
            vstd::arithmetic::power::lemma_pow0(r);
            vstd::arithmetic::power::lemma_pow1(r);
        } else {
            lemma_node_count_mono(r, 2, d);
            vstd::arithmetic::power::lemma_pow0(r);
            vstd::arithmetic::power::lemma_pow1(r);
            assert(node_count(r, 2) == 1 + r) by {
                assert(node_count(r, 1) == node_count(r, 0) + pow(r, 0));
            }
        }
    }
}

/// Number of nodes visited when every generation of the complete `r`-ary tree of the
/// given depth is walked: `r^0 + ... + r^(depth-1)`.
///
/// Returns `None` when `r == 0` or `depth == 0` (no tree), and when the running powers
/// overflow `u64`.
pub fn recursion_node_count(r: u64, depth: u32) -> (res: Option<u64>)
    ensures
        res == spec_recursion_node_count(r, depth),
{
    if r == 0 || depth == 0 {
        return None;
    }
    if r == 1 {
        proof {
            lemma_node_count_one(depth as nat);
            vstd::arithmetic::power::lemma1_pow(depth as nat);
        }
        return Some(depth as u64);
    }
    let mut sum: u64 = 0;
    let mut term: u64 = 1;
    let mut i: u32 = 0;
    proof {
        vstd::arithmetic::power::lemma_pow0(r as int);
    }
    while i < depth
        invariant
            r >= 2,
            i <= depth,
            sum == node_count(r as int, i as nat),
            term == pow(r as int, i as nat),
        decreases depth - i,
    {
        proof {
            lemma_node_count_below_pow(r as int, (i + 1) as nat);
            lemma_pow_step(r as int, i as nat);
            lemma_pow_mono(r as int, (i + 1) as nat, depth as nat);
        }
        sum = match sum.checked_add(term) {
            Some(s) => s,
            None => {
                return None;
            },
        };
        term = match term.checked_mul(r) {
            Some(t) => t,
            None => {
                return None;
            },
        };
        i = i + 1;
    }
    Some(sum)
}

/// How many times the base shape's segments are put into the mesh: at every node when
/// `show_all_generations` holds, otherwise at the `r^(depth-1)` leaves only.
///
/// Returns `Some(0)` for `depth == 0`, and `None` where the count overflows `u64`
/// (or, with all generations shown, where [`recursion_node_count`] gives `None`).
pub fn line_draw_invocations(r: u64, depth: u32, show_all_generations: bool) -> (res: Option<u64>)
    ensures
        res == spec_line_draw_invocations(r, depth, show_all_generations),
{
    if depth < 1 {
        return Some(0);
    }
    if show_all_generations {
        recursion_node_count(r, depth)
    } else if depth == 1 {
        proof {
            vstd::arithmetic::power::lemma_pow0(r as int);
        }
        Some(1)
    } else {
        let mut t: u64 = 1;
        let mut i: u32 = 0;
        proof {
            vstd::arithmetic::power::lemma_pow0(r as int);
        }
        while i < depth - 1
            invariant
                depth >= 2,
                !show_all_generations,
                i <= depth - 1,
                t == pow(r as int, i as nat),
            decreases depth - 1 - i,
        {
            proof {
                lemma_pow_step(r as int, i as nat);
                if r >= 1 {
                    lemma_pow_mono(r as int, (i + 1) as nat, (depth - 1) as nat);
                } else {
                    assert(t * r == 0) by (nonlinear_arith)
                        requires
                            r == 0,
                    ;
                }
            }
            t = match t.checked_mul(r) {
                Some(v) => v,
                None => {
                    return None;
                },
            };
            i = i + 1;
        }
        Some(t)
    }
}

/// Ties the executable estimates at a depth `d >= 1` to [`fits_budget`].
proof fn lemma_estimates_decide_fit(l: u64, r: u64, show_all_generations: bool, d: u32)
    requires
        r >= 1,
        d >= 1,
    ensures
        spec_recursion_node_count(r, d) is None ==> !fits_budget(l as int, r as int, show_all_generations, d as nat),
        spec_recursion_node_count(r, d) matches Some(n) ==> n == node_count(r as int, d as nat),
        (spec_recursion_node_count(r, d) matches Some(n) && n <= MAX_RECURSION_NODES)
            ==> (spec_line_draw_invocations(r, d, show_all_generations) matches Some(w)
                && w == draw_count(r as int, d as nat, show_all_generations)),
{
    let ri = r as int;
    let dn = d as nat;
    lemma_leaves_within_nodes(ri, dn);
    if r >= 2 && pow(ri, dn) > u64::MAX {
        lemma_overflow_exceeds_node_budget(ri, dn);
    }
    if r == 1 {
        vstd::arithmetic::power::lemma1_pow(dn);
        lemma_node_count_one(dn);
    } else {
        lemma_node_count_below_pow(ri, dn);
    }
}

/// The largest recursion `depth` that keeps within the work budget, given the number of
/// base-shape segments, the number of replicas and whether intermediate generations are
/// drawn.
///
/// Without replicas there is no recursion and the hard cap is returned. Otherwise the
/// depths `1, 2, ...` are tried in turn and the last one before the first that visits
/// more than [`MAX_RECURSION_NODES`] nodes or draws more than [`MAX_LINE_SEGMENTS`]
/// segments is returned; the result lies in `1..=FRACTAL_DEPTH_HARD_CAP`.
pub fn max_depth_for_budget(base_line_count: usize, replica_count: usize, show_all_generations: bool) -> (res: u32)
    ensures
        res == spec_max_depth_for_budget(base_line_count as int, replica_count as int, show_all_generations),
        1 <= res <= FRACTAL_DEPTH_HARD_CAP,
        replica_count > 0 && res > 1 ==> fits_up_to(
            base_line_count as int,
            replica_count as int,
            show_all_generations,
            res as nat,
        ),
        replica_count > 0 && res < FRACTAL_DEPTH_HARD_CAP ==> !fits_budget(
            base_line_count as int,
            replica_count as int,
            show_all_generations,
            (res + 1) as nat,
        ),
{
    if replica_count == 0 {
        return FRACTAL_DEPTH_HARD_CAP;
    }
    let r = replica_count as u64;
    let l = base_line_count as u64;
    let ghost li = l as int;
    let ghost ri = r as int;

    let mut best: u32 = 1;
    let mut d: u32 = 1;
    while d <= FRACTAL_DEPTH_HARD_CAP
        invariant_except_break
            r >= 1,
            li == l as int,
            ri == r as int,
            1 <= d <= FRACTAL_DEPTH_HARD_CAP + 1,
            best == (if d == 1 { 1 } else { d - 1 }),
            fits_up_to(li, ri, show_all_generations, (d - 1) as nat),
        ensures
            1 <= d <= FRACTAL_DEPTH_HARD_CAP + 1,
            best == (if d == 1 { 1 } else { d - 1 }),
            fits_up_to(li, ri, show_all_generations, (d - 1) as nat),
            d <= FRACTAL_DEPTH_HARD_CAP ==> !fits_budget(li, ri, show_all_generations, d as nat),
        decreases FRACTAL_DEPTH_HARD_CAP + 1 - d,
    {
        proof {
            lemma_estimates_decide_fit(l, r, show_all_generations, d);
        }
        let nodes = match recursion_node_count(r, d) {
            Some(n) => n,
            None => {
                break;
            },
        };
        if nodes > MAX_RECURSION_NODES {
            break;
        }
        let draws = match line_draw_invocations(r, d, show_all_generations) {
            Some(w) => w,
            None => {
                break;
            },
        };
        let segments = match l.checked_mul(draws) {
            Some(v) => v,
            None => u64::MAX,
        };
        if segments > MAX_LINE_SEGMENTS {
            break;
        }
        best = d;
        d = d + 1;
        proof {
            assert forall|k: nat| 1 <= k <= (d - 1) as nat implies #[trigger] fits_budget(
                li,
                ri,
                show_all_generations,
                k,
            ) by {
                if k < (d - 1) as nat {
                    assert(fits_up_to(li, ri, show_all_generations, (d - 2) as nat));
                }
            }
        }
    }
    proof {
        lemma_deepest_fitting_is(li, ri, show_all_generations, FRACTAL_DEPTH_HARD_CAP as nat, (d - 1) as nat);
        if d == 1 && fits_budget(li, ri, show_all_generations, 2) {
            law_fits_budget_downward_closed(li, ri, show_all_generations, 1, 2);
        }
    }
    best
}

/// `deepest_fitting(bound)` is `m` when every depth up to `m` fits and depth `m + 1`
/// (if within the bound) does not.
proof fn lemma_deepest_fitting_is(l: int, r: int, show: bool, bound: nat, m: nat)
    requires
        m <= bound,
        fits_up_to(l, r, show, m),
        m < bound ==> !fits_budget(l, r, show, m + 1),
    ensures
        deepest_fitting(l, r, show, bound) == m,
    decreases bound,
{
    if bound == m {
        if m > 0 {
            assert(fits_up_to(l, r, show, bound));
        }
    } else {
        assert(!fits_up_to(l, r, show, bound)) by {
            assert(!fits_budget(l, r, show, m + 1));
        }
        lemma_deepest_fitting_is(l, r, show, (bound - 1) as nat, m);
    }
}


proof fn lemma_deepest_fitting_bounded(l: int, r: int, show: bool, bound: nat)
    ensures
        deepest_fitting(l, r, show, bound) <= bound,
    decreases bound,
{
    if bound > 0 {
        lemma_deepest_fitting_bounded(l, r, show, (bound - 1) as nat);
    }
}

/// If every depth that fits budget `a` also fits budget `b`, budget `b` allows at least
/// as deep an expansion as budget `a`.
proof fn lemma_deepest_fitting_mono(
    la: int,
    ra: int,
    sa: bool,
    lb: int,
    rb: int,
    sb: bool,
    bound: nat,
)
    requires
        forall|k: nat| 1 <= k <= bound && #[trigger] fits_budget(la, ra, sa, k) ==> fits_budget(lb, rb, sb, k),
    ensures
        deepest_fitting(la, ra, sa, bound) <= deepest_fitting(lb, rb, sb, bound),
    decreases bound,
{
    if bound > 0 {
        let b1 = (bound - 1) as nat;
        lemma_deepest_fitting_bounded(la, ra, sa, b1);
        lemma_deepest_fitting_bounded(lb, rb, sb, b1);
        if fits_up_to(la, ra, sa, bound) {
            assert(fits_up_to(lb, rb, sb, bound)) by {
                assert forall|k: nat| 1 <= k <= bound implies #[trigger] fits_budget(lb, rb, sb, k) by {
                    assert(fits_budget(la, ra, sa, k));
                }
            }
        } else {
            lemma_deepest_fitting_mono(la, ra, sa, lb, rb, sb, b1);
        }
    }
}

/// The budget depth never exceeds the hard cap.
proof fn lemma_spec_max_depth_bounded(l: int, r: int, show: bool)
    ensures
        1 <= spec_max_depth_for_budget(l, r, show) <= FRACTAL_DEPTH_HARD_CAP,
{
    lemma_deepest_fitting_bounded(l, r, show, FRACTAL_DEPTH_HARD_CAP as nat);
}

/// Law: fitting the budget is closed downwards in the depth. With at least one replica,
/// a depth that fits the budget leaves every smaller depth within it too, so
/// [`max_depth_for_budget`] stops at the first depth that breaks the budget and every
/// depth below its result is affordable.
pub proof fn law_fits_budget_downward_closed(lines: int, r: int, show_all_generations: bool, d1: nat, d2: nat)
    requires
        lines >= 0,
        r >= 1,
        d1 <= d2,
        fits_budget(lines, r, show_all_generations, d2),
    ensures
        fits_budget(lines, r, show_all_generations, d1),
{
    lemma_node_count_mono(r, d1, d2);
    let w1 = draw_count(r, d1, show_all_generations);
    let w2 = draw_count(r, d2, show_all_generations);
    if show_all_generations {
    } else {
        lemma_leaves_within_nodes(r, d1);
        if d1 > 0 {
            lemma_pow_mono(r, (d1 - 1) as nat, (d2 - 1) as nat);
        }
    }
    lemma_leaves_within_nodes(r, d1);
    lemma_leaves_within_nodes(r, d2);
    assert(lines * w1 <= lines * w2) by (nonlinear_arith)
        requires
            lines >= 0,
            0 <= w1 <= w2,
    ;
}

/// Law: more base-shape segments never allow a deeper fractal.
pub proof fn law_budget_depth_monotone_in_lines(l1: int, l2: int, r: int, show_all_generations: bool)
    requires
        0 <= l1 <= l2,
        r >= 0,
    ensures
        spec_max_depth_for_budget(l2, r, show_all_generations) <= spec_max_depth_for_budget(l1, r, show_all_generations),
{
    assert forall|k: nat| 1 <= k <= FRACTAL_DEPTH_HARD_CAP && #[trigger] fits_budget(l2, r, show_all_generations, k)
        implies fits_budget(l1, r, show_all_generations, k) by {
        let w = draw_count(r, k, show_all_generations);
        lemma_leaves_within_nodes(r, k);
        assert(l1 * w <= l2 * w) by (nonlinear_arith)
            requires
                0 <= l1 <= l2,
                w >= 0,
        ;
    }
    lemma_deepest_fitting_mono(l2, r, show_all_generations, l1, r, show_all_generations, FRACTAL_DEPTH_HARD_CAP as nat);
}

/// Law: more replicas (a wider tree) never allow a deeper fractal.
pub proof fn law_budget_depth_monotone_in_replicas(lines: int, r1: int, r2: int, show_all_generations: bool)
    requires
        lines >= 0,
        0 <= r1 <= r2,
    ensures
        spec_max_depth_for_budget(lines, r2, show_all_generations) <= spec_max_depth_for_budget(lines, r1, show_all_generations),
{
    lemma_spec_max_depth_bounded(lines, r2, show_all_generations);
    if r1 > 0 {
        assert forall|k: nat| 1 <= k <= FRACTAL_DEPTH_HARD_CAP && #[trigger] fits_budget(lines, r2, show_all_generations, k)
            implies fits_budget(lines, r1, show_all_generations, k) by {
            lemma_node_count_base_mono(r1, r2, k);
            lemma_leaves_within_nodes(r1, k);
            if k > 0 {
                lemma_pow_base_mono(r1, r2, (k - 1) as nat);
            }
            let w1 = draw_count(r1, k, show_all_generations);
            let w2 = draw_count(r2, k, show_all_generations);
            assert(lines * w1 <= lines * w2) by (nonlinear_arith)
                requires
                    lines >= 0,
                    0 <= w1 <= w2,
            ;
        }
        lemma_deepest_fitting_mono(lines, r2, show_all_generations, lines, r1, show_all_generations, FRACTAL_DEPTH_HARD_CAP as nat);
    }
}

/// Law: drawing every generation never allows a deeper fractal than drawing the leaves only.
pub proof fn law_all_generations_never_deeper(lines: int, r: int)
    requires
        lines >= 0,
        r >= 0,
    ensures
        spec_max_depth_for_budget(lines, r, true) <= spec_max_depth_for_budget(lines, r, false),
{
    assert forall|k: nat| 1 <= k <= FRACTAL_DEPTH_HARD_CAP && #[trigger] fits_budget(lines, r, true, k)
        implies fits_budget(lines, r, false, k) by {
        lemma_leaves_within_nodes(r, k);
        let w1 = leaf_count(r, k);
        let w2 = node_count(r, k);
        assert(lines * w1 <= lines * w2) by (nonlinear_arith)
            requires
                lines >= 0,
                0 <= w1 <= w2,
        ;
    }
    lemma_deepest_fitting_mono(lines, r, true, lines, r, false, FRACTAL_DEPTH_HARD_CAP as nat);
}

/// The depth `deepest_fitting` returns has all its levels within the budget.
proof fn lemma_deepest_fitting_fits(l: int, r: int, show: bool, bound: nat)
    ensures
        fits_up_to(l, r, show, deepest_fitting(l, r, show, bound)),
    decreases bound,
{
    if bound > 0 && !fits_up_to(l, r, show, bound) {
        lemma_deepest_fitting_fits(l, r, show, (bound - 1) as nat);
    }
}

/// Every depth from 1 up to the budget depth fits the budget, once the budget depth is
/// above 1 and there is at least one replica.
pub proof fn lemma_budget_depth_fits(lines: int, r: int, show_all_generations: bool)
    requires
        r >= 1,
        spec_max_depth_for_budget(lines, r, show_all_generations) >= 2,
    ensures
        fits_up_to(lines, r, show_all_generations, spec_max_depth_for_budget(lines, r, show_all_generations) as nat),
{
    lemma_deepest_fitting_fits(lines, r, show_all_generations, FRACTAL_DEPTH_HARD_CAP as nat);
}

/// `a * b`, or `u64::MAX` where the product does not fit.
pub open spec fn saturating_product(a: u64, b: u64) -> int {
    if a * b > u64::MAX {
        u64::MAX as int
    } else {
        a * b
    }
}

/// Law: a depth fits the budget exactly when the executable estimates say so:
/// [`recursion_node_count`] gives a count within [`MAX_RECURSION_NODES`] and
/// [`line_draw_invocations`] gives a count whose (saturating) product with the number of
/// segments is within [`MAX_LINE_SEGMENTS`]. So [`max_depth_for_budget`]'s result is the
/// largest depth whose levels all pass these tests (1 when even depth 1 fails), and its
/// successor fails them (below the hard cap).
pub proof fn law_budget_is_estimates_within_limits(l: u64, r: u64, show_all_generations: bool, d: u32)
    requires
        r >= 1,
        d >= 1,
    ensures
        fits_budget(l as int, r as int, show_all_generations, d as nat) <==> ({
            &&& spec_recursion_node_count(r, d) is Some
            &&& spec_recursion_node_count(r, d).unwrap() <= MAX_RECURSION_NODES
            &&& spec_line_draw_invocations(r, d, show_all_generations) is Some
            &&& saturating_product(l, spec_line_draw_invocations(r, d, show_all_generations).unwrap())
                <= MAX_LINE_SEGMENTS
        }),
{
    lemma_estimates_decide_fit(l, r, show_all_generations, d);
    lemma_leaves_within_nodes(r as int, d as nat);
}

/// The limits of the work budget: the hard cap on the depth, and the caps on the visited
/// nodes and on the segments put into the mesh.
#[derive(Clone, Copy, Debug, PartialEq, Eq, Structural)]
pub struct BudgetLimits {
    pub depth_cap: u32,
    pub max_nodes: u64,
    pub max_segments: u64,
}

/// The limits of the native build ([`FRACTAL_DEPTH_HARD_CAP`], [`MAX_RECURSION_NODES`],
/// [`MAX_LINE_SEGMENTS`]).
pub fn native_budget_limits() -> (res: BudgetLimits)
    ensures
        res == (BudgetLimits {
            depth_cap: FRACTAL_DEPTH_HARD_CAP,
            max_nodes: MAX_RECURSION_NODES,
            max_segments: MAX_LINE_SEGMENTS,
        }),
{
    BudgetLimits { depth_cap: FRACTAL_DEPTH_HARD_CAP, max_nodes: MAX_RECURSION_NODES, max_segments: MAX_LINE_SEGMENTS }
}

/// The lower limits of the web build: depth 512, 500 000 nodes, 400 000 segments.
pub fn web_budget_limits() -> (res: BudgetLimits)
    ensures
        res == (BudgetLimits { depth_cap: 512, max_nodes: 500_000, max_segments: 400_000 }),
{
    BudgetLimits { depth_cap: 512, max_nodes: 500_000, max_segments: 400_000 }
}

/// Depth `d` passes the budget tests under `limits`: the node estimate exists and is
/// within the node cap, and the segment estimate (segments times draws, saturating)
/// exists and is within the segment cap.
pub open spec fn within_limits(l: u64, r: u64, show_all_generations: bool, d: u32, limits: BudgetLimits) -> bool {
    &&& spec_recursion_node_count(r, d) is Some
    &&& spec_recursion_node_count(r, d).unwrap() <= limits.max_nodes
    &&& spec_line_draw_invocations(r, d, show_all_generations) is Some
    &&& saturating_product(l, spec_line_draw_invocations(r, d, show_all_generations).unwrap()) <= limits.max_segments
}

/// Every depth from 1 to `d` passes the budget tests.
pub open spec fn within_limits_up_to(l: u64, r: u64, show_all_generations: bool, d: nat, limits: BudgetLimits) -> bool {
    forall|k: u32| 1 <= k <= d ==> #[trigger] within_limits(l, r, show_all_generations, k, limits)
}

/// The deepest `d <= bound` whose levels all pass the budget tests (0 if none).
pub open spec fn deepest_within(l: u64, r: u64, show_all_generations: bool, bound: nat, limits: BudgetLimits) -> nat
    decreases bound,
{
    if bound == 0 {
        0
    } else if within_limits_up_to(l, r, show_all_generations, bound, limits) {
        bound
    } else {
        deepest_within(l, r, show_all_generations, (bound - 1) as nat, limits)
    }
}

/// The depth [`max_depth_for_limits`] allows: the depth cap without replicas, otherwise
/// the deepest depth up to the cap whose levels all pass the tests, and at least 1.
pub open spec fn spec_max_depth_for_limits(l: u64, r: u64, show_all_generations: bool, limits: BudgetLimits) -> int {
    if r == 0 {
        limits.depth_cap as int
    } else {
        let d = deepest_within(l, r, show_all_generations, limits.depth_cap as nat, limits);
        if d == 0 {
            1
        } else {
            d as int
        }
    }
}

proof fn lemma_deepest_within_is(l: u64, r: u64, g: bool, bound: nat, m: nat, limits: BudgetLimits)
    requires
        m <= bound,
        within_limits_up_to(l, r, g, m, limits),
        m < bound ==> !within_limits(l, r, g, (m + 1) as u32, limits),
        bound <= u32::MAX,
    ensures
        deepest_within(l, r, g, bound, limits) == m,
    decreases bound,
{
    if bound > m {
        assert(!within_limits_up_to(l, r, g, bound, limits)) by {
            assert(!within_limits(l, r, g, (m + 1) as u32, limits));
        }
        lemma_deepest_within_is(l, r, g, (bound - 1) as nat, m, limits);
    }
}

/// [`max_depth_for_budget`] under other limits (such as [`web_budget_limits`]): the
/// depth cap without replicas; otherwise the depths `1, 2, ...` up to the cap are tried
/// and the last one before the first that fails the budget tests is returned, and at
/// least 1.
pub fn max_depth_for_limits(
    base_line_count: usize,
    replica_count: usize,
    show_all_generations: bool,
    limits: BudgetLimits,
) -> (res: u32)
    requires
        limits.depth_cap >= 1,
        limits.depth_cap < u32::MAX,
    ensures
        res == spec_max_depth_for_limits(base_line_count as u64, replica_count as u64, show_all_generations, limits),
        1 <= res <= limits.depth_cap,
{
    if replica_count == 0 {
        return limits.depth_cap;
    }
    let r = replica_count as u64;
    let l = base_line_count as u64;
    let mut best: u32 = 1;
    let mut d: u32 = 1;
    while d <= limits.depth_cap
        invariant_except_break
            limits.depth_cap < u32::MAX,
            1 <= d <= limits.depth_cap + 1,
            best == (if d == 1 { 1 } else { d - 1 }),
            within_limits_up_to(l, r, show_all_generations, (d - 1) as nat, limits),
        ensures
            1 <= d <= limits.depth_cap + 1,
            best == (if d == 1 { 1 } else { d - 1 }),
            within_limits_up_to(l, r, show_all_generations, (d - 1) as nat, limits),
            d <= limits.depth_cap ==> !within_limits(l, r, show_all_generations, d, limits),
        decreases limits.depth_cap + 1 - d,
    {
        let nodes = match recursion_node_count(r, d) {
            Some(n) => n,
            None => {
                break;
            },
        };
        if nodes > limits.max_nodes {
            break;
        }
        let draws = match line_draw_invocations(r, d, show_all_generations) {
            Some(w) => w,
            None => {
                break;
            },
        };
        let segments = match l.checked_mul(draws) {
            Some(v) => v,
            None => u64::MAX,
        };
        if segments > limits.max_segments {
            break;
        }
        proof {
            assert(within_limits(l, r, show_all_generations, d, limits));
        }
        best = d;
        d = d + 1;
        proof {
            assert forall|k: u32| 1 <= k <= (d - 1) as nat implies #[trigger] within_limits(
                l,
                r,
                show_all_generations,
                k,
                limits,
            ) by {
                if k < d - 1 {
                    assert(within_limits_up_to(l, r, show_all_generations, (d - 2) as nat, limits));
                }
            }
        }
    }
    proof {
        lemma_deepest_within_is(l, r, show_all_generations, limits.depth_cap as nat, (d - 1) as nat, limits);
    }
    best
}

/// Law: under the native limits, [`max_depth_for_limits`] allows exactly the depth of
/// [`max_depth_for_budget`].
pub proof fn law_native_limits_give_budget_depth(l: u64, r: u64, show_all_generations: bool)
    ensures
        spec_max_depth_for_limits(
            l,
            r,
            show_all_generations,
            BudgetLimits {
                depth_cap: FRACTAL_DEPTH_HARD_CAP,
                max_nodes: MAX_RECURSION_NODES,
                max_segments: MAX_LINE_SEGMENTS,
            },
        ) == spec_max_depth_for_budget(l as int, r as int, show_all_generations),
{
    let limits = BudgetLimits {
        depth_cap: FRACTAL_DEPTH_HARD_CAP,
        max_nodes: MAX_RECURSION_NODES,
        max_segments: MAX_LINE_SEGMENTS,
    };
    if r > 0 {
        lemma_deepest_same(l, r, show_all_generations, FRACTAL_DEPTH_HARD_CAP as nat, limits);
    }
}

proof fn lemma_deepest_same(l: u64, r: u64, g: bool, bound: nat, limits: BudgetLimits)
    requires
        r >= 1,
        bound <= FRACTAL_DEPTH_HARD_CAP,
        limits == (BudgetLimits {
            depth_cap: FRACTAL_DEPTH_HARD_CAP,
            max_nodes: MAX_RECURSION_NODES,
            max_segments: MAX_LINE_SEGMENTS,
        }),
    ensures
        deepest_within(l, r, g, bound, limits) == deepest_fitting(l as int, r as int, g, bound),
    decreases bound,
{
    if bound > 0 {
        lemma_deepest_same(l, r, g, (bound - 1) as nat, limits);
        assert(within_limits_up_to(l, r, g, bound, limits) == fits_up_to(l as int, r as int, g, bound)) by {
            if within_limits_up_to(l, r, g, bound, limits) {
                assert forall|k: nat| 1 <= k <= bound implies #[trigger] fits_budget(l as int, r as int, g, k) by {
                    assert(within_limits(l, r, g, k as u32, limits));
                    law_budget_is_estimates_within_limits(l, r, g, k as u32);
                }
            }
            if fits_up_to(l as int, r as int, g, bound) {
                assert forall|k: u32| 1 <= k <= bound implies #[trigger] within_limits(l, r, g, k, limits) by {
                    assert(fits_budget(l as int, r as int, g, k as nat));
                    law_budget_is_estimates_within_limits(l, r, g, k);
                }
            }
        }
    }
}

/// When [`line_draw_invocations`] gives a count, it is the draw count of the tree.
pub proof fn lemma_line_draw_invocations_is_draw_count(r: u64, d: u32, show_all_generations: bool)
    requires
        r >= 1,
        d >= 1,
        spec_line_draw_invocations(r, d, show_all_generations) is Some,
    ensures
        spec_line_draw_invocations(r, d, show_all_generations).unwrap() == draw_count(
            r as int,
            d as nat,
            show_all_generations,
        ),
{
    lemma_leaves_within_nodes(r as int, d as nat);
    if show_all_generations {
        if r == 1 {
            lemma_node_count_one(d as nat);
            vstd::arithmetic::power::lemma1_pow(d as nat);
        } else {
            lemma_node_count_below_pow(r as int, d as nat);
            lemma_node_count_mono(r as int, 0, d as nat);
        }
    }
}


/// The depth `deepest_within` returns has all its levels within the limits, and the
/// next one (below the bound) is not.
proof fn lemma_deepest_within_facts(l: u64, r: u64, g: bool, bound: nat, limits: BudgetLimits)
    ensures
        deepest_within(l, r, g, bound, limits) <= bound,
        within_limits_up_to(l, r, g, deepest_within(l, r, g, bound, limits), limits),
        deepest_within(l, r, g, bound, limits) < bound ==> !within_limits_up_to(
            l,
            r,
            g,
            deepest_within(l, r, g, bound, limits) + 1,
            limits,
        ),
    decreases bound,
{
    if bound > 0 && !within_limits_up_to(l, r, g, bound, limits) {
        lemma_deepest_within_facts(l, r, g, (bound - 1) as nat, limits);
    }
}

/// Depth `k` passes the budget tests exactly when its tree stays within the limits:
/// the visited nodes within the node cap, the powers of `r` up to `r^k` within `u64`,
/// and the drawn segments within the segment cap (saturating at `u64::MAX`).
proof fn lemma_within_limits_direct(l: u64, r: u64, g: bool, k: u32, limits: BudgetLimits)
    requires
        r >= 1,
        k >= 1,
    ensures
        within_limits(l, r, g, k, limits) ==> node_count(r as int, k as nat) <= limits.max_nodes,
        within_limits(l, r, g, k, limits) && limits.max_segments < u64::MAX ==> l * draw_count(
            r as int,
            k as nat,
            g,
        ) <= limits.max_segments,
        !within_limits(l, r, g, k, limits) ==> ({
            ||| node_count(r as int, k as nat) > limits.max_nodes
            ||| pow(r as int, k as nat) > u64::MAX
            ||| l * draw_count(r as int, k as nat, g) > limits.max_segments
        }),
{
    lemma_estimates_decide_fit(l, r, g, k);
    lemma_pow_mono(r as int, (k - 1) as nat, k as nat);
    if spec_line_draw_invocations(r, k, g) is Some {
        lemma_line_draw_invocations_is_draw_count(r, k, g);
    }
}

/// Law: the depth [`max_depth_for_limits`] allows keeps within the limits it is given.
/// With at least one replica and a result `d >= 2`, every depth `k` from 1 to `d` visits
/// at most `limits.max_nodes` nodes and writes at most `limits.max_segments` segments
/// (segments per draw times draws; below a segment cap of `u64::MAX`, which the
/// saturating product cannot exceed). And the depth after the result (below the cap)
/// breaks a limit: too many nodes, powers of `r` beyond `u64`, or too many segments;
/// where the result is 1, depth 1 or depth 2 does.
pub proof fn law_limits_depth_within_given_limits(l: u64, r: u64, show_all_generations: bool, limits: BudgetLimits)
    requires
        r >= 1,
        limits.depth_cap < u32::MAX,
    ensures
        ({
            let d = spec_max_depth_for_limits(l, r, show_all_generations, limits);
            d >= 2 ==> forall|k: nat|
                1 <= k <= d ==> {
                    &&& #[trigger] node_count(r as int, k) <= limits.max_nodes
                    &&& limits.max_segments < u64::MAX ==> l * draw_count(r as int, k, show_all_generations)
                        <= limits.max_segments
                }
        }),
        ({
            let d = spec_max_depth_for_limits(l, r, show_all_generations, limits);
            d < limits.depth_cap ==> exists|k: nat|
                d <= k <= d + 1 && k >= 1 && {
                    ||| #[trigger] node_count(r as int, k) > limits.max_nodes
                    ||| pow(r as int, k) > u64::MAX
                    ||| l * draw_count(r as int, k, show_all_generations) > limits.max_segments
                }
        }),
{
    let g = show_all_generations;
    let bound = limits.depth_cap as nat;
    lemma_deepest_within_facts(l, r, g, bound, limits);
    let m = deepest_within(l, r, g, bound, limits);
    let d = spec_max_depth_for_limits(l, r, g, limits);
    if d >= 2 {
        assert(d == m);
        assert forall|k: nat| 1 <= k <= d implies {
            &&& #[trigger] node_count(r as int, k) <= limits.max_nodes
            &&& limits.max_segments < u64::MAX ==> l * draw_count(r as int, k, g) <= limits.max_segments
        } by {
            assert(within_limits(l, r, g, k as u32, limits));
            lemma_within_limits_direct(l, r, g, k as u32, limits);
        }
    }
    if d < limits.depth_cap {
        assert(m < bound);
        assert(!within_limits_up_to(l, r, g, m + 1, limits));
        let j = choose|j: u32| 1 <= j <= m + 1 && !#[trigger] within_limits(l, r, g, j, limits);
        assert(j == m + 1) by {
            if j <= m {
                assert(within_limits(l, r, g, j, limits));
            }
        }
        lemma_within_limits_direct(l, r, g, j, limits);
        let kj = j as nat;
        assert(d <= kj <= d + 1 && kj >= 1);
        assert(node_count(r as int, kj) > limits.max_nodes || pow(r as int, kj) > u64::MAX || l * draw_count(
            r as int,
            kj,
            g,
        ) > limits.max_segments);
    }
}

} // verus!
