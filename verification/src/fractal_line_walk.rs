//! The shape of the recursive walk that lists the fractal's segments.
//!
//! The walk starts at the identity transform with the state's `depth`. At each node it
//! draws the base shape when the node is a leaf (`depth <= 1` or no replicas) or when
//! all generations are shown, and descends into every replica with `depth - 1` unless
//! the node is a leaf. The geometry (composing the similarity transforms, the hues) is
//! floating point and stays with the caller, which drives [`FractalWalk`] step by step;
//! the walk itself, the decisions at each node and the order of the steps, is here.
use crate::budget::{
    draw_count, lemma_line_draw_invocations_is_draw_count, node_count, spec_line_draw_invocations,
};
use vstd::arithmetic::power::{lemma_pow_adds, pow};
use vstd::prelude::*;

verus! {

/// What the walk does at one node of the recursion tree.
#[derive(Clone, Copy, Debug, PartialEq, Eq)]
pub struct WalkNode {
    /// The base shape is drawn at this node (transformed by the node's transform).
    pub draws_here: bool,
    /// The walk continues into every replica with one less level of depth.
    pub descends: bool,
}

/// The decision at a node with `depth` remaining levels: a node is a leaf when
/// `depth <= 1` or there are no replicas; a leaf is always drawn, an inner node only
/// when all generations are shown; only inner nodes descend.
pub fn walk_node(depth: u32, replica_count: usize, show_all_generations: bool) -> (res: WalkNode)
    ensures
        res.descends == !(depth <= 1 || replica_count == 0),
        res.draws_here == (depth <= 1 || replica_count == 0 || show_all_generations),
{
    let is_leaf = depth <= 1 || replica_count == 0;
    WalkNode { draws_here: is_leaf || show_all_generations, descends: !is_leaf }
}

/// One step of the walk, as the visitor sees it.
#[derive(Clone, Copy, Debug, PartialEq, Eq, Structural)]
pub enum WalkEvent {
    /// The base shape is drawn with the current node's transform.
    Draw,
    /// The walk descends into the child node of the replica with this index.
    Enter(usize),
    /// The walk comes back from a child node to its parent.
    Leave,
}

/// The steps of the walk from a node with `depth` remaining levels and `r` replicas: the
/// node's own drawing (if it draws), then, unless it is a leaf, each child in replica
/// order, entered, walked with one level less, and left.
pub open spec fn walk_events(depth: nat, r: nat, show_all_generations: bool) -> Seq<WalkEvent>
    decreases depth, r + 1,
{
    let leaf = depth <= 1 || r == 0;
    let here = if leaf || show_all_generations {
        seq![WalkEvent::Draw]
    } else {
        Seq::empty()
    };
    if leaf {
        here
    } else {
        here + child_events(depth, r, show_all_generations, r)
    }
}

/// The steps of the first `k` children of a node with `depth` remaining levels.
pub open spec fn child_events(depth: nat, r: nat, show_all_generations: bool, k: nat) -> Seq<WalkEvent>
    decreases depth, k,
{
    if k == 0 || depth == 0 {
        Seq::empty()
    } else {
        child_events(depth, r, show_all_generations, (k - 1) as nat).push(WalkEvent::Enter((k - 1) as usize))
            + walk_events((depth - 1) as nat, r, show_all_generations)
            + seq![WalkEvent::Leave]
    }
}

/// The steps of children `i`, `i + 1`, ... of a node with `depth` remaining levels, in
/// order (each entered, walked with one level less, and left).
pub open spec fn child_events_from(depth: nat, r: nat, show_all_generations: bool, i: nat) -> Seq<WalkEvent>
    decreases r - i,
{
    if i >= r || depth == 0 {
        Seq::empty()
    } else {
        seq![WalkEvent::Enter(i as usize)] + walk_events((depth - 1) as nat, r, show_all_generations)
            + seq![WalkEvent::Leave] + child_events_from(depth, r, show_all_generations, i + 1)
    }
}

/// The first `k` children followed by the rest are all the children.
proof fn lemma_child_events_split(depth: nat, r: nat, show_all_generations: bool, k: nat)
    requires
        depth >= 1,
        k <= r,
    ensures
        child_events(depth, r, show_all_generations, k) + child_events_from(depth, r, show_all_generations, k)
            == child_events(depth, r, show_all_generations, r),
    decreases r - k,
{
    if k == r {
        assert(child_events(depth, r, show_all_generations, k) + Seq::<WalkEvent>::empty()
            =~= child_events(depth, r, show_all_generations, k));
    } else {
        lemma_child_events_split(depth, r, show_all_generations, k + 1);
        let sub = walk_events((depth - 1) as nat, r, show_all_generations);
        let c = child_events(depth, r, show_all_generations, k);
        let f = child_events_from(depth, r, show_all_generations, k + 1);
        assert(c + (seq![WalkEvent::Enter(k as usize)] + sub + seq![WalkEvent::Leave] + f)
            =~= c.push(WalkEvent::Enter(k as usize)) + sub + seq![WalkEvent::Leave] + f);
    }
}

/// A node on the walk's current path: its remaining depth, the next child to enter, and
/// whether its own drawing step has been made.
#[derive(Clone, Copy)]
struct WalkFrame {
    depth: u32,
    next: usize,
    started: bool,
}

/// The steps still to come at one node of the path (not counting the return from it).
#[verifier::opaque]
spec fn frame_events(f: WalkFrame, r: nat, show_all_generations: bool) -> Seq<WalkEvent> {
    if !f.started {
        walk_events(f.depth as nat, r, show_all_generations)
    } else if f.depth <= 1 || r == 0 {
        Seq::empty()
    } else {
        child_events_from(f.depth as nat, r, show_all_generations, f.next as nat)
    }
}

/// The steps still to come for a path (root first): those of the deepest node, then the
/// return to its parent, then those of the parent, and so on up to the root.
#[verifier::opaque]
spec fn path_events(path: Seq<WalkFrame>, r: nat, show_all_generations: bool) -> Seq<WalkEvent>
    decreases path.len(),
{
    if path.len() == 0 {
        Seq::empty()
    } else if path.len() == 1 {
        frame_events(path[0], r, show_all_generations)
    } else {
        frame_events(path.last(), r, show_all_generations) + seq![WalkEvent::Leave] + path_events(
            path.drop_last(),
            r,
            show_all_generations,
        )
    }
}

/// The steps after those of the deepest node: nothing at the root, otherwise the return
/// to the parent and the parent's path.
spec fn tail_events(rest: Seq<WalkFrame>, r: nat, show_all_generations: bool) -> Seq<WalkEvent> {
    if rest.len() == 0 {
        Seq::empty()
    } else {
        seq![WalkEvent::Leave] + path_events(rest, r, show_all_generations)
    }
}

proof fn lemma_path_with_top(rest: Seq<WalkFrame>, f: WalkFrame, r: nat, show_all_generations: bool)
    ensures
        path_events(rest.push(f), r, show_all_generations) == frame_events(f, r, show_all_generations)
            + tail_events(rest, r, show_all_generations),
        unstarted(rest.push(f)) == unstarted(rest) + if f.started {
            0nat
        } else {
            1nat
        },
{
    reveal(path_events);
    let p = rest.push(f);
    assert(p.drop_last() =~= rest);
    assert(p.last() == f);
    if rest.len() == 0 {
        assert(p[0] == f);
        assert(frame_events(f, r, show_all_generations) + Seq::<WalkEvent>::empty() =~= frame_events(
            f,
            r,
            show_all_generations,
        ));
    } else {
        assert(frame_events(f, r, show_all_generations) + seq![WalkEvent::Leave] + path_events(rest, r, show_all_generations)
            =~= frame_events(f, r, show_all_generations) + (seq![WalkEvent::Leave] + path_events(
            rest,
            r,
            show_all_generations,
        )));
    }
}

/// Starting a node: its drawing step (if it draws), then its children.
proof fn lemma_start_node(top: WalkFrame, r: nat, show_all_generations: bool)
    requires
        !top.started,
    ensures
        frame_events(top, r, show_all_generations) == (if top.depth <= 1 || r == 0 || show_all_generations {
            seq![WalkEvent::Draw]
        } else {
            Seq::<WalkEvent>::empty()
        }) + frame_events(WalkFrame { depth: top.depth, next: 0, started: true }, r, show_all_generations),
{
    reveal(frame_events);
    lemma_walk_starts(top.depth, r, show_all_generations);
}

proof fn lemma_walk_starts(d: u32, r: nat, show_all_generations: bool)
    ensures
        walk_events(d as nat, r, show_all_generations) == (if d <= 1 || r == 0 || show_all_generations {
            seq![WalkEvent::Draw]
        } else {
            Seq::<WalkEvent>::empty()
        }) + frame_events(WalkFrame { depth: d, next: 0, started: true }, r, show_all_generations),
{
    reveal(frame_events);
    let here = if d <= 1 || r == 0 || show_all_generations {
        seq![WalkEvent::Draw]
    } else {
        Seq::<WalkEvent>::empty()
    };
    if d <= 1 || r == 0 {
        assert(here + Seq::<WalkEvent>::empty() =~= here);
    } else {
        lemma_child_events_split(d as nat, r, show_all_generations, 0);
        assert(child_events(d as nat, r, show_all_generations, 0) =~= Seq::<WalkEvent>::empty());
        assert(Seq::<WalkEvent>::empty() + child_events_from(d as nat, r, show_all_generations, 0)
            =~= child_events_from(d as nat, r, show_all_generations, 0));
    }
}

/// Entering child `i` of a started inner node.
proof fn lemma_enter_child(top: WalkFrame, r: nat, show_all_generations: bool)
    requires
        top.started,
        !(top.depth <= 1 || r == 0),
        top.next < r,
        top.next < usize::MAX,
    ensures
        frame_events(top, r, show_all_generations) == seq![WalkEvent::Enter(top.next)] + frame_events(
            WalkFrame { depth: (top.depth - 1) as u32, next: 0, started: false },
            r,
            show_all_generations,
        ) + seq![WalkEvent::Leave] + frame_events(
            WalkFrame { depth: top.depth, next: (top.next + 1) as usize, started: true },
            r,
            show_all_generations,
        ),
{
    reveal(frame_events);
}

/// Nodes of the path whose drawing step has not been made yet.
spec fn unstarted(path: Seq<WalkFrame>) -> nat
    decreases path.len(),
{
    if path.len() == 0 {
        0
    } else {
        unstarted(path.drop_last()) + if path.last().started {
            0nat
        } else {
            1nat
        }
    }
}

/// The walk of a fractal, one step at a time. It starts at the root (the identity
/// transform) and yields the steps of [`walk_events`] in order; the caller keeps the
/// transforms and colours of the current path and draws.
pub struct FractalWalk {
    path: Vec<WalkFrame>,
    replica_count: usize,
    show_all_generations: bool,
}

impl FractalWalk {
    /// The steps still to come.
    pub closed spec fn remaining(&self) -> Seq<WalkEvent> {
        path_events(self.path@, self.replica_count as nat, self.show_all_generations)
    }

    /// The walk has come back from its root.
    pub closed spec fn finished(&self) -> bool {
        self.path@.len() == 0
    }

    /// A bound on the calls of [`FractalWalk::next_event`] still needed.
    pub closed spec fn steps_left(&self) -> nat {
        3 * self.remaining().len() + self.path@.len() + unstarted(self.path@)
    }

    /// The walk of the fractal with the given depth, replica count and drawing mode.
    pub fn new(depth: u32, replica_count: usize, show_all_generations: bool) -> (res: Self)
        ensures
            res.remaining() == walk_events(depth as nat, replica_count as nat, show_all_generations),
            !res.finished(),
    {
        let mut path: Vec<WalkFrame> = Vec::new();
        path.push(WalkFrame { depth, next: 0, started: false });
        proof {
            reveal(path_events);
            reveal(frame_events);
        }
        FractalWalk { path, replica_count, show_all_generations }
    }

    /// Whether the walk is over; then no step remains.
    pub fn is_finished(&self) -> (res: bool)
        ensures
            res == self.finished(),
            res ==> self.remaining() == Seq::<WalkEvent>::empty(),
    {
        proof {
            reveal(path_events);
        }
        self.path.len() == 0
    }

    /// Advances the walk: returns its next step, or `None` for a move that makes no step
    /// (starting a node that does not draw, coming back from the root, or a finished
    /// walk). The steps returned, in order, are exactly [`FractalWalk::remaining`].
    pub fn next_event(&mut self) -> (res: Option<WalkEvent>)
        ensures
            old(self).remaining() == (match res {
                Some(e) => seq![e],
                None => Seq::<WalkEvent>::empty(),
            }) + final(self).remaining(),
            old(self).finished() ==> res is None && final(self).finished(),
            !old(self).finished() ==> final(self).steps_left() < old(self).steps_left(),
    {
        let n = self.path.len();
        if n == 0 {
            return None;
        }
        let ghost r = self.replica_count as nat;
        let ghost show = self.show_all_generations;
        let ghost rest = self.path@.drop_last();
        let top = self.path[n - 1];
        let leaf = top.depth <= 1 || self.replica_count == 0;
        proof {
            assert(self.path@ =~= rest.push(top));
            lemma_path_with_top(rest, top, r, show);
        }
        if !top.started {
            let started = WalkFrame { depth: top.depth, next: 0, started: true };
            self.path.set(n - 1, started);
            proof {
                assert(self.path@ =~= rest.push(started));
                lemma_path_with_top(rest, started, r, show);
                lemma_start_node(top, r, show);
                let here = if leaf || show {
                    seq![WalkEvent::Draw]
                } else {
                    Seq::<WalkEvent>::empty()
                };
                assert(here + frame_events(started, r, show) + tail_events(rest, r, show)
                    =~= here + (frame_events(started, r, show) + tail_events(rest, r, show)));
                assert(Seq::<WalkEvent>::empty() + (frame_events(started, r, show) + tail_events(rest, r, show))
                    =~= frame_events(started, r, show) + tail_events(rest, r, show));
            }
            if leaf || self.show_all_generations {
                return Some(WalkEvent::Draw);
            } else {
                return None;
            }
        }
        if leaf || top.next >= self.replica_count {
            self.path.pop();
            proof {
                assert(self.path@ =~= rest);
                reveal(frame_events);
                reveal(path_events);
                assert(frame_events(top, r, show) == Seq::<WalkEvent>::empty());
                assert(Seq::<WalkEvent>::empty() + tail_events(rest, r, show) =~= tail_events(rest, r, show));
            }
            if n == 1 {
                return None;
            } else {
                return Some(WalkEvent::Leave);
            }
        }
        let i = top.next;
        let advanced = WalkFrame { depth: top.depth, next: i + 1, started: true };
        let child = WalkFrame { depth: top.depth - 1, next: 0, started: false };
        self.path.set(n - 1, advanced);
        let ghost mid = self.path@;
        self.path.push(child);
        proof {
            assert(mid =~= rest.push(advanced));
            lemma_path_with_top(rest, advanced, r, show);
            lemma_path_with_top(mid, child, r, show);
            lemma_enter_child(top, r, show);
            let sub = frame_events(child, r, show);
            let later = frame_events(advanced, r, show);
            let t = tail_events(rest, r, show);
            assert(tail_events(mid, r, show) == seq![WalkEvent::Leave] + path_events(mid, r, show));
            assert(seq![WalkEvent::Enter(i)] + sub + seq![WalkEvent::Leave] + later + t
                =~= seq![WalkEvent::Enter(i)] + (sub + (seq![WalkEvent::Leave] + (later + t))));
        }
        Some(WalkEvent::Enter(i))
    }
}

/// All the steps of the walk of a fractal, in order, collected from [`FractalWalk`].
pub fn walk_events_vec(depth: u32, replica_count: usize, show_all_generations: bool) -> (res: Vec<WalkEvent>)
    ensures
        res@ == walk_events(depth as nat, replica_count as nat, show_all_generations),
{
    let mut walk = FractalWalk::new(depth, replica_count, show_all_generations);
    let mut out: Vec<WalkEvent> = Vec::new();
    while !walk.is_finished()
        invariant
            out@ + walk.remaining() == walk_events(depth as nat, replica_count as nat, show_all_generations),
        decreases walk.steps_left(),
    {
        let ghost before = walk.remaining();
        match walk.next_event() {
            Some(e) => {
                out.push(e);
                proof {
                    assert(out@ + walk.remaining() =~= out@.drop_last() + before);
                }
            },
            None => {
                proof {
                    assert(Seq::<WalkEvent>::empty() + walk.remaining() =~= walk.remaining());
                }
            },
        }
    }
    proof {
        assert(out@ + Seq::<WalkEvent>::empty() =~= out@);
    }
    out
}

/// Number of drawing steps in `events`.
pub open spec fn count_draws(events: Seq<WalkEvent>) -> int
    decreases events.len(),
{
    if events.len() == 0 {
        0
    } else {
        count_draws(events.drop_last()) + if events.last() == WalkEvent::Draw {
            1int
        } else {
            0int
        }
    }
}

/// Number of descending steps in `events`.
pub open spec fn count_enters(events: Seq<WalkEvent>) -> int
    decreases events.len(),
{
    if events.len() == 0 {
        0
    } else {
        count_enters(events.drop_last()) + if events.last() is Enter {
            1int
        } else {
            0int
        }
    }
}

proof fn lemma_counts_add(a: Seq<WalkEvent>, b: Seq<WalkEvent>)
    ensures
        count_draws(a + b) == count_draws(a) + count_draws(b),
        count_enters(a + b) == count_enters(a) + count_enters(b),
    decreases b.len(),
{
    if b.len() == 0 {
        assert(a + b =~= a);
    } else {
        lemma_counts_add(a, b.drop_last());
        assert((a + b).drop_last() =~= a + b.drop_last());
        assert((a + b).last() == b.last());
    }
}

/// The first `k` children of a node hold `k` times the draws and nodes of one child.
proof fn lemma_child_counts(depth: nat, r: nat, show_all_generations: bool, k: nat)
    requires
        depth >= 2,
    ensures
        count_draws(child_events(depth, r, show_all_generations, k)) == k * count_draws(
            walk_events((depth - 1) as nat, r, show_all_generations),
        ),
        count_enters(child_events(depth, r, show_all_generations, k)) == k * (1 + count_enters(
            walk_events((depth - 1) as nat, r, show_all_generations),
        )),
    decreases k,
{
    if k > 0 {
        let prev = child_events(depth, r, show_all_generations, (k - 1) as nat);
        let sub = walk_events((depth - 1) as nat, r, show_all_generations);
        lemma_child_counts(depth, r, show_all_generations, (k - 1) as nat);
        let entered = prev.push(WalkEvent::Enter((k - 1) as usize));
        assert(entered.drop_last() =~= prev);
        assert(entered.last() is Enter);
        assert(count_draws(entered) == count_draws(prev));
        assert(count_enters(entered) == count_enters(prev) + 1);
        lemma_counts_add(entered, sub);
        lemma_counts_add(entered + sub, seq![WalkEvent::Leave]);
        let seq_leave: Seq<WalkEvent> = seq![WalkEvent::Leave];
        assert(seq_leave.drop_last() =~= Seq::<WalkEvent>::empty());
        assert(seq_leave.last() == WalkEvent::Leave);
        assert(count_draws(Seq::<WalkEvent>::empty()) == 0);
        assert(count_enters(Seq::<WalkEvent>::empty()) == 0);
        assert(count_draws(seq_leave) == 0);
        assert(count_enters(seq_leave) == 0);
        let d = count_draws(sub);
        let e = count_enters(sub);
        assert((k - 1) * d + d == k * d) by (nonlinear_arith);
        assert((k - 1) * (1 + e) + (1 + e) == k * (1 + e)) by (nonlinear_arith);
    }
}

/// Law: the walk's steps are counted by [`walk_draws`] and [`walk_nodes`]: it draws the
/// base shape `walk_draws(depth, r, show_all_generations)` times and visits
/// `walk_nodes(depth, r)` nodes (the root and one per descending step).
pub proof fn law_walk_events_counted(depth: nat, r: nat, show_all_generations: bool)
    ensures
        count_draws(walk_events(depth, r, show_all_generations)) == walk_draws(depth, r, show_all_generations),
        count_enters(walk_events(depth, r, show_all_generations)) + 1 == walk_nodes(depth, r),
    decreases depth,
{
    let one: Seq<WalkEvent> = seq![WalkEvent::Draw];
    assert(one.drop_last() =~= Seq::<WalkEvent>::empty());
    assert(one.last() == WalkEvent::Draw);
    assert(count_draws(Seq::<WalkEvent>::empty()) == 0);
    assert(count_enters(Seq::<WalkEvent>::empty()) == 0);
    assert(count_draws(one) == 1);
    assert(count_enters(one) == 0);
    if !(depth <= 1 || r == 0) {
        law_walk_events_counted((depth - 1) as nat, r, show_all_generations);
        lemma_child_counts(depth, r, show_all_generations, r);
        let here: Seq<WalkEvent> = if show_all_generations {
            one
        } else {
            Seq::empty()
        };
        lemma_counts_add(here, child_events(depth, r, show_all_generations, r));
    }
}

/// Number of returning steps in `events`.
pub open spec fn count_leaves(events: Seq<WalkEvent>) -> int
    decreases events.len(),
{
    if events.len() == 0 {
        0
    } else {
        count_leaves(events.drop_last()) + if events.last() == WalkEvent::Leave {
            1int
        } else {
            0int
        }
    }
}

/// How far below the root a sequence of steps ends: descents minus returns.
pub open spec fn nesting(events: Seq<WalkEvent>) -> int {
    count_enters(events) - count_leaves(events)
}

/// The steps never return above the node they start from, and end back at it.
pub open spec fn well_nested(events: Seq<WalkEvent>) -> bool {
    &&& nesting(events) == 0
    &&& forall|k: int| 0 <= k <= events.len() ==> nesting(#[trigger] events.take(k)) >= 0
}

proof fn lemma_leaves_add(a: Seq<WalkEvent>, b: Seq<WalkEvent>)
    ensures
        count_leaves(a + b) == count_leaves(a) + count_leaves(b),
    decreases b.len(),
{
    if b.len() == 0 {
        assert(a + b =~= a);
    } else {
        lemma_leaves_add(a, b.drop_last());
        assert((a + b).drop_last() =~= a + b.drop_last());
        assert((a + b).last() == b.last());
    }
}

proof fn lemma_nesting_add(a: Seq<WalkEvent>, b: Seq<WalkEvent>)
    ensures
        nesting(a + b) == nesting(a) + nesting(b),
{
    lemma_counts_add(a, b);
    lemma_leaves_add(a, b);
}

proof fn lemma_well_nested_concat(a: Seq<WalkEvent>, b: Seq<WalkEvent>)
    requires
        well_nested(a),
        well_nested(b),
    ensures
        well_nested(a + b),
{
    lemma_nesting_add(a, b);
    assert forall|k: int| 0 <= k <= (a + b).len() implies nesting(#[trigger] (a + b).take(k)) >= 0 by {
        if k <= a.len() {
            assert((a + b).take(k) =~= a.take(k));
        } else {
            assert((a + b).take(k) =~= a + b.take(k - a.len()));
            assert(nesting(b.take(k - a.len())) >= 0);
            lemma_nesting_add(a, b.take(k - a.len()));
        }
    }
}

/// One step's nesting.
proof fn lemma_nesting_single(e: WalkEvent)
    ensures
        nesting(seq![e]) == (match e {
            WalkEvent::Enter(_) => 1int,
            WalkEvent::Leave => -1int,
            WalkEvent::Draw => 0int,
        }),
{
    let s: Seq<WalkEvent> = seq![e];
    assert(s.drop_last() =~= Seq::<WalkEvent>::empty());
    assert(s.last() == e);
    assert(count_enters(Seq::<WalkEvent>::empty()) == 0);
    assert(count_leaves(Seq::<WalkEvent>::empty()) == 0);
}

/// A well-nested walk below a child, entered before and left after, is well nested.
proof fn lemma_well_nested_wrap(i: usize, sub: Seq<WalkEvent>)
    requires
        well_nested(sub),
    ensures
        well_nested(seq![WalkEvent::Enter(i)] + sub + seq![WalkEvent::Leave]),
{
    let enter: Seq<WalkEvent> = seq![WalkEvent::Enter(i)];
    let leave: Seq<WalkEvent> = seq![WalkEvent::Leave];
    let w = enter + sub + leave;
    lemma_nesting_single(WalkEvent::Enter(i));
    lemma_nesting_single(WalkEvent::Leave);
    lemma_nesting_add(enter, sub);
    lemma_nesting_add(enter + sub, leave);
    assert forall|k: int| 0 <= k <= w.len() implies nesting(#[trigger] w.take(k)) >= 0 by {
        if k == 0 {
            assert(w.take(k) =~= Seq::<WalkEvent>::empty());
            assert(count_enters(Seq::<WalkEvent>::empty()) == 0);
            assert(count_leaves(Seq::<WalkEvent>::empty()) == 0);
        } else if k <= 1 + sub.len() {
            assert(w.take(k) =~= enter + sub.take(k - 1));
            assert(nesting(sub.take(k - 1)) >= 0);
            lemma_nesting_add(enter, sub.take(k - 1));
        } else {
            assert(w.take(k) =~= w);
        }
    }
}

proof fn lemma_child_events_nested(depth: nat, r: nat, show_all_generations: bool, k: nat)
    requires
        depth >= 2,
        well_nested(walk_events((depth - 1) as nat, r, show_all_generations)),
    ensures
        well_nested(child_events(depth, r, show_all_generations, k)),
    decreases k,
{
    if k == 0 {
        let e = Seq::<WalkEvent>::empty();
        assert(count_enters(e) == 0 && count_leaves(e) == 0);
        assert forall|j: int| 0 <= j <= e.len() implies nesting(#[trigger] e.take(j)) >= 0 by {
            assert(e.take(j) =~= e);
        }
    } else {
        let prev = child_events(depth, r, show_all_generations, (k - 1) as nat);
        let sub = walk_events((depth - 1) as nat, r, show_all_generations);
        let i = (k - 1) as usize;
        lemma_child_events_nested(depth, r, show_all_generations, (k - 1) as nat);
        lemma_well_nested_wrap(i, sub);
        lemma_well_nested_concat(prev, seq![WalkEvent::Enter(i)] + sub + seq![WalkEvent::Leave]);
        assert(prev.push(WalkEvent::Enter(i)) + sub + seq![WalkEvent::Leave]
            =~= prev + (seq![WalkEvent::Enter(i)] + sub + seq![WalkEvent::Leave]));
    }
}

/// Law: the walk's steps are well nested. Every return goes back from a node that was
/// entered, and the walk ends at the root, so a visitor that keeps the path from the root
/// to the current node (a stack pushed on each descent, popped on each return) always has
/// the root on it.
pub proof fn law_walk_events_well_nested(depth: nat, r: nat, show_all_generations: bool)
    ensures
        well_nested(walk_events(depth, r, show_all_generations)),
    decreases depth,
{
    let draw: Seq<WalkEvent> = seq![WalkEvent::Draw];
    let empty = Seq::<WalkEvent>::empty();
    lemma_nesting_single(WalkEvent::Draw);
    assert(count_enters(empty) == 0 && count_leaves(empty) == 0);
    assert forall|j: int| 0 <= j <= draw.len() implies nesting(#[trigger] draw.take(j)) >= 0 by {
        if j == 0 {
            assert(draw.take(j) =~= empty);
        } else {
            assert(draw.take(j) =~= draw);
        }
    }
    assert forall|j: int| 0 <= j <= empty.len() implies nesting(#[trigger] empty.take(j)) >= 0 by {
        assert(empty.take(j) =~= empty);
    }
    let here = if depth <= 1 || r == 0 || show_all_generations {
        draw
    } else {
        empty
    };
    assert(well_nested(here));
    if !(depth <= 1 || r == 0) {
        law_walk_events_well_nested((depth - 1) as nat, r, show_all_generations);
        lemma_child_events_nested(depth, r, show_all_generations, r);
        lemma_well_nested_concat(here, child_events(depth, r, show_all_generations, r));
    }
}

/// Number of nodes the walk visits from a node with `depth` remaining levels and `r`
/// replicas (the node itself and everything below it).
pub open spec fn walk_nodes(depth: nat, r: nat) -> int
    decreases depth,
{
    if depth <= 1 || r == 0 {
        1
    } else {
        1 + r * walk_nodes((depth - 1) as nat, r)
    }
}

/// Number of times the walk draws the base shape from a node with `depth` remaining
/// levels and `r` replicas, following the decisions of [`walk_node`].
pub open spec fn walk_draws(depth: nat, r: nat, show_all_generations: bool) -> int
    decreases depth,
{
    if depth <= 1 || r == 0 {
        1
    } else {
        (if show_all_generations { 1int } else { 0int }) + r * walk_draws((depth - 1) as nat, r, show_all_generations)
    }
}

proof fn lemma_node_count_front(r: int, d: nat)
    ensures
        node_count(r, d + 1) == 1 + r * node_count(r, d),
    decreases d,
{
    vstd::arithmetic::power::lemma_pow0(r);
    if d > 0 {
        let d1 = (d - 1) as nat;
        lemma_node_count_front(r, d1);
        lemma_pow_adds(r, 1, d1);
        vstd::arithmetic::power::lemma_pow1(r);
        let n = node_count(r, d1);
        let p = pow(r, d1);
        assert(1 + r * n + r * p == 1 + r * (n + p)) by (nonlinear_arith);
    }
}

/// Law: the budget's estimates count exactly what the walk does. From a root with
/// `depth >= 1` and at least one replica, the walk visits `node_count(r, depth)` nodes
/// and draws the base shape `draw_count(r, depth, show_all_generations)` times, the
/// figures [`crate::budget::max_depth_for_budget`] holds against its limits.
pub proof fn law_walk_matches_budget_estimates(depth: nat, r: nat, show_all_generations: bool)
    requires
        depth >= 1,
        r >= 1,
    ensures
        walk_nodes(depth, r) == node_count(r as int, depth),
        walk_draws(depth, r, show_all_generations) == draw_count(r as int, depth, show_all_generations),
    decreases depth,
{
    vstd::arithmetic::power::lemma_pow0(r as int);
    if depth == 1 {
        assert(node_count(r as int, 1) == node_count(r as int, 0) + pow(r as int, 0));
    } else {
        let d1 = (depth - 1) as nat;
        law_walk_matches_budget_estimates(d1, r, show_all_generations);
        lemma_node_count_front(r as int, d1);
        if !show_all_generations {
            let e = (d1 - 1) as nat;
            lemma_pow_adds(r as int, 1, e);
            vstd::arithmetic::power::lemma_pow1(r as int);
            assert(pow(r as int, (depth - 1) as nat) == pow(r as int, 1 + e));
        }
    }
}

/// Law: the walk draws the base shape as many times as [`crate::budget::line_draw_invocations`]
/// counts (so the segments put into the mesh are the base shape's segments times that
/// count); without replicas, once.
pub proof fn law_walk_draws_are_line_draw_invocations(depth: u32, r: u64, show_all_generations: bool)
    requires
        depth >= 1,
    ensures
        r == 0 ==> count_draws(walk_events(depth as nat, 0, show_all_generations)) == 1,
        r >= 1 && spec_line_draw_invocations(r, depth, show_all_generations) is Some ==> count_draws(
            walk_events(depth as nat, r as nat, show_all_generations),
        ) == spec_line_draw_invocations(r, depth, show_all_generations).unwrap(),
{
    law_walk_events_counted(depth as nat, r as nat, show_all_generations);
    if r >= 1 {
        law_walk_matches_budget_estimates(depth as nat, r as nat, show_all_generations);
        if spec_line_draw_invocations(r, depth, show_all_generations) is Some {
            lemma_line_draw_invocations_is_draw_count(r, depth, show_all_generations);
        }
    } else {
        law_walk_events_counted(depth as nat, 0, show_all_generations);
    }
}

} // verus!
