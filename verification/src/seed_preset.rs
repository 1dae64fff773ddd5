//! Catalogue of base-shape presets offered in the menu, and the way each preset's
//! vertices are joined into segments.
//!
//! The vertex coordinates are floating point and computed by the caller; here is the
//! combinatorial part: the labels, the order of the catalogue, which vertex is joined
//! to which (a closed polygon, the pentagram's skipping order).
use vstd::prelude::*;

verus! {

/// The base-shape patterns of the menu.
#[derive(Clone, Copy, Debug, PartialEq, Eq, Structural)]
pub enum BaseShapePreset {
    /// One horizontal segment of length 2 through the origin.
    Segment,
    /// The three sides of an equilateral triangle with a horizontal bottom side.
    Triangle,
    /// The four sides of an axis-aligned square.
    Square,
    /// The five sides of a regular pentagon (vertices negated so that it stands on a side).
    Pentagon,
    /// The six sides of a regular hexagon.
    Hexagon,
    /// The pentagram joining every second vertex of the pentagon.
    Star,
    /// Two segments from the origin along +x and +y.
    LShape,
}

/// The label shown in the menu for each preset.
pub open spec fn base_shape_label(p: BaseShapePreset) -> Seq<char> {
    match p {
        BaseShapePreset::Segment => "Segment"@,
        BaseShapePreset::Triangle => "Triangle"@,
        BaseShapePreset::Square => "Square"@,
        BaseShapePreset::Pentagon => "Pentagon"@,
        BaseShapePreset::Hexagon => "Hexagon"@,
        BaseShapePreset::Star => "Star (pentagram)"@,
        BaseShapePreset::LShape => "L-shape"@,
    }
}

impl BaseShapePreset {
    /// Every preset, in menu order.
    pub const ALL: [BaseShapePreset; 7] = [
        BaseShapePreset::Segment,
        BaseShapePreset::Triangle,
        BaseShapePreset::Square,
        BaseShapePreset::Pentagon,
        BaseShapePreset::Hexagon,
        BaseShapePreset::Star,
        BaseShapePreset::LShape,
    ];

    /// The short English label shown in the menu.
    pub fn label(self) -> (res: &'static str)
        ensures
            res@ == base_shape_label(self),
    {
        match self {
            BaseShapePreset::Segment => "Segment",
            BaseShapePreset::Triangle => "Triangle",
            BaseShapePreset::Square => "Square",
            BaseShapePreset::Pentagon => "Pentagon",
            BaseShapePreset::Hexagon => "Hexagon",
            BaseShapePreset::Star => "Star (pentagram)",
            BaseShapePreset::LShape => "L-shape",
        }
    }
}

/// The closed polygon through `vertices`: segment `i` joins vertex `i` to vertex
/// `(i + 1) % n`. Fewer than two vertices give no segment.
pub fn cycle_edges<T: Copy>(vertices: &[T]) -> (res: Vec<(T, T)>)
    ensures
        vertices@.len() < 2 ==> res@.len() == 0,
        vertices@.len() >= 2 ==> res@.len() == vertices@.len(),
        vertices@.len() >= 2 ==> forall|i: int|
            0 <= i < vertices@.len() ==> #[trigger] res@[i] == (
                vertices@[i],
                vertices@[(i + 1) % (vertices@.len() as int)],
            ),
{
    let n = vertices.len();
    let mut out: Vec<(T, T)> = Vec::new();
    if n < 2 {
        return out;
    }
    let mut i: usize = 0;
    while i < n
        invariant
            n == vertices@.len(),
            n >= 2,
            i <= n,
            out@.len() == i,
            forall|j: int| 0 <= j < i ==> #[trigger] out@[j] == (vertices@[j], vertices@[(j + 1) % (n as int)]),
        decreases n - i,
    {
        let next = if i + 1 == n {
            0
        } else {
            i + 1
        };
        proof {
            if i + 1 == n {
                assert((i + 1) as int % (n as int) == 0) by (nonlinear_arith)
                    requires
                        i + 1 == n,
                        n >= 2,
                ;
            } else {
                assert((i + 1) as int % (n as int) == (i + 1) as int) by (nonlinear_arith)
                    requires
                        i + 1 < n,
                ;
            }
        }
        out.push((vertices[i], vertices[next]));
        i = i + 1;
    }
    out
}

/// Vertex order of the pentagram: every second vertex of the pentagon, back to the start.
pub open spec fn pentagram_order() -> Seq<int> {
    seq![0int, 2, 4, 1, 3, 0]
}

/// The pentagram through five vertices: the segments join consecutive entries of the
/// order 0, 2, 4, 1, 3, 0. Anything but five vertices gives no segment.
pub fn pentagram_edges<T: Copy>(vertices: &[T]) -> (res: Vec<(T, T)>)
    ensures
        vertices@.len() != 5 ==> res@.len() == 0,
        vertices@.len() == 5 ==> res@.len() == 5,
        vertices@.len() == 5 ==> forall|k: int|
            0 <= k < 5 ==> #[trigger] res@[k] == (
                vertices@[pentagram_order()[k]],
                vertices@[pentagram_order()[k + 1]],
            ),
{
    let mut out: Vec<(T, T)> = Vec::new();
    if vertices.len() != 5 {
        return out;
    }
    let order: [usize; 6] = [0, 2, 4, 1, 3, 0];
    let mut k: usize = 0;
    while k < 5
        invariant
            vertices@.len() == 5,
            order@ == seq![0usize, 2, 4, 1, 3, 0],
            k <= 5,
            out@.len() == k,
            forall|j: int| 0 <= j < k ==> #[trigger] out@[j] == (
                vertices@[pentagram_order()[j]],
                vertices@[pentagram_order()[j + 1]],
            ),
        decreases 5 - k,
    {
        let a = order[k];
        let b = order[k + 1];
        out.push((vertices[a], vertices[b]));
        k = k + 1;
    }
    out
}

/// Law: the polygon of [`cycle_edges`] is closed and connected: each segment ends where
/// the next one starts, and the last one ends where the first one starts.
pub proof fn law_cycle_edges_closed<T>(vertices: Seq<T>, edges: Seq<(T, T)>)
    requires
        vertices.len() >= 2,
        edges.len() == vertices.len(),
        forall|i: int| 0 <= i < vertices.len() ==> #[trigger] edges[i] == (vertices[i], vertices[(i + 1) % (vertices.len() as int)]),
    ensures
        forall|i: int| 0 <= i < edges.len() - 1 ==> #[trigger] edges[i].1 == edges[i + 1].0,
        edges[edges.len() - 1].1 == edges[0].0,
{
    let n = vertices.len() as int;
    assert forall|i: int| 0 <= i < edges.len() - 1 implies #[trigger] edges[i].1 == edges[i + 1].0 by {
        assert(edges[i + 1] == (vertices[i + 1], vertices[(i + 2) % n]));
        assert((i + 1) % n == i + 1) by (nonlinear_arith)
            requires
                0 <= i + 1 < n,
        ;
    }
    assert(edges[n - 1] == (vertices[n - 1], vertices[(n - 1 + 1) % n]));
    assert(edges[0] == (vertices[0], vertices[(0int + 1) % n]));
    assert(n % n == 0) by (nonlinear_arith)
        requires
            n >= 2,
    ;
}

/// Law: the pentagram is a closed path that starts a segment at every one of the five
/// vertices.
pub proof fn law_pentagram_closed_visits_all()
    ensures
        pentagram_order()[0] == pentagram_order()[5],
        forall|v: int| 0 <= v < 5 ==> #[trigger] pentagram_order().subrange(0, 5).contains(v),
{
    let o = pentagram_order();
    let starts = o.subrange(0, 5);
    assert(starts[0] == 0 && starts[1] == 2 && starts[2] == 4 && starts[3] == 1 && starts[4] == 3);
    assert forall|v: int| 0 <= v < 5 implies #[trigger] pentagram_order().subrange(0, 5).contains(v) by {
        if v == 0 {
            assert(starts[0] == v);
        } else if v == 1 {
            assert(starts[3] == v);
        } else if v == 2 {
            assert(starts[1] == v);
        } else if v == 3 {
            assert(starts[4] == v);
        } else {
            assert(starts[2] == v);
        }
    }
}

} // verus!
