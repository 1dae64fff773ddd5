//! Meaning and limits of the share-link body `v=…&depth=…&g=…&line=…&replica=…`.
//!
//! The body is a list of `key=value` pairs. The keys `v` (format version), `depth`,
//! `g` (all generations drawn, `0`/`1`), `line` (one per segment) and `replica` (one per
//! replica) carry the fractal; unknown keys are ignored so that newer links still open.
//! Decoding the numbers inside the values is done by the caller; which key means what,
//! the required fields, the version and the size limits are checked here.
use crate::budget::FRACTAL_DEPTH_HARD_CAP;
use crate::fractal_state::{BaseShape, FractalState};
use crate::text::str_equals;
use vstd::prelude::*;

verus! {

/// Format version of the share body; a link with another `v=` is refused.
pub const SHARE_VERSION: u32 = 1;

/// Most segments one link may carry (bounds the time and memory of decoding).
pub const MAX_LINES: usize = 4096;

/// Most replicas one link may carry.
pub const MAX_REPLICAS: usize = 64;

/// Largest `depth` a link may carry (the recursion's hard cap; the working depth is
/// further limited by the budget once decoded).
pub const MAX_DEPTH: u32 = FRACTAL_DEPTH_HARD_CAP;

/// The keys of the share body.
#[derive(Clone, Copy, Debug, PartialEq, Eq, Structural)]
pub enum ShareKey {
    /// `v`: the format version.
    Version,
    /// `depth`: the recursion depth.
    Depth,
    /// `g`: whether all generations are drawn.
    ShowAllGenerations,
    /// `line`: one segment, four coordinates.
    Line,
    /// `replica`: one replica, sub-keys `x`, `y`, `r`, `s`.
    Replica,
    /// Any other key; ignored.
    Unknown,
}

/// The key a name stands for.
pub open spec fn spec_classify_share_key(name: Seq<char>) -> ShareKey {
    if name == "v"@ {
        ShareKey::Version
    } else if name == "depth"@ {
        ShareKey::Depth
    } else if name == "g"@ {
        ShareKey::ShowAllGenerations
    } else if name == "line"@ {
        ShareKey::Line
    } else if name == "replica"@ {
        ShareKey::Replica
    } else {
        ShareKey::Unknown
    }
}

/// The key a pair's name stands for.
pub fn classify_share_key(name: &str) -> (res: ShareKey)
    ensures
        res == spec_classify_share_key(name@),
{
    if str_equals(name, "v") {
        ShareKey::Version
    } else if str_equals(name, "depth") {
        ShareKey::Depth
    } else if str_equals(name, "g") {
        ShareKey::ShowAllGenerations
    } else if str_equals(name, "line") {
        ShareKey::Line
    } else if str_equals(name, "replica") {
        ShareKey::Replica
    } else {
        ShareKey::Unknown
    }
}

/// The name written for a key when a body is encoded (`None` for [`ShareKey::Unknown`]).
pub fn share_key_name(key: ShareKey) -> (res: Option<&'static str>)
    ensures
        key == ShareKey::Version ==> (res matches Some(s) && s@ == "v"@),
        key == ShareKey::Depth ==> (res matches Some(s) && s@ == "depth"@),
        key == ShareKey::ShowAllGenerations ==> (res matches Some(s) && s@ == "g"@),
        key == ShareKey::Line ==> (res matches Some(s) && s@ == "line"@),
        key == ShareKey::Replica ==> (res matches Some(s) && s@ == "replica"@),
        key == ShareKey::Unknown ==> res is None,
{
    match key {
        ShareKey::Version => Some("v"),
        ShareKey::Depth => Some("depth"),
        ShareKey::ShowAllGenerations => Some("g"),
        ShareKey::Line => Some("line"),
        ShareKey::Replica => Some("replica"),
        ShareKey::Unknown => None,
    }
}

/// Why a share body or a state is refused.
#[derive(Clone, Copy, Debug, PartialEq, Eq, Structural)]
pub enum ShareError {
    /// No `v=` pair.
    MissingVersion,
    /// A `v=` other than [`SHARE_VERSION`].
    UnsupportedVersion(u32),
    /// No `depth=` pair.
    MissingDepth,
    /// `depth` outside `1..=MAX_DEPTH`.
    DepthOutOfRange,
    /// More than [`MAX_LINES`] segments.
    TooManyLines,
    /// More than [`MAX_REPLICAS`] replicas.
    TooManyReplicas,
}

/// The first limit a state with this depth and these counts breaks, if any; depth is
/// checked first, then the segments, then the replicas.
pub open spec fn spec_share_limits(depth: u32, line_count: nat, replica_count: nat) -> Result<(), ShareError> {
    if depth < 1 || depth > MAX_DEPTH {
        Err(ShareError::DepthOutOfRange)
    } else if line_count > MAX_LINES {
        Err(ShareError::TooManyLines)
    } else if replica_count > MAX_REPLICAS {
        Err(ShareError::TooManyReplicas)
    } else {
        Ok(())
    }
}

/// Checks the depth range and the segment and replica counts of a state before it is
/// encoded or after it is decoded. (Coordinates and scales are checked by the caller,
/// after these.)
pub fn check_share_limits<L, R>(state: &FractalState<L, R>) -> (res: Result<(), ShareError>)
    ensures
        res == spec_share_limits(state.depth, state.base_shape.lines@.len(), state.replicas@.len()),
{
    if state.depth < 1 || state.depth > MAX_DEPTH {
        return Err(ShareError::DepthOutOfRange);
    }
    if state.base_shape.lines.len() > MAX_LINES {
        return Err(ShareError::TooManyLines);
    }
    if state.replicas.len() > MAX_REPLICAS {
        return Err(ShareError::TooManyReplicas);
    }
    Ok(())
}

/// The state a decoded body describes, or the first reason to refuse it: the version
/// must be present and equal to [`SHARE_VERSION`], the depth present, then the limits
/// hold; `g` defaults to `false`.
pub open spec fn spec_assemble_shared_state<L, R>(
    version: Option<u32>,
    depth: Option<u32>,
    show_all_generations: Option<bool>,
    lines: Seq<L>,
    replicas: Seq<R>,
) -> Result<(u32, bool), ShareError> {
    match version {
        None => Err(ShareError::MissingVersion),
        Some(v) => if v != SHARE_VERSION {
            Err(ShareError::UnsupportedVersion(v))
        } else {
            match depth {
                None => Err(ShareError::MissingDepth),
                Some(d) => match spec_share_limits(d, lines.len(), replicas.len()) {
                    Err(e) => Err(e),
                    Ok(()) => Ok(
                        (
                            d,
                            match show_all_generations {
                                Some(g) => g,
                                None => false,
                            },
                        ),
                    ),
                },
            }
        },
    }
}

/// Builds the state of a decoded body from its fields (the values of `v`, `depth`, `g`
/// and the decoded segments and replicas, in body order), refusing it as
/// [`spec_assemble_shared_state`] says. The depth is not yet brought within the budget.
pub fn assemble_shared_state<L, R>(
    version: Option<u32>,
    depth: Option<u32>,
    show_all_generations: Option<bool>,
    lines: Vec<L>,
    replicas: Vec<R>,
) -> (res: Result<FractalState<L, R>, ShareError>)
    ensures
        spec_assemble_shared_state(version, depth, show_all_generations, lines@, replicas@) matches Err(e)
            ==> res == Err::<FractalState<L, R>, ShareError>(e),
        spec_assemble_shared_state(version, depth, show_all_generations, lines@, replicas@) matches Ok(
            (d, g),
        ) ==> (res matches Ok(s) && s.depth == d && s.show_all_generations == g
            && s.base_shape.lines@ == lines@ && s.replicas@ == replicas@),
{
    let v = match version {
        Some(v) => v,
        None => {
            return Err(ShareError::MissingVersion);
        },
    };
    if v != SHARE_VERSION {
        return Err(ShareError::UnsupportedVersion(v));
    }
    let d = match depth {
        Some(d) => d,
        None => {
            return Err(ShareError::MissingDepth);
        },
    };
    let g = match show_all_generations {
        Some(g) => g,
        None => false,
    };
    let state = FractalState {
        base_shape: BaseShape { lines },
        replicas,
        depth: d,
        show_all_generations: g,
    };
    match check_share_limits(&state) {
        Ok(()) => Ok(state),
        Err(e) => Err(e),
    }
}

/// One pair of a share body with its value decoded: the key and what its value says.
#[derive(Clone, Copy)]
pub enum ShareField<L, R> {
    /// `v=`.
    Version(u32),
    /// `depth=`.
    Depth(u32),
    /// `g=`.
    ShowAllGenerations(bool),
    /// `line=`: one segment.
    Line(L),
    /// `replica=`: one replica.
    Replica(R),
    /// A key this version does not know; skipped.
    Unknown,
}

/// What a body's pairs say once read in order: the last `v`, `depth` and `g` (if any),
/// and every segment and every replica in body order.
pub struct SharedFields<L, R> {
    pub version: Option<u32>,
    pub depth: Option<u32>,
    pub show_all_generations: Option<bool>,
    pub lines: Vec<L>,
    pub replicas: Vec<R>,
}

/// The abstract result of reading `fields` in order: `(version, depth, g, lines, replicas)`.
pub open spec fn spec_collect_share_fields<L, R>(fields: Seq<ShareField<L, R>>) -> (
    Option<u32>,
    Option<u32>,
    Option<bool>,
    Seq<L>,
    Seq<R>,
)
    decreases fields.len(),
{
    if fields.len() == 0 {
        (None, None, None, Seq::empty(), Seq::empty())
    } else {
        let p = spec_collect_share_fields(fields.drop_last());
        match fields.last() {
            ShareField::Version(v) => (Some(v), p.1, p.2, p.3, p.4),
            ShareField::Depth(d) => (p.0, Some(d), p.2, p.3, p.4),
            ShareField::ShowAllGenerations(g) => (p.0, p.1, Some(g), p.3, p.4),
            ShareField::Line(l) => (p.0, p.1, p.2, p.3.push(l), p.4),
            ShareField::Replica(r) => (p.0, p.1, p.2, p.3, p.4.push(r)),
            ShareField::Unknown => p,
        }
    }
}

/// Reads the decoded pairs of a body in order (see [`spec_collect_share_fields`]).
pub fn collect_share_fields<L: Copy, R: Copy>(fields: &[ShareField<L, R>]) -> (res: SharedFields<L, R>)
    ensures
        (res.version, res.depth, res.show_all_generations, res.lines@, res.replicas@)
            == spec_collect_share_fields(fields@),
{
    let mut out = SharedFields {
        version: None,
        depth: None,
        show_all_generations: None,
        lines: Vec::new(),
        replicas: Vec::new(),
    };
    let mut i: usize = 0;
    while i < fields.len()
        invariant
            i <= fields@.len(),
            (out.version, out.depth, out.show_all_generations, out.lines@, out.replicas@)
                == spec_collect_share_fields(fields@.take(i as int)),
        decreases fields@.len() - i,
    {
        proof {
            assert(fields@.take(i + 1).drop_last() =~= fields@.take(i as int));
        }
        match fields[i] {
            ShareField::Version(v) => out.version = Some(v),
            ShareField::Depth(d) => out.depth = Some(d),
            ShareField::ShowAllGenerations(g) => out.show_all_generations = Some(g),
            ShareField::Line(l) => out.lines.push(l),
            ShareField::Replica(r) => out.replicas.push(r),
            ShareField::Unknown => {},
        }
        i = i + 1;
    }
    proof {
        assert(fields@.take(fields@.len() as int) =~= fields@);
    }
    out
}

/// The pairs written for a state, in body order: `v`, `depth`, `g`, then one `line` per
/// segment and one `replica` per replica.
pub open spec fn spec_share_fields_of<L, R>(depth: u32, show_all_generations: bool, lines: Seq<L>, replicas: Seq<R>) -> Seq<
    ShareField<L, R>,
> {
    seq![
        ShareField::Version(SHARE_VERSION),
        ShareField::Depth(depth),
        ShareField::ShowAllGenerations(show_all_generations),
    ] + lines.map_values(|l: L| ShareField::Line(l)) + replicas.map_values(|r: R| ShareField::Replica(r))
}

/// The pairs to encode for a state (see [`spec_share_fields_of`]), or the first limit it
/// breaks; the caller writes each value and checks the coordinates.
pub fn share_fields_of<L: Copy, R: Copy>(state: &FractalState<L, R>) -> (res: Result<Vec<ShareField<L, R>>, ShareError>)
    ensures
        spec_share_limits(state.depth, state.base_shape.lines@.len(), state.replicas@.len()) matches Err(e)
            ==> res == Err::<Vec<ShareField<L, R>>, ShareError>(e),
        spec_share_limits(state.depth, state.base_shape.lines@.len(), state.replicas@.len()) is Ok ==> (
        res matches Ok(f) && f@ == spec_share_fields_of(
            state.depth,
            state.show_all_generations,
            state.base_shape.lines@,
            state.replicas@,
        )),
{
    match check_share_limits(state) {
        Err(e) => {
            return Err(e);
        },
        Ok(()) => {},
    }
    let mut out: Vec<ShareField<L, R>> = Vec::new();
    out.push(ShareField::Version(SHARE_VERSION));
    out.push(ShareField::Depth(state.depth));
    out.push(ShareField::ShowAllGenerations(state.show_all_generations));
    let ghost head = out@;
    let lines = &state.base_shape.lines;
    let mut i: usize = 0;
    while i < lines.len()
        invariant
            i <= lines@.len(),
            lines@.len() <= MAX_LINES,
            out@ == head + lines@.take(i as int).map_values(|l: L| ShareField::Line(l)),
        decreases lines@.len() - i,
    {
        out.push(ShareField::Line(lines[i]));
        i = i + 1;
        proof {
            assert(out@ =~= head + lines@.take(i as int).map_values(|l: L| ShareField::Line(l)));
        }
    }
    proof {
        assert(lines@.take(lines@.len() as int) =~= lines@);
    }
    let ghost mid = out@;
    let replicas = &state.replicas;
    let mut j: usize = 0;
    while j < replicas.len()
        invariant
            j <= replicas@.len(),
            replicas@.len() <= MAX_REPLICAS,
            out@.len() == mid.len() + j,
            mid.len() == 3 + lines@.len(),
            lines@.len() <= MAX_LINES,
            out@ == mid + replicas@.take(j as int).map_values(|r: R| ShareField::Replica(r)),
        decreases replicas@.len() - j,
    {
        out.push(ShareField::Replica(replicas[j]));
        j = j + 1;
        proof {
            assert(out@ =~= mid + replicas@.take(j as int).map_values(|r: R| ShareField::Replica(r)));
        }
    }
    proof {
        assert(replicas@.take(replicas@.len() as int) =~= replicas@);
    }
    Ok(out)
}

/// Reading segment pairs appends their segments and leaves the rest as it was.
proof fn lemma_collect_lines<L, R>(base: Seq<ShareField<L, R>>, lines: Seq<L>)
    ensures
        ({
            let b = spec_collect_share_fields(base);
            spec_collect_share_fields(base + lines.map_values(|l: L| ShareField::<L, R>::Line(l)))
                == (b.0, b.1, b.2, b.3 + lines, b.4)
        }),
    decreases lines.len(),
{
    let f = |l: L| ShareField::<L, R>::Line(l);
    if lines.len() == 0 {
        assert(base + lines.map_values(f) =~= base);
        assert(spec_collect_share_fields(base).3 + lines =~= spec_collect_share_fields(base).3);
    } else {
        let init = lines.drop_last();
        lemma_collect_lines::<L, R>(base, init);
        let whole = base + lines.map_values(f);
        assert(whole.drop_last() =~= base + init.map_values(f));
        assert(whole.last() == ShareField::<L, R>::Line(lines.last()));
        assert(spec_collect_share_fields(base).3 + init.push(lines.last())
            =~= (spec_collect_share_fields(base).3 + init).push(lines.last()));
        assert(init.push(lines.last()) =~= lines);
    }
}

/// Reading replica pairs appends their replicas and leaves the rest as it was.
proof fn lemma_collect_replicas<L, R>(base: Seq<ShareField<L, R>>, replicas: Seq<R>)
    ensures
        ({
            let b = spec_collect_share_fields(base);
            spec_collect_share_fields(base + replicas.map_values(|r: R| ShareField::<L, R>::Replica(r)))
                == (b.0, b.1, b.2, b.3, b.4 + replicas)
        }),
    decreases replicas.len(),
{
    let f = |r: R| ShareField::<L, R>::Replica(r);
    if replicas.len() == 0 {
        assert(base + replicas.map_values(f) =~= base);
        assert(spec_collect_share_fields(base).4 + replicas =~= spec_collect_share_fields(base).4);
    } else {
        let init = replicas.drop_last();
        lemma_collect_replicas::<L, R>(base, init);
        let whole = base + replicas.map_values(f);
        assert(whole.drop_last() =~= base + init.map_values(f));
        assert(whole.last() == ShareField::<L, R>::Replica(replicas.last()));
        assert(spec_collect_share_fields(base).4 + init.push(replicas.last())
            =~= (spec_collect_share_fields(base).4 + init).push(replicas.last()));
        assert(init.push(replicas.last()) =~= replicas);
    }
}

/// Law: a body written for a state reads back as that state. The pairs
/// [`share_fields_of`] writes for a depth, a `g` flag, segments and replicas, read with
/// [`collect_share_fields`], give back the current version, that depth and flag, and the
/// same segments and replicas in the same order.
pub proof fn law_share_pairs_round_trip<L, R>(depth: u32, show_all_generations: bool, lines: Seq<L>, replicas: Seq<R>)
    ensures
        spec_collect_share_fields(spec_share_fields_of(depth, show_all_generations, lines, replicas)) == (
            Some(SHARE_VERSION),
            Some(depth),
            Some(show_all_generations),
            lines,
            replicas,
        ),
{
    let head: Seq<ShareField<L, R>> = seq![
        ShareField::Version(SHARE_VERSION),
        ShareField::Depth(depth),
        ShareField::ShowAllGenerations(show_all_generations),
    ];
    assert(head.drop_last().drop_last().drop_last() =~= Seq::<ShareField<L, R>>::empty());
    assert(head.drop_last().drop_last().last() == ShareField::<L, R>::Version(SHARE_VERSION));
    reveal_with_fuel(spec_collect_share_fields, 4);
    let b = spec_collect_share_fields(head);
    assert(b == (Some(SHARE_VERSION), Some(depth), Some(show_all_generations), Seq::<L>::empty(), Seq::<R>::empty()));
    lemma_collect_lines::<L, R>(head, lines);
    let with_lines = head + lines.map_values(|l: L| ShareField::<L, R>::Line(l));
    lemma_collect_replicas::<L, R>(with_lines, replicas);
    assert(Seq::<L>::empty() + lines =~= lines);
    assert(Seq::<R>::empty() + replicas =~= replicas);
}

/// Law: what an encoder writes, the decoder reads back. A state within the limits,
/// written with the current version, its depth, its `g` flag and its segments and
/// replicas in order, is assembled back into the same depth, flag, segments and
/// replicas.
pub proof fn law_share_fields_round_trip<L, R>(depth: u32, show_all_generations: bool, lines: Seq<L>, replicas: Seq<R>)
    requires
        spec_share_limits(depth, lines.len(), replicas.len()) is Ok,
    ensures
        spec_assemble_shared_state(
            Some(SHARE_VERSION),
            Some(depth),
            Some(show_all_generations),
            lines,
            replicas,
        ) == Ok::<(u32, bool), ShareError>((depth, show_all_generations)),
{
}

/// Law: the key names written by the encoder are read back as the same keys, and no two
/// keys share a name.
pub proof fn law_share_key_names_round_trip()
    ensures
        spec_classify_share_key("v"@) == ShareKey::Version,
        spec_classify_share_key("depth"@) == ShareKey::Depth,
        spec_classify_share_key("g"@) == ShareKey::ShowAllGenerations,
        spec_classify_share_key("line"@) == ShareKey::Line,
        spec_classify_share_key("replica"@) == ShareKey::Replica,
{
    reveal_strlit("v");
    reveal_strlit("depth");
    reveal_strlit("g");
    reveal_strlit("line");
    reveal_strlit("replica");
    assert("depth"@ != "v"@) by {
        assert("depth"@.len() != "v"@.len());
    }
    assert("g"@ != "v"@) by {
        assert("g"@[0] != "v"@[0]);
    }
    assert("g"@ != "depth"@) by {
        assert("g"@.len() != "depth"@.len());
    }
    assert("line"@ != "v"@) by {
        assert("line"@.len() != "v"@.len());
    }
    assert("line"@ != "depth"@) by {
        assert("line"@.len() != "depth"@.len());
    }
    assert("line"@ != "g"@) by {
        assert("line"@.len() != "g"@.len());
    }
    assert("replica"@ != "v"@) by {
        assert("replica"@.len() != "v"@.len());
    }
    assert("replica"@ != "depth"@) by {
        assert("replica"@.len() != "depth"@.len());
    }
    assert("replica"@ != "g"@) by {
        assert("replica"@.len() != "g"@.len());
    }
    assert("replica"@ != "line"@) by {
        assert("replica"@.len() != "line"@.len());
    }
}

} // verus!
