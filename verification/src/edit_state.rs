//! The Edit canvas's interaction state: drawing a new segment, selecting a segment,
//! moving it as a whole or by one endpoint.
//!
//! The state is generic over the point type `P`; cursor positions, snapping and hit
//! distances are floating point and handled by the caller. Which segment a state refers
//! to, when a state has to be reset, and what releasing the button leads to, is here.
use vstd::prelude::*;

verus! {

/// One of the two endpoints of a segment.
#[derive(Clone, Copy, Debug, PartialEq, Eq, Structural)]
pub enum LineEnd {
    A,
    B,
}

/// The Edit canvas's state.
pub enum DrawState<P> {
    /// Nothing selected; a drag draws a new segment.
    Idle,
    /// The segment with this index is selected.
    Selected(usize),
    /// A new segment is being drawn from `start`; `last_cursor` is kept for a release
    /// frame without a cursor.
    DrawingLine { start: P, last_cursor: P },
    /// The selected segment is being moved as a whole.
    MovingLine { idx: usize, cursor_start: P, line_a_start: P, line_b_start: P },
    /// One endpoint of the selected segment is being moved; `fixed` is the other one.
    MovingEndpoint { idx: usize, end: LineEnd, fixed: P, last_cursor: P },
}

/// The segment a state refers to: the selected, moved or reshaped one.
pub open spec fn spec_selected_index<P>(state: DrawState<P>) -> Option<usize> {
    match state {
        DrawState::Selected(i) => Some(i),
        DrawState::MovingLine { idx, .. } => Some(idx),
        DrawState::MovingEndpoint { idx, .. } => Some(idx),
        _ => None,
    }
}

/// The state after the mouse button is released: a move (of the segment or of an
/// endpoint) ends with the segment still selected; a drawn segment is finished (the
/// caller commits it when it is long enough) and nothing is selected; other states stay.
pub open spec fn spec_state_after_release<P>(state: DrawState<P>) -> DrawState<P> {
    match state {
        DrawState::DrawingLine { .. } => DrawState::Idle,
        DrawState::MovingLine { idx, .. } => DrawState::Selected(idx),
        DrawState::MovingEndpoint { idx, .. } => DrawState::Selected(idx),
        _ => state,
    }
}

impl<P: Copy> DrawState<P> {
    /// The index of the segment the state refers to, if any.
    pub fn selected_index(&self) -> (res: Option<usize>)
        ensures
            res == spec_selected_index(*self),
    {
        match self {
            DrawState::Selected(i) => Some(*i),
            DrawState::MovingLine { idx, .. } => Some(*idx),
            DrawState::MovingEndpoint { idx, .. } => Some(*idx),
            _ => None,
        }
    }

    /// Whether the state refers to a segment that no longer exists (after a clear, an
    /// undo): such a state is reset to idle before anything else is done.
    pub fn refers_past(&self, line_count: usize) -> (res: bool)
        ensures
            res == (spec_selected_index(*self) matches Some(i) && i >= line_count),
    {
        match self.selected_index() {
            Some(i) => i >= line_count,
            None => false,
        }
    }

    /// The state after the mouse button is released (see [`spec_state_after_release`]).
    pub fn after_release(self) -> (res: DrawState<P>)
        ensures
            res == spec_state_after_release(self),
    {
        match self {
            DrawState::DrawingLine { .. } => DrawState::Idle,
            DrawState::MovingLine { idx, .. } => DrawState::Selected(idx),
            DrawState::MovingEndpoint { idx, .. } => DrawState::Selected(idx),
            _ => self,
        }
    }
}

/// Deletes the selected segment (Delete / Backspace) when the state is a plain
/// selection of an existing segment; the state then becomes idle. Returns whether a
/// segment was deleted; nothing changes otherwise.
pub fn delete_selected_line<P: Copy, L>(state: &mut DrawState<P>, lines: &mut Vec<L>) -> (deleted: bool)
    ensures
        deleted == (*old(state) matches DrawState::Selected(i) && i < old(lines)@.len()),
        deleted ==> (*old(state) matches DrawState::Selected(i) && final(lines)@ == old(lines)@.remove(i as int)),
        deleted ==> *final(state) == DrawState::<P>::Idle,
        !deleted ==> final(lines)@ == old(lines)@ && *final(state) == *old(state),
{
    match *state {
        DrawState::Selected(idx) => {
            if idx < lines.len() {
                lines.remove(idx);
                *state = DrawState::Idle;
                true
            } else {
                false
            }
        },
        _ => false,
    }
}

/// What a press of the left button on the Edit canvas starts.
#[derive(Clone, Copy, Debug, PartialEq, Eq, Structural)]
pub enum EditPress {
    /// An endpoint of the selected segment is grabbed.
    MoveEndpoint { idx: usize, end: LineEnd },
    /// The segment with this index is selected and grabbed as a whole.
    MoveLine(usize),
    /// Empty canvas: the selection is dropped and a new segment is started.
    DrawNew,
}

/// The decision of a press, in order of priority: an endpoint of the selected segment
/// (`near_a`, `near_b`: the press is within reach of that segment's endpoint A, B; A
/// first), then the segment the caller's hit test found (`line_hit`), then a new segment.
pub fn plan_edit_press<P: Copy>(
    state: &DrawState<P>,
    line_count: usize,
    near_a: bool,
    near_b: bool,
    line_hit: Option<usize>,
) -> (res: EditPress)
    ensures
        res == (match *state {
            DrawState::Selected(sel) if sel < line_count && near_a => EditPress::MoveEndpoint {
                idx: sel,
                end: LineEnd::A,
            },
            DrawState::Selected(sel) if sel < line_count && near_b => EditPress::MoveEndpoint {
                idx: sel,
                end: LineEnd::B,
            },
            _ => match line_hit {
                Some(i) => EditPress::MoveLine(i),
                None => EditPress::DrawNew,
            },
        }),
{
    if let DrawState::Selected(sel) = *state {
        if sel < line_count {
            if near_a {
                return EditPress::MoveEndpoint { idx: sel, end: LineEnd::A };
            } else if near_b {
                return EditPress::MoveEndpoint { idx: sel, end: LineEnd::B };
            }
        }
    }
    match line_hit {
        Some(i) => EditPress::MoveLine(i),
        None => EditPress::DrawNew,
    }
}

/// Law: releasing the button never leaves a drag in progress, and a move always ends
/// with the moved segment selected.
pub proof fn law_release_ends_drags<P>(state: DrawState<P>)
    ensures
        !(spec_state_after_release(state) is DrawingLine),
        !(spec_state_after_release(state) is MovingLine),
        !(spec_state_after_release(state) is MovingEndpoint),
        (state is MovingLine || state is MovingEndpoint) ==> spec_state_after_release(state) == DrawState::<P>::Selected(
            spec_selected_index(state).unwrap(),
        ),
{
}

} // verus!
