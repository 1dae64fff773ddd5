//! Selection rules of the Placement canvas, where the replicas are picked, moved,
//! scaled, rotated, copied, pasted and deleted.
//!
//! Hit tests against the replicas' display frames are floating point and made by the
//! caller, one boolean per replica in drawing order; which replica a click then picks,
//! and how the selection follows a deletion, is decided here.
use vstd::prelude::*;

verus! {

/// `i` is the last index of `hits` that is set: the replica drawn on top among those hit.
pub open spec fn is_topmost_hit(hits: Seq<bool>, i: int) -> bool {
    &&& 0 <= i < hits.len()
    &&& hits[i]
    &&& forall|j: int| i < j < hits.len() ==> !#[trigger] hits[j]
}

/// The last index below `end` whose hit test passed, leaving out `skip`.
pub open spec fn last_hit_before(hits: Seq<bool>, skip: Option<usize>, end: int) -> Option<usize>
    decreases end,
{
    if end <= 0 {
        None
    } else if hits[end - 1] && skip != Some((end - 1) as usize) {
        Some((end - 1) as usize)
    } else {
        last_hit_before(hits, skip, end - 1)
    }
}

/// The replica drawn on top (the last one) among those whose hit test passed.
pub fn topmost_hit(hits: &[bool]) -> (res: Option<usize>)
    ensures
        res == last_hit_before(hits@, None, hits@.len() as int),
        res matches Some(i) ==> is_topmost_hit(hits@, i as int),
        res is None ==> forall|j: int| 0 <= j < hits@.len() ==> !#[trigger] hits@[j],
{
    let mut i = hits.len();
    while i > 0
        invariant
            i <= hits@.len(),
            forall|j: int| i <= j < hits@.len() ==> !#[trigger] hits@[j],
            last_hit_before(hits@, None, hits@.len() as int) == last_hit_before(hits@, None, i as int),
        decreases i,
    {
        if hits[i - 1] {
            return Some(i - 1);
        }
        i = i - 1;
    }
    None
}

/// The replica drawn on top among those hit, leaving out the selected one.
pub open spec fn is_topmost_other_hit(hits: Seq<bool>, selected: Option<usize>, i: int) -> bool {
    &&& 0 <= i < hits.len()
    &&& hits[i]
    &&& selected != Some(i as usize)
    &&& forall|j: int| i < j < hits.len() ==> !#[trigger] hits[j] || selected == Some(j as usize)
}

/// What a press on the Placement canvas starts.
#[derive(Clone, Copy, Debug, PartialEq, Eq, Structural)]
pub enum DragStart {
    /// The replica with this index is selected and grabbed (to move it, or to scale it
    /// when the press is near a corner of its frame).
    Grab(usize),
    /// Nothing is hit: the selected replica with this index waits to be rotated around
    /// its centre (a click without motion deselects it).
    RotateAround(usize),
    /// Nothing is hit and nothing valid is selected.
    Nothing,
}

/// The decision of a press (see [`plan_drag_start`]).
pub open spec fn spec_plan_drag_start(selected: Option<usize>, hits: Seq<bool>) -> DragStart {
    if selected matches Some(s) && s < hits.len() && hits[s as int] {
        DragStart::Grab(selected.unwrap())
    } else {
        match last_hit_before(hits, selected, hits.len() as int) {
            Some(i) => DragStart::Grab(i),
            None => match selected {
                Some(s) => if s < hits.len() {
                    DragStart::RotateAround(s)
                } else {
                    DragStart::Nothing
                },
                None => DragStart::Nothing,
            },
        }
    }
}

/// The decision of a press, given the current selection and one hit test per replica.
/// The selected replica wins when its frame is hit (so that its frame cannot be taken
/// away by another replica); otherwise the topmost other replica that is hit is
/// grabbed; otherwise a valid selection starts a pending rotation.
pub fn plan_drag_start(selected: Option<usize>, hits: &[bool]) -> (res: DragStart)
    ensures
        res == spec_plan_drag_start(selected, hits@),
        (selected matches Some(s) && s < hits@.len() && hits@[s as int]) ==> res == DragStart::Grab(
            selected.unwrap(),
        ),
        !(selected matches Some(s) && s < hits@.len() && hits@[s as int]) ==> (match res {
            DragStart::Grab(i) => is_topmost_other_hit(hits@, selected, i as int),
            DragStart::RotateAround(s) => selected == Some(s) && s < hits@.len() && forall|j: int|
                0 <= j < hits@.len() ==> !#[trigger] hits@[j] || selected == Some(j as usize),
            DragStart::Nothing => (forall|j: int|
                0 <= j < hits@.len() ==> !#[trigger] hits@[j] || selected == Some(j as usize)) && !(
            selected matches Some(s) && s < hits@.len()),
        }),
{
    if let Some(s) = selected {
        if s < hits.len() && hits[s] {
            return DragStart::Grab(s);
        }
    }
    let mut i = hits.len();
    while i > 0
        invariant
            i <= hits@.len(),
            !(selected matches Some(s) && s < hits@.len() && hits@[s as int]),
            forall|j: int| i <= j < hits@.len() ==> !#[trigger] hits@[j] || selected == Some(j as usize),
            last_hit_before(hits@, selected, hits@.len() as int) == last_hit_before(hits@, selected, i as int),
        decreases i,
    {
        let idx = i - 1;
        let is_selected = match selected {
            Some(s) => s == idx,
            None => false,
        };
        if hits[idx] && !is_selected {
            return DragStart::Grab(idx);
        }
        i = i - 1;
    }
    match selected {
        Some(s) => {
            if s < hits.len() {
                DragStart::RotateAround(s)
            } else {
                DragStart::Nothing
            }
        },
        None => DragStart::Nothing,
    }
}

/// The drag in progress on the Placement canvas, with what it started from. Generic over
/// the point type `P` and the scalar type `S` of the canvas.
#[derive(Clone, Copy)]
pub enum PlacementDrag<P, S> {
    /// No drag.
    Idle,
    /// The selected replica is being moved.
    Move { start_cursor: P, start_position: P },
    /// The selected replica is being scaled about `pivot`.
    Scale { pivot: P, start_cursor_dist: S, start_scale: S },
    /// The selected replica is being rotated about `pivot`.
    Rotate { pivot: P, start_angle: S, start_rotation: S },
    /// A press on empty canvas with a replica selected: it becomes a rotation once the
    /// cursor has moved far enough, and a release before that deselects.
    RotatePending { pivot: P, start_cursor: P, start_angle: S, start_rotation: S },
}

/// The Placement canvas's selection, drag and copied replica (of type `C`).
pub struct PlacementState<P, S, C> {
    /// The selected replica.
    pub selected: Option<usize>,
    /// The drag in progress.
    pub drag: PlacementDrag<P, S>,
    /// The replica copied with Ctrl+C.
    pub clipboard: Option<C>,
}

impl<P, S, C> Default for PlacementState<P, S, C> {
    /// Nothing selected, no drag, nothing copied.
    fn default() -> (res: Self)
        ensures
            res.selected is None,
            res.drag is Idle,
            res.clipboard is None,
    {
        PlacementState { selected: None, drag: PlacementDrag::Idle, clipboard: None }
    }
}

impl<P, S, C> PlacementState<P, S, C> {
    /// Clears the selection and ends any drag (Escape, a deleted replica, a new fractal);
    /// the copied replica stays.
    pub fn deselect(&mut self)
        ensures
            final(self).selected is None,
            final(self).drag is Idle,
            final(self).clipboard == old(self).clipboard,
    {
        self.selected = None;
        self.drag = PlacementDrag::Idle;
    }

    /// The button is released: a drag in progress ends, and a pending rotation that never
    /// started (a click on empty canvas) also clears the selection.
    pub fn release_drag(&mut self)
        ensures
            final(self).drag is Idle,
            final(self).selected == (if old(self).drag is RotatePending {
                None
            } else {
                old(self).selected
            }),
            final(self).clipboard == old(self).clipboard,
    {
        if let PlacementDrag::RotatePending { .. } = self.drag {
            self.selected = None;
        }
        self.drag = PlacementDrag::Idle;
    }
}

/// Where the selection points after the replica at `removed` has been deleted: gone if
/// it was the deleted one, one lower if it was above it, unchanged below it.
pub open spec fn spec_selection_after_removal(selected: Option<usize>, removed: usize) -> Option<usize> {
    match selected {
        Some(s) => if s == removed {
            None
        } else if s > removed {
            Some((s - 1) as usize)
        } else {
            Some(s)
        },
        None => None,
    }
}

/// Deletes the replica at `index` (a right click on it) and returns the updated
/// selection.
pub fn remove_replica_at<T>(replicas: &mut Vec<T>, selected: Option<usize>, index: usize) -> (res: Option<usize>)
    requires
        index < old(replicas)@.len(),
    ensures
        final(replicas)@ == old(replicas)@.remove(index as int),
        res == spec_selection_after_removal(selected, index),
{
    replicas.remove(index);
    match selected {
        Some(s) => {
            if s == index {
                None
            } else if s > index {
                Some(s - 1)
            } else {
                Some(s)
            }
        },
        None => None,
    }
}

/// The replica the Delete / Backspace key removes: the selected one, when it exists.
pub fn replica_to_delete(selected: Option<usize>, replica_count: usize) -> (res: Option<usize>)
    ensures
        res == (if selected matches Some(s) && s < replica_count {
            selected
        } else {
            None
        }),
{
    match selected {
        Some(s) => if s < replica_count {
            Some(s)
        } else {
            None
        },
        None => None,
    }
}

/// Appends a pasted replica and returns its index, which becomes the selection.
pub fn paste_replica<T>(replicas: &mut Vec<T>, replica: T) -> (res: usize)
    requires
        old(replicas)@.len() < usize::MAX,
    ensures
        final(replicas)@ == old(replicas)@.push(replica),
        res == old(replicas)@.len(),
{
    let new_idx = replicas.len();
    replicas.push(replica);
    new_idx
}

/// Which touch drives the drag, updated once per frame: a double-tap zoom or a second
/// finger cancels the touch drag (and any drag in progress); otherwise, with no touch
/// driving yet, the first touch that went down this frame takes over.
/// Returns the driving touch and whether the drag in progress is to be cancelled.
pub fn track_drag_touch(
    drag_touch: Option<u64>,
    touch_count: usize,
    double_tap_zoom_active: bool,
    first_new_touch: Option<u64>,
) -> (res: (Option<u64>, bool))
    ensures
        (touch_count >= 2 || double_tap_zoom_active) ==> res == (None::<u64>, drag_touch is Some),
        !(touch_count >= 2 || double_tap_zoom_active) && drag_touch is Some ==> res == (drag_touch, false),
        !(touch_count >= 2 || double_tap_zoom_active) && drag_touch is None ==> res == (first_new_touch, false),
{
    let mut id = drag_touch;
    let mut cancel = false;
    if double_tap_zoom_active && id.is_some() {
        id = None;
        cancel = true;
    }
    if touch_count >= 2 || double_tap_zoom_active {
        if id.is_some() {
            id = None;
            cancel = true;
        }
    } else if id.is_none() {
        if let Some(t) = first_new_touch {
            id = Some(t);
        }
    }
    (id, cancel)
}

/// The pointer of this frame as `(pressed, just pressed, just released)`: the driving
/// touch when it is down, went down or came up this frame, the left mouse button
/// otherwise.
pub fn pointer_buttons(
    touch: (bool, bool, bool),
    mouse: (bool, bool, bool),
) -> (res: (bool, bool, bool))
    ensures
        (touch.0 || touch.1 || touch.2) ==> res == touch,
        !(touch.0 || touch.1 || touch.2) ==> res == mouse,
{
    let (touch_pressed, touch_just_pressed, touch_just_released) = touch;
    let use_touch = touch_pressed || touch_just_pressed || touch_just_released;
    if use_touch {
        touch
    } else {
        mouse
    }
}

/// Law: deleting another replica keeps the selection on the same replica; deleting the
/// selected one clears the selection.
pub proof fn law_selection_follows_removal<T>(replicas: Seq<T>, selected: usize, removed: usize)
    requires
        selected < replicas.len(),
        removed < replicas.len(),
    ensures
        selected == removed ==> spec_selection_after_removal(Some(selected), removed) is None,
        selected != removed ==> ({
            let s2 = spec_selection_after_removal(Some(selected), removed).unwrap();
            &&& s2 < replicas.remove(removed as int).len()
            &&& replicas.remove(removed as int)[s2 as int] == replicas[selected as int]
        }),
{
}

/// Law: after a paste, the selection is the pasted replica.
pub proof fn law_paste_selects_pasted<T>(replicas: Seq<T>, replica: T)
    ensures
        replicas.push(replica)[replicas.len() as int] == replica,
{
}

} // verus!
