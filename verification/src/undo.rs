//! Undo / redo history of the discrete editing operations (a confirmed segment, a clear,
//! adding or removing a replica). Continuous edits (dragging a value) are not recorded.
//!
//! The history keeps at most [`UNDO_LIMIT`] states; pushing a new state forgets the
//! oldest one when the history is full and always empties the redo stack.
use vstd::prelude::*;

verus! {

/// Number of states the history keeps.
pub const UNDO_LIMIT: usize = 50;

/// The history (oldest first) and the redo stack (most recently undone last).
pub struct UndoStack<T> {
    history: Vec<T>,
    redo_stack: Vec<T>,
}

/// The abstract stack: `(history, redo)`, both listed bottom first.
pub type UndoView<T> = (Seq<T>, Seq<T>);

impl<T> View for UndoStack<T> {
    type V = UndoView<T>;

    closed spec fn view(&self) -> UndoView<T> {
        (self.history@, self.redo_stack@)
    }
}

/// The stack after recording `state`: the oldest entry goes when the history is full,
/// `state` goes on top, the redo stack is emptied.
pub open spec fn spec_push<T>(v: UndoView<T>, state: T) -> UndoView<T> {
    let kept = if v.0.len() >= UNDO_LIMIT {
        v.0.drop_first()
    } else {
        v.0
    };
    (kept.push(state), Seq::empty())
}

/// Undo with the current state `current`: the top of the history comes back and
/// `current` goes onto the redo stack; nothing happens on an empty history.
pub open spec fn spec_undo<T>(v: UndoView<T>, current: T) -> (Option<T>, UndoView<T>) {
    if v.0.len() == 0 {
        (None, v)
    } else {
        (Some(v.0.last()), (v.0.drop_last(), v.1.push(current)))
    }
}

/// Redo with the current state `current`: the top of the redo stack comes back and
/// `current` goes onto the history; nothing happens on an empty redo stack.
pub open spec fn spec_redo<T>(v: UndoView<T>, current: T) -> (Option<T>, UndoView<T>) {
    if v.1.len() == 0 {
        (None, v)
    } else {
        (Some(v.1.last()), (v.0.push(current), v.1.drop_last()))
    }
}

/// The bound every reachable stack keeps: history and redo stack together hold at most
/// [`UNDO_LIMIT`] states.
pub open spec fn undo_view_bounded<T>(v: UndoView<T>) -> bool {
    v.0.len() + v.1.len() <= UNDO_LIMIT
}

impl<T> UndoStack<T> {
    /// The stack's invariant: history and redo stack together hold at most [`UNDO_LIMIT`] states.
    #[verifier::type_invariant]
    spec fn bounded(&self) -> bool {
        self.history@.len() + self.redo_stack@.len() <= UNDO_LIMIT
    }

    /// An empty history.
    pub fn new() -> (res: Self)
        ensures
            res@ == (Seq::<T>::empty(), Seq::<T>::empty()),
    {
        UndoStack { history: Vec::new(), redo_stack: Vec::new() }
    }

    /// Moves the history and the redo stack out, leaving both empty.
    fn take_parts(&mut self) -> (res: (Vec<T>, Vec<T>))
        ensures
            res.0@ == old(self)@.0,
            res.1@ == old(self)@.1,
            final(self)@ == (Seq::<T>::empty(), Seq::<T>::empty()),
    {
        proof {
            use_type_invariant(&*self);
        }
        let mut history: Vec<T> = Vec::new();
        let mut redo_stack: Vec<T> = Vec::new();
        std::mem::swap(&mut history, &mut self.history);
        std::mem::swap(&mut redo_stack, &mut self.redo_stack);
        (history, redo_stack)
    }

    /// Records `state` as the newest history entry (dropping the oldest when the history
    /// is full) and empties the redo stack.
    pub fn push(&mut self, state: T)
        ensures
            final(self)@ == spec_push(old(self)@, state),
            undo_view_bounded(final(self)@),
    {
        proof {
            use_type_invariant(&*self);
        }
        let (mut history, _) = self.take_parts();
        if history.len() >= UNDO_LIMIT {
            history.remove(0);
        }
        history.push(state);
        proof {
            assert(history@ =~= spec_push(old(self)@, state).0);
        }
        *self = UndoStack { history, redo_stack: Vec::new() };
    }

    /// Undo: takes the newest history entry and puts `current` onto the redo stack.
    /// Returns `None` and changes nothing when the history is empty.
    pub fn undo_pop(&mut self, current: T) -> (res: Option<T>)
        ensures
            (res, final(self)@) == spec_undo(old(self)@, current),
            undo_view_bounded(final(self)@),
    {
        proof {
            use_type_invariant(&*self);
        }
        let (mut history, mut redo_stack) = self.take_parts();
        let res = if let Some(prev) = history.pop() {
            redo_stack.push(current);
            Some(prev)
        } else {
            None
        };
        *self = UndoStack { history, redo_stack };
        res
    }

    /// Redo: takes the newest redo entry and puts `current` onto the history.
    /// Returns `None` and changes nothing when the redo stack is empty.
    pub fn redo_pop(&mut self, current: T) -> (res: Option<T>)
        ensures
            (res, final(self)@) == spec_redo(old(self)@, current),
            undo_view_bounded(final(self)@),
    {
        proof {
            use_type_invariant(&*self);
        }
        let (mut history, mut redo_stack) = self.take_parts();
        let res = if let Some(next) = redo_stack.pop() {
            history.push(current);
            Some(next)
        } else {
            None
        };
        *self = UndoStack { history, redo_stack };
        res
    }

    /// Whether there is a state to undo to.
    pub fn can_undo(&self) -> (res: bool)
        ensures
            res == (self@.0.len() > 0),
    {
        !self.history.is_empty()
    }

    /// Whether there is a state to redo to.
    pub fn can_redo(&self) -> (res: bool)
        ensures
            res == (self@.1.len() > 0),
    {
        !self.redo_stack.is_empty()
    }

    /// Forgets the whole history and redo stack (used when a state is loaded from a link).
    pub fn clear(&mut self)
        ensures
            final(self)@ == (Seq::<T>::empty(), Seq::<T>::empty()),
    {
        *self = UndoStack::new();
    }
}

impl<T> Default for UndoStack<T> {
    /// An empty history.
    fn default() -> (res: Self)
        ensures
            res@ == (Seq::<T>::empty(), Seq::<T>::empty()),
    {
        UndoStack::new()
    }
}

/// Law: undoing right after recording a state gives that state back, and the state that
/// was current at the undo becomes redoable.
pub proof fn law_undo_after_push_returns_pushed<T>(v: UndoView<T>, state: T, current: T)
    ensures
        spec_undo(spec_push(v, state), current).0 == Some(state),
        spec_undo(spec_push(v, state), current).1.1 == seq![current],
{
    let p = spec_push(v, state);
    assert(p.0.last() == state);
    assert(Seq::<T>::empty().push(current) =~= seq![current]);
}

/// Law: redo undoes an undo. After an undo that returned `prev`, redoing with `prev` as
/// the current state returns the state that was current at the undo and restores the
/// stack exactly.
pub proof fn law_redo_undoes_undo<T>(v: UndoView<T>, current: T)
    requires
        v.0.len() > 0,
    ensures
        ({
            let (prev, after_undo) = spec_undo(v, current);
            spec_redo(after_undo, prev.unwrap()) == (Some(current), v)
        }),
{
    let (prev, u) = spec_undo(v, current);
    assert(u.0.push(prev.unwrap()) =~= v.0);
    assert(u.1.drop_last() =~= v.1);
}

/// Law: undo undoes a redo, symmetrically.
pub proof fn law_undo_undoes_redo<T>(v: UndoView<T>, current: T)
    requires
        v.1.len() > 0,
    ensures
        ({
            let (next, after_redo) = spec_redo(v, current);
            spec_undo(after_redo, next.unwrap()) == (Some(current), v)
        }),
{
    let (next, u) = spec_redo(v, current);
    assert(u.0.drop_last() =~= v.0);
    assert(u.1.push(next.unwrap()) =~= v.1);
}

/// Law: recording a state forgets everything that could be redone, keeps at most
/// [`UNDO_LIMIT`] states, and drops the oldest state only when the history was full.
pub proof fn law_push_bounds_history<T>(v: UndoView<T>, state: T)
    requires
        undo_view_bounded(v),
    ensures
        spec_push(v, state).1.len() == 0,
        spec_push(v, state).0.len() <= UNDO_LIMIT,
        v.0.len() < UNDO_LIMIT ==> spec_push(v, state).0 == v.0.push(state),
        v.0.len() >= UNDO_LIMIT ==> spec_push(v, state).0 == v.0.drop_first().push(state),
{
}

/// The stack after recording `states` in order.
pub open spec fn spec_push_all<T>(v: UndoView<T>, states: Seq<T>) -> UndoView<T>
    decreases states.len(),
{
    if states.len() == 0 {
        v
    } else {
        spec_push(spec_push_all(v, states.drop_last()), states.last())
    }
}

/// What successive undos return, the `k`-th made with `currents[k]` as the current state.
pub open spec fn spec_undo_all<T>(v: UndoView<T>, currents: Seq<T>) -> Seq<Option<T>>
    decreases currents.len(),
{
    if currents.len() == 0 {
        Seq::empty()
    } else {
        let (res, after) = spec_undo(v, currents[0]);
        seq![res] + spec_undo_all(after, currents.drop_first())
    }
}

/// The number of states kept after recording `n` states on an empty stack.
pub open spec fn kept_count(n: nat) -> nat {
    if n < UNDO_LIMIT {
        n
    } else {
        UNDO_LIMIT as nat
    }
}

proof fn lemma_push_all_from_empty<T>(states: Seq<T>)
    ensures
        spec_push_all((Seq::<T>::empty(), Seq::<T>::empty()), states) == (
            states.subrange(states.len() - kept_count(states.len()), states.len() as int),
            Seq::<T>::empty(),
        ),
    decreases states.len(),
{
    let n = states.len();
    if n == 0 {
        assert(states.subrange(0, 0) =~= Seq::<T>::empty());
    } else {
        let init = states.drop_last();
        lemma_push_all_from_empty(init);
        let kept = init.subrange(init.len() - kept_count(init.len()), init.len() as int);
        if init.len() < UNDO_LIMIT {
            assert(kept.push(states.last()) =~= states.subrange(n - kept_count(n), n as int));
        } else {
            assert(kept.drop_first().push(states.last()) =~= states.subrange(n - kept_count(n), n as int));
        }
    }
}

proof fn lemma_undo_all<T>(v: UndoView<T>, currents: Seq<T>)
    ensures
        spec_undo_all(v, currents).len() == currents.len(),
        forall|k: int|
            0 <= k < currents.len() ==> #[trigger] spec_undo_all(v, currents)[k] == if k < v.0.len() {
                Some(v.0[v.0.len() - 1 - k])
            } else {
                None
            },
    decreases currents.len(),
{
    if currents.len() > 0 {
        let (res, after) = spec_undo(v, currents[0]);
        lemma_undo_all(after, currents.drop_first());
        let rest = spec_undo_all(after, currents.drop_first());
        assert forall|k: int| 0 <= k < currents.len() implies #[trigger] spec_undo_all(v, currents)[k] == if k
            < v.0.len() {
            Some(v.0[v.0.len() - 1 - k])
        } else {
            None
        } by {
            if k > 0 {
                assert(spec_undo_all(v, currents)[k] == rest[k - 1]);
            }
        }
    }
}

/// Law: the history keeps the newest [`UNDO_LIMIT`] states, and undo hands them back
/// newest first. After recording `states` on an empty stack, successive undos (with any
/// current states) return the last state recorded, then the one before, and so on back
/// to the oldest state kept (the last [`UNDO_LIMIT`] of them, all when fewer were
/// recorded); every further undo returns `None`.
pub proof fn law_undo_returns_newest_states_first<T>(states: Seq<T>, currents: Seq<T>)
    ensures
        spec_push_all((Seq::<T>::empty(), Seq::<T>::empty()), states).0.len() == kept_count(states.len()),
        spec_undo_all(spec_push_all((Seq::<T>::empty(), Seq::<T>::empty()), states), currents).len()
            == currents.len(),
        forall|k: int|
            0 <= k < currents.len() ==> #[trigger] spec_undo_all(
                spec_push_all((Seq::<T>::empty(), Seq::<T>::empty()), states),
                currents,
            )[k] == if k < kept_count(states.len()) {
                Some(states[states.len() - 1 - k])
            } else {
                None
            },
{
    lemma_push_all_from_empty(states);
    let v = spec_push_all((Seq::<T>::empty(), Seq::<T>::empty()), states);
    lemma_undo_all(v, currents);
    let n = states.len();
    assert forall|k: int| 0 <= k < currents.len() implies #[trigger] spec_undo_all(v, currents)[k] == if k
        < kept_count(n) {
        Some(states[n - 1 - k])
    } else {
        None
    } by {
        if k < kept_count(n) {
            assert(v.0[v.0.len() - 1 - k] == states[n - kept_count(n) + (kept_count(n) - 1 - k)]);
        }
    }
}

/// The stack with every state taken by its view.
pub open spec fn stack_views<T: View>(v: UndoView<T>) -> UndoView<T::V> {
    (v.0.map_values(|t: T| t@), v.1.map_values(|t: T| t@))
}

/// Recording a state and then taking views is taking views and then recording the
/// state's view.
pub proof fn lemma_push_views<T: View>(v: UndoView<T>, state: T)
    ensures
        stack_views(spec_push(v, state)) == spec_push(stack_views(v), state@),
{
    let kept = if v.0.len() >= UNDO_LIMIT {
        v.0.drop_first()
    } else {
        v.0
    };
    let vk = if v.0.len() >= UNDO_LIMIT {
        stack_views(v).0.drop_first()
    } else {
        stack_views(v).0
    };
    assert(kept.push(state).map_values(|t: T| t@) =~= vk.push(state@));
    assert(Seq::<T>::empty().map_values(|t: T| t@) =~= Seq::<T::V>::empty());
}

} // verus!
