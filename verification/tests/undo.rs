use fractalium::undo::{UndoStack, UNDO_LIMIT};

#[test]
fn undo_redo_round_trip() {
    let mut u: UndoStack<u32> = UndoStack::new();
    assert!(!u.can_undo());
    assert!(!u.can_redo());
    assert_eq!(u.undo_pop(7), None);
    u.push(1);
    u.push(2);
    assert!(u.can_undo());
    assert_eq!(u.undo_pop(3), Some(2));
    assert!(u.can_redo());
    assert_eq!(u.redo_pop(2), Some(3));
    assert!(!u.can_redo());
    assert_eq!(u.undo_pop(3), Some(2));
    assert_eq!(u.undo_pop(2), Some(1));
    assert_eq!(u.undo_pop(1), None);
    assert_eq!(u.redo_pop(1), Some(2));
    assert_eq!(u.redo_pop(2), Some(3));
    assert_eq!(u.redo_pop(3), None);
}

#[test]
fn push_clears_redo() {
    let mut u: UndoStack<u32> = UndoStack::default();
    u.push(1);
    assert_eq!(u.undo_pop(2), Some(1));
    assert!(u.can_redo());
    u.push(5);
    assert!(!u.can_redo());
}

#[test]
fn history_keeps_last_fifty() {
    let mut u: UndoStack<usize> = UndoStack::new();
    for i in 0..(UNDO_LIMIT + 10) {
        u.push(i);
    }
    let mut count = 0;
    let mut last = None;
    while let Some(v) = u.undo_pop(0) {
        count += 1;
        last = Some(v);
    }
    assert_eq!(count, UNDO_LIMIT);
    assert_eq!(last, Some(10));
}

#[test]
fn clear_forgets_everything() {
    let mut u: UndoStack<u8> = UndoStack::new();
    u.push(1);
    u.push(2);
    assert_eq!(u.undo_pop(3), Some(2));
    u.clear();
    assert!(!u.can_undo());
    assert!(!u.can_redo());
}

#[test]
fn fifty_undos_after_fifty_five_pushes() {
    let mut u: UndoStack<u32> = UndoStack::new();
    for s in 1..=55u32 {
        u.push(s);
    }
    assert!(u.can_undo() && !u.can_redo());
    for k in 0..50u32 {
        assert_eq!(u.undo_pop(1000 + k), Some(55 - k));
    }
    assert_eq!(u.undo_pop(2000), None);
    assert!(u.can_redo());
}
