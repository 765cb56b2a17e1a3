use lib::history::{CurveHistory, CURVE_HISTORY_LIMIT};

#[test]
fn undo_and_redo_exchange_entries_through_their_inverses() {
    let mut history: CurveHistory<i32> = CurveHistory::new();
    assert!(!history.is_active());
    history.record_before(1);
    history.record_before(2);
    assert!(history.can_undo() && !history.can_redo());
    // The inverse stands for "the state just before the undo".
    assert_eq!(history.undo(|e| e + 100), Some(2));
    assert!(history.can_redo());
    assert_eq!(history.redo(|e| e - 100), Some(102));
    assert_eq!(history.undo(|e| e * 10), Some(2));
    assert_eq!(history.undo(|e| e * 10), Some(1));
    assert!(!history.can_undo());
    assert_eq!(history.undo(|e| e * 10), None);
    assert_eq!(history.redo(|e| *e), Some(10));
    assert_eq!(history.redo(|e| *e), Some(20));
    assert_eq!(history.redo(|e| *e), None);
}

#[test]
fn recording_forgets_redo_and_does_not_repeat_the_last_entry() {
    let mut history: CurveHistory<i32> = CurveHistory::default();
    history.record_before(5);
    history.record_before(5);
    assert_eq!(history.undo(|e| *e), Some(5));
    assert!(!history.can_undo());
    assert!(history.can_redo());
    history.record_before(7);
    assert!(!history.can_redo());
    history.record_before(7);
    assert_eq!(history.undo(|e| *e), Some(7));
    assert_eq!(history.undo(|e| *e), None);
}

#[test]
fn undo_keeps_only_the_newest_entries() {
    let mut history: CurveHistory<usize> = CurveHistory::new();
    for entry in 0..CURVE_HISTORY_LIMIT + 5 {
        history.record_before(entry);
    }
    let mut undone = Vec::new();
    while let Some(entry) = history.undo(|e| *e) {
        undone.push(entry);
    }
    assert_eq!(undone.len(), CURVE_HISTORY_LIMIT);
    assert_eq!(undone[0], CURVE_HISTORY_LIMIT + 4);
    assert_eq!(undone[CURVE_HISTORY_LIMIT - 1], 5);
}
