use lib::editor::MANUAL_MASK_POINTS;
use lib::entries::{CurveSnapshot, HistoryEntry};
use lib::gestures::ParameterChange;
use lib::history::CurveHistory;
use lib::pinned::PinnedNotesState;

fn snapshot(point_42: f32, depth_percent: f32) -> CurveSnapshot {
    let mut curve = vec![0.0_f32.to_bits(); MANUAL_MASK_POINTS];
    curve[42] = point_42.to_bits();
    CurveSnapshot {
        curve,
        depth_percent: depth_percent.to_bits(),
        tilt_db_per_octave: 0.0_f32.to_bits(),
        shift_semitones: 0.0_f32.to_bits(),
    }
}

fn curve_of(entry: HistoryEntry) -> CurveSnapshot {
    match entry {
        HistoryEntry::Curve(c) => c,
        _ => panic!("curve entry"),
    }
}

#[test]
fn a_curve_gesture_undoes_to_the_recorded_curve_and_redoes_to_the_current_one() {
    let pinned = PinnedNotesState::new();
    let mut history = CurveHistory::default();
    let before = snapshot(-24.0, 100.0);
    history.record_before(HistoryEntry::Curve(before.clone()));
    let after = snapshot(-12.0, 100.0);
    let restored = curve_of(history.undo_entry(after.clone(), &pinned).unwrap());
    assert_eq!(f32::from_bits(restored.depth_percent), 100.0);
    assert_eq!(f32::from_bits(restored.curve[42]), -24.0);
    let restored = curve_of(history.redo_entry(before, &pinned).unwrap());
    assert_eq!(f32::from_bits(restored.depth_percent), 100.0);
    assert_eq!(f32::from_bits(restored.curve[42]), -12.0);
    assert!(history.undo_entry(after, &pinned).is_some());
}

#[test]
fn a_notes_entry_stores_the_current_pinned_notes_for_redo() {
    let mut pinned = PinnedNotesState::new();
    let mut history = CurveHistory::default();
    history.record_before(HistoryEntry::Notes(pinned.snapshot()));
    pinned.set_from_ui(60, true);
    let previous = match history.undo_entry(snapshot(0.0, 100.0), &pinned).unwrap() {
        HistoryEntry::Notes(n) => n,
        _ => panic!("notes entry"),
    };
    pinned.restore(&previous);
    assert!(!pinned.get(60));
    let next = match history.redo_entry(snapshot(0.0, 100.0), &pinned).unwrap() {
        HistoryEntry::Notes(n) => n,
        _ => panic!("notes entry"),
    };
    pinned.restore(&next);
    assert!(pinned.get(60));
}

#[test]
fn parameter_edits_undo_and_redo_with_swapped_values() {
    let pinned = PinnedNotesState::new();
    let mut history = CurveHistory::default();
    let change = ParameterChange { id: 12, before: 0.0_f32.to_bits(), after: 0.5_f32.to_bits() };
    history.record_before(HistoryEntry::Parameters(vec![change]));
    let undo = match history.undo_entry(snapshot(0.0, 100.0), &pinned).unwrap() {
        HistoryEntry::Parameters(c) => c,
        _ => panic!("parameter entry"),
    };
    assert_eq!(f32::from_bits(undo[0].before), 0.0);
    let redo = match history.redo_entry(snapshot(0.0, 100.0), &pinned).unwrap() {
        HistoryEntry::Parameters(c) => c,
        _ => panic!("parameter entry"),
    };
    assert_eq!(redo[0].id, 12);
    assert_eq!(f32::from_bits(redo[0].before), 0.5);
    assert_eq!(f32::from_bits(redo[0].after), 0.0);
    assert!(history.redo_entry(snapshot(0.0, 100.0), &pinned).is_none());
}

/// The editor records the pinned notes before a click on Hold or Reset.
fn click(history: &mut CurveHistory<HistoryEntry>, pinned: &mut PinnedNotesState, hold: bool) {
    history.record_before(HistoryEntry::Notes(pinned.snapshot()));
    if hold {
        pinned.toggle_capture_incoming();
    } else {
        pinned.clear();
    }
}

/// The undo shortcut.
fn undo(history: &mut CurveHistory<HistoryEntry>, pinned: &mut PinnedNotesState) {
    if let Some(HistoryEntry::Notes(notes)) = history.undo_entry(snapshot(0.0, 100.0), pinned) {
        pinned.restore(&notes);
    }
}

#[test]
fn hold_and_reset_undo_preserve_the_two_kinds_of_pinned_notes() {
    let mut history = CurveHistory::default();
    let mut pinned = PinnedNotesState::new();
    pinned.set(60, true);
    click(&mut history, &mut pinned, true);
    pinned.capture(64);
    click(&mut history, &mut pinned, false);
    assert!(!pinned.get(60));
    assert!(!pinned.get(64));
    undo(&mut history, &mut pinned);
    assert!(pinned.get(60));
    assert!(pinned.get(64));
    click(&mut history, &mut pinned, true);
    assert!(pinned.get(60));
    assert!(!pinned.get(64));
    undo(&mut history, &mut pinned);
    assert!(pinned.get(64));
}
