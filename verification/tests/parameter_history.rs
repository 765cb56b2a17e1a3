use lib::gestures::{reversed_changes, ParameterChange, ParameterGestures, SetNotification};
use lib::history::CurveHistory;

/// What the host hears of an edit.
#[derive(Clone, Copy, Debug, PartialEq)]
enum Notification {
    Begin(usize),
    Value(usize, f32),
    End(usize),
}

/// The position of the "Partials" parameter, an integer from 1 to 24.
const PARTIALS: usize = 12;

fn partials_normalized(value: i32) -> f32 {
    (value - 1) as f32 / 23.0
}

/// Sends a requested value the way the editor's tracked setter does.
fn set(gestures: &mut ParameterGestures<f32>, host: &mut Vec<Notification>, id: usize, next: f32) {
    match gestures.set_parameter(id, next) {
        SetNotification::Nothing => {}
        SetNotification::SetValue => host.push(Notification::Value(id, next)),
        SetNotification::BeginAndSet => {
            host.push(Notification::Begin(id));
            host.push(Notification::Value(id, next));
        }
    }
}

fn end(gestures: &mut ParameterGestures<f32>, host: &mut Vec<Notification>, id: usize) {
    if gestures.end_set_parameter(id) {
        host.push(Notification::End(id));
    }
}

fn finish(gestures: &mut ParameterGestures<f32>, host: &mut Vec<Notification>) {
    for id in gestures.finish() {
        host.push(Notification::End(id));
    }
}

/// Restores each change's `before` value without waiting for the host.
fn restore_parameters(changes: &[ParameterChange<f32>], host: &mut Vec<Notification>) {
    for change in changes {
        host.push(Notification::Begin(change.id));
        host.push(Notification::Value(change.id, change.before));
        host.push(Notification::End(change.id));
    }
}

#[test]
fn queued_parameter_edits_undo_and_redo_without_waiting_for_host_echo() {
    let mut host = Vec::new();
    let mut gestures: ParameterGestures<f32> = ParameterGestures::new();
    // The host has not echoed anything: its value stays the default.
    let host_value = partials_normalized(1);
    let before = host_value;
    let after = partials_normalized(12);
    gestures.begin_set_parameter(PARTIALS, host_value);
    set(&mut gestures, &mut host, PARTIALS, after);
    end(&mut gestures, &mut host, PARTIALS);
    assert_eq!(host_value, before);
    let changes = gestures.take_completed();
    assert_eq!(changes.len(), 1);
    assert_eq!(changes[0].after, after);

    let mut history: CurveHistory<Vec<ParameterChange<f32>>> = CurveHistory::default();
    history.record_before(changes);
    // Host values have deliberately not caught up, including during redo.
    let undo = history.undo(|entry| reversed_changes(entry)).unwrap();
    restore_parameters(&undo, &mut host);
    let redo = history.redo(|entry| reversed_changes(entry)).unwrap();
    restore_parameters(&redo, &mut host);
    assert_eq!(
        host,
        vec![
            Notification::Begin(PARTIALS),
            Notification::Value(PARTIALS, after),
            Notification::End(PARTIALS),
            Notification::Begin(PARTIALS),
            Notification::Value(PARTIALS, before),
            Notification::End(PARTIALS),
            Notification::Begin(PARTIALS),
            Notification::Value(PARTIALS, after),
            Notification::End(PARTIALS),
        ]
    );
}

#[test]
fn stationary_drag_sends_no_repeated_values_or_extra_host_gestures() {
    let mut host = Vec::new();
    let mut gestures: ParameterGestures<f32> = ParameterGestures::new();
    gestures.begin_set_parameter(PARTIALS, partials_normalized(1));
    for _ in 0..100 {
        set(&mut gestures, &mut host, PARTIALS, partials_normalized(12));
    }
    assert!(gestures.take_completed().is_empty());
    end(&mut gestures, &mut host, PARTIALS);
    assert_eq!(gestures.take_completed().len(), 1);
    assert_eq!(
        host,
        vec![
            Notification::Begin(PARTIALS),
            Notification::Value(PARTIALS, partials_normalized(12)),
            Notification::End(PARTIALS),
        ]
    );
}

#[test]
fn unchanged_gesture_has_no_host_notifications_or_local_entry() {
    let mut host = Vec::new();
    let mut gestures: ParameterGestures<f32> = ParameterGestures::new();
    let current = partials_normalized(1);
    gestures.begin_set_parameter(PARTIALS, current);
    set(&mut gestures, &mut host, PARTIALS, current);
    end(&mut gestures, &mut host, PARTIALS);
    assert!(gestures.take_completed().is_empty());
    assert!(host.is_empty());
}

#[test]
fn closing_editor_finishes_an_open_host_gesture() {
    let mut host = Vec::new();
    let mut gestures: ParameterGestures<f32> = ParameterGestures::new();
    gestures.begin_set_parameter(PARTIALS, partials_normalized(1));
    set(&mut gestures, &mut host, PARTIALS, partials_normalized(12));
    finish(&mut gestures, &mut host);
    finish(&mut gestures, &mut host);
    assert!(!gestures.is_active());
    assert_eq!(gestures.take_completed().len(), 1);
    assert_eq!(host.len(), 3);
    assert_eq!(host.last(), Some(&Notification::End(PARTIALS)));
}
