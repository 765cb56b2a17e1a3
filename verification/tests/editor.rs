use lib::editor::{
    active_bin_master_span, active_bin_to_master_index, consume_escape_for_temporary_mode,
    history_shortcut, host_key_capture, midi_note_octave, transform_interaction_active,
    HistoryAction, KeyCapture, ShortcutDecision, MANUAL_MASK_POINTS,
};
use lib::history::CurveHistory;

/// The curve and its transform values before a gesture.
#[derive(Clone, PartialEq)]
struct CurveSnapshot {
    curve: Vec<f32>,
    depth_percent: f32,
    tilt_db_per_octave: f32,
    shift_semitones: f32,
}

fn flat_curve_snapshot() -> CurveSnapshot {
    CurveSnapshot {
        curve: vec![0.0; MANUAL_MASK_POINTS],
        depth_percent: 100.0,
        tilt_db_per_octave: 0.0,
        shift_semitones: 0.0,
    }
}

/// One frame with Z pressed under Command (and Shift if `shift`): the
/// editor's decision, given its history.
fn curve_history_shortcut(
    history: &CurveHistory<CurveSnapshot>,
    curve_shortcuts_active: bool,
    text_edit_focused: bool,
    shift: bool,
) -> ShortcutDecision {
    history_shortcut(
        curve_shortcuts_active,
        text_edit_focused,
        shift,
        true,
        history.is_active(),
        history.can_undo(),
        history.can_redo(),
    )
}

#[test]
fn active_bin_spans_cover_the_master_mask_without_gaps() {
    for fft_size in [1024, 2048, 4096, 8192, 16_384] {
        let mut expected_first = 0;
        for bin in 0..=fft_size / 2 {
            let (first, last) = active_bin_master_span(bin, fft_size);
            assert_eq!(first, expected_first);
            assert!(last >= first);
            expected_first = last + 1;
        }
        assert_eq!(expected_first, MANUAL_MASK_POINTS);
    }
}

#[test]
fn midi_octave_numbering_uses_middle_c_as_c3() {
    assert_eq!(midi_note_octave(60), 3);
    assert_eq!(midi_note_octave(72), 4);
}

#[test]
fn alt_immediately_previews_transform_without_latching_it() {
    assert!(transform_interaction_active(
        false, false, true, false, false
    ));
    assert!(!transform_interaction_active(
        false, false, false, false, false
    ));
    assert!(transform_interaction_active(
        false, false, false, true, false
    ));
    assert!(!transform_interaction_active(true, true, true, true, false));
    assert!(!transform_interaction_active(
        false, false, true, true, true
    ));
}

#[test]
fn master_index_scales_active_bins_to_the_master_curve() {
    assert_eq!(active_bin_to_master_index(0, 1024), 0);
    assert_eq!(active_bin_to_master_index(1, 1024), 16);
    assert_eq!(active_bin_to_master_index(512, 1024), 8192);
    assert_eq!(active_bin_to_master_index(40, 1024), 640);
    assert_eq!(active_bin_to_master_index(8192, 16_384), 8192);
    assert_eq!(active_bin_to_master_index(3, 16_384), 3);
    assert_eq!(active_bin_master_span(40, 1024), (640, 655));
    assert_eq!(active_bin_master_span(512, 1024), (8192, 8192));
}

#[test]
fn negative_notes_round_toward_zero() {
    assert_eq!(midi_note_octave(0), -2);
    assert_eq!(midi_note_octave(11), -2);
    assert_eq!(midi_note_octave(127), 8);
    assert_eq!(midi_note_octave(-1), -2);
    assert_eq!(midi_note_octave(-13), -3);
}

#[test]
fn key_capture_prefers_text_then_undo_keys() {
    assert_eq!(host_key_capture(true, true), KeyCapture::CaptureAll);
    assert_eq!(host_key_capture(false, true), KeyCapture::CaptureAll);
    assert_eq!(host_key_capture(true, false), KeyCapture::CaptureUndoKeys);
    assert_eq!(host_key_capture(false, false), KeyCapture::IgnoreAll);
}

#[test]
fn exhausted_redo_is_consumed_without_falling_through_to_undo() {
    let d = history_shortcut(true, false, true, true, true, true, false);
    assert_eq!(
        d,
        ShortcutDecision { consume_redo: true, consume_undo: false, action: None }
    );
    let d = history_shortcut(true, false, true, false, true, false, true);
    assert_eq!(d.action, Some(HistoryAction::Redo));
    let d = history_shortcut(true, false, false, true, true, false, true);
    assert_eq!(
        d,
        ShortcutDecision { consume_redo: false, consume_undo: true, action: None }
    );
    let d = history_shortcut(true, false, false, true, true, true, false);
    assert_eq!(d.action, Some(HistoryAction::Undo));
}

#[test]
fn inactive_shortcuts_are_left_for_the_host() {
    let none = ShortcutDecision { consume_redo: false, consume_undo: false, action: None };
    assert_eq!(history_shortcut(false, false, false, true, true, true, true), none);
    assert_eq!(history_shortcut(true, true, true, true, true, true, true), none);
    assert_eq!(history_shortcut(true, false, false, true, false, false, false), none);
    assert_eq!(history_shortcut(true, false, true, false, false, false, false), none);
}

#[test]
fn command_z_selects_curve_undo_when_history_is_available() {
    let mut history = CurveHistory::default();
    history.record_before(flat_curve_snapshot());
    let decision = curve_history_shortcut(&history, true, false, false);
    assert_eq!(decision.action, Some(HistoryAction::Undo));
}

#[test]
fn space_is_always_left_for_the_host() {
    assert_eq!(host_key_capture(true, false), KeyCapture::CaptureUndoKeys);
}

#[test]
fn undo_keys_are_left_for_the_host_when_curve_shortcuts_are_inactive() {
    assert_eq!(host_key_capture(false, false), KeyCapture::IgnoreAll);
    let mut history = CurveHistory::default();
    history.record_before(flat_curve_snapshot());
    let decision = curve_history_shortcut(&history, false, false, false);
    assert!(decision.action.is_none());
    // The key stays pressed for the host.
    assert!(!decision.consume_undo && !decision.consume_redo);
}

#[test]
fn numeric_text_edit_temporarily_captures_keyboard_input() {
    assert_eq!(host_key_capture(false, true), KeyCapture::CaptureAll);
}

#[test]
fn escape_is_consumed_only_for_a_temporary_mode() {
    let mut escape_pressed = true;
    assert!(!consume_escape_for_temporary_mode(false, escape_pressed));
    assert!(escape_pressed);
    if consume_escape_for_temporary_mode(true, escape_pressed) {
        escape_pressed = false;
    } else {
        panic!("Escape must end the temporary mode");
    }
    assert!(!escape_pressed);
}

#[test]
fn command_shift_z_selects_curve_redo_when_history_is_available() {
    let mut history = CurveHistory::default();
    let before = flat_curve_snapshot();
    let mut after = before.clone();
    after.curve[42] = -18.0;
    history.record_before(before);
    let _ = history.undo(move |_| after);
    let decision = curve_history_shortcut(&history, true, false, true);
    assert_eq!(decision.action, Some(HistoryAction::Redo));
}

#[test]
fn exhausted_redo_does_not_fall_through_to_undo() {
    let mut history = CurveHistory::default();
    history.record_before(flat_curve_snapshot());
    let decision = curve_history_shortcut(&history, true, false, true);
    assert!(decision.action.is_none());
    // The shortcut is taken, not left pressed.
    assert!(decision.consume_redo);
}

#[test]
fn exhausted_undo_stays_local_while_redo_is_available() {
    let mut history = CurveHistory::default();
    let before = flat_curve_snapshot();
    let mut after = before.clone();
    after.depth_percent = 43.0;
    history.record_before(before);
    let _ = history.undo(move |_| after);
    let decision = curve_history_shortcut(&history, true, false, false);
    assert!(decision.action.is_none());
    assert!(decision.consume_undo);
}

#[test]
fn unavailable_curve_shortcut_is_left_for_the_host() {
    let history: CurveHistory<CurveSnapshot> = CurveHistory::default();
    let decision = curve_history_shortcut(&history, true, false, false);
    assert!(decision.action.is_none());
    assert!(!decision.consume_undo && !decision.consume_redo);
}

#[test]
fn focused_non_text_control_does_not_block_curve_shortcuts() {
    let mut history = CurveHistory::default();
    history.record_before(flat_curve_snapshot());
    // A focused control that is not a text field leaves text_edit_focused false.
    let decision = curve_history_shortcut(&history, true, false, false);
    assert_eq!(decision.action, Some(HistoryAction::Undo));
}
