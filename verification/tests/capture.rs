use lib::capture::{
    capture_command, capture_step, next_epoch, records_undo, CaptureCommand, CaptureStep, CaptureUi,
    CurveAction,
};

#[test]
fn epochs_skip_zero_and_always_change() {
    assert_eq!(next_epoch(0), 1);
    assert_eq!(next_epoch(1), 2);
    assert_eq!(next_epoch(u32::MAX), 1);
    assert_eq!(capture_step(0, 5), CaptureStep::Skip);
    assert_eq!(capture_step(3, 2), CaptureStep::Restart);
    assert_eq!(capture_step(3, 3), CaptureStep::Accumulate);
    let epoch = next_epoch(7);
    assert_eq!(capture_step(epoch, 7), CaptureStep::Restart);
}

#[test]
fn the_capture_button_starts_then_finishes_and_reset_ends_a_capture() {
    let idle = CaptureUi { active: false, frames: 9, transform_mode: true };
    let (started, effects) = capture_command(idle, CaptureCommand::ToggleCapture);
    assert_eq!(started, CaptureUi { active: true, frames: 0, transform_mode: false });
    assert!(effects.begin_request && effects.clear_sums && !effects.stop_request);
    let running = CaptureUi { frames: 40, ..started };
    let (finished, effects) = capture_command(running, CaptureCommand::ToggleCapture);
    assert_eq!(finished, CaptureUi { active: false, frames: 40, transform_mode: false });
    assert!(effects.stop_request && effects.transfer_to_curve && !effects.clear_sums);
    let (reset, effects) = capture_command(running, CaptureCommand::ResetCurve);
    assert_eq!(reset, CaptureUi { active: false, frames: 0, transform_mode: false });
    assert!(effects.stop_request && effects.clear_sums && effects.reset_curve);
    assert!(!effects.begin_request && !effects.transfer_to_curve);
}

#[test]
fn only_curve_changes_record_an_undo_step() {
    assert!(records_undo(CurveAction::Reset, false, false));
    assert!(records_undo(CurveAction::BeginEdit, false, false));
    assert!(records_undo(CurveAction::CommitTransform, false, false));
    assert!(records_undo(CurveAction::ToggleCapture, true, true));
    assert!(!records_undo(CurveAction::ToggleCapture, true, false));
    assert!(!records_undo(CurveAction::ToggleCapture, false, true));
    assert!(records_undo(CurveAction::Flip, false, true));
    assert!(!records_undo(CurveAction::Flip, false, false));
    assert!(records_undo(CurveAction::Paste, false, true));
    assert!(!records_undo(CurveAction::Load, false, false));
    for action in [CurveAction::Copy, CurveAction::Save, CurveAction::Undo, CurveAction::Redo] {
        assert!(!records_undo(action, true, true));
    }
}
