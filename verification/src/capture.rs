//! Spectrum capture bookkeeping. The editor starts a capture under a new
//! epoch; the audio thread accumulates under the requested epoch, restarting
//! when the epoch changes; epoch 0 means that no capture is requested.
use vstd::prelude::*;

verus! {

/// The epoch after `previous`: one more, wrapping past the largest value to
/// 1, since 0 means "stopped".
pub open spec fn next_epoch_spec(previous: u32) -> u32 {
    if previous == u32::MAX { 1 } else { (previous + 1) as u32 }
}

/// The epoch that a new capture request takes after `previous`.
pub fn next_epoch(previous: u32) -> (r: u32)
    ensures
        r == next_epoch_spec(previous),
        r != 0,
        r != previous,
{
    let next = previous.wrapping_add(1);
    if next > 1 {
        next
    } else {
        1
    }
}

/// What the audio thread does with one block of levels.
#[derive(Clone, Copy, Debug, PartialEq, Eq, Structural)]
pub enum CaptureStep {
    /// No capture is requested: leave everything as it is.
    Skip,
    /// A new capture began: clear the sums, then accumulate under it.
    Restart,
    /// Keep accumulating under the current capture.
    Accumulate,
}

/// No request: skip; a request under another epoch: restart; else
/// accumulate.
pub open spec fn step_for(requested: u32, current: u32) -> CaptureStep {
    if requested == 0 {
        CaptureStep::Skip
    } else if requested != current {
        CaptureStep::Restart
    } else {
        CaptureStep::Accumulate
    }
}

/// The step for a block, given the requested epoch and the epoch the
/// accumulator holds.
pub fn capture_step(requested: u32, current: u32) -> (r: CaptureStep)
    ensures
        r == step_for(requested, current),
{
    if requested == 0 {
        CaptureStep::Skip
    } else if requested != current {
        CaptureStep::Restart
    } else {
        CaptureStep::Accumulate
    }
}

/// A capture that has been started is never taken for "stopped", and
/// starting another one always changes the epoch, so the accumulator
/// restarts instead of mixing two captures.
pub proof fn lemma_new_capture_restarts(previous: u32)
    ensures
        step_for(next_epoch_spec(previous), previous) == CaptureStep::Restart,
        step_for(next_epoch_spec(previous), next_epoch_spec(previous)) == CaptureStep::Accumulate,
        step_for(0, previous) == CaptureStep::Skip,
{
}

/// A curve action of the editor that touches the capture.
#[derive(Clone, Copy, Debug, PartialEq, Eq, Structural)]
pub enum CaptureCommand {
    /// Reset the curve to flat.
    ResetCurve,
    /// The capture button: start a capture, or finish the one under way.
    ToggleCapture,
}

/// The editor's capture state: whether a capture is under way, how many
/// frames it has summed, and whether the transform mode is on.
#[derive(Clone, Copy, Debug, PartialEq, Eq, Structural)]
pub struct CaptureUi {
    pub active: bool,
    pub frames: usize,
    pub transform_mode: bool,
}

/// What the editor must do after a command.
#[derive(Clone, Copy, Debug, PartialEq, Eq, Structural)]
pub struct CaptureEffects {
    /// Withdraw the capture request from the audio thread.
    pub stop_request: bool,
    /// Clear the summed power (the frame count is cleared in the state).
    pub clear_sums: bool,
    /// Request a new capture, under a new epoch, and clear its preview.
    pub begin_request: bool,
    /// Turn the captured spectrum into the curve (recording it for undo if
    /// the curve changes).
    pub transfer_to_curve: bool,
    /// Record the curve for undo, flatten it, and restore the transform
    /// values to their defaults.
    pub reset_curve: bool,
}

/// The next state and effects: Reset ends any capture, clears its sums and
/// flattens the curve; the capture button finishes a capture under way by
/// turning it into the curve, and otherwise starts a new one with cleared
/// sums, leaving the transform mode.
pub open spec fn capture_command_spec(state: CaptureUi, command: CaptureCommand) -> (CaptureUi, CaptureEffects) {
    let none = CaptureEffects {
        stop_request: false,
        clear_sums: false,
        begin_request: false,
        transfer_to_curve: false,
        reset_curve: false,
    };
    match command {
        CaptureCommand::ResetCurve => (
            CaptureUi { active: false, frames: 0, ..state },
            CaptureEffects { stop_request: true, clear_sums: true, reset_curve: true, ..none },
        ),
        CaptureCommand::ToggleCapture => if state.active {
            (
                CaptureUi { active: false, ..state },
                CaptureEffects { stop_request: true, transfer_to_curve: true, ..none },
            )
        } else {
            (
                CaptureUi { active: true, frames: 0, transform_mode: false },
                CaptureEffects { clear_sums: true, begin_request: true, ..none },
            )
        },
    }
}

/// Decides what a curve command does to the capture.
pub fn capture_command(state: CaptureUi, command: CaptureCommand) -> (r: (CaptureUi, CaptureEffects))
    ensures
        r == capture_command_spec(state, command),
            r.1.reset_curve <==> command == CaptureCommand::ResetCurve,
            r.1.transfer_to_curve <==> (command == CaptureCommand::ToggleCapture && state.active),
            r.1.begin_request <==> (command == CaptureCommand::ToggleCapture && !state.active),
            r.1.stop_request <==> !r.0.active,
            r.1.clear_sums ==> r.0.frames == 0,
            r.1.clear_sums <==> !r.1.transfer_to_curve,
            r.1.transfer_to_curve ==> r.0.frames == state.frames && r.0.transform_mode == state.transform_mode,
            r.1.begin_request ==> r.0.active && !r.0.transform_mode,
            !r.1.begin_request ==> r.0.transform_mode == state.transform_mode,
{
    let none = CaptureEffects {
        stop_request: false,
        clear_sums: false,
        begin_request: false,
        transfer_to_curve: false,
        reset_curve: false,
    };
    match command {
        CaptureCommand::ResetCurve => (
            CaptureUi { active: false, frames: 0, ..state },
            CaptureEffects { stop_request: true, clear_sums: true, reset_curve: true, ..none },
        ),
        CaptureCommand::ToggleCapture => if state.active {
            (
                CaptureUi { active: false, ..state },
                CaptureEffects { stop_request: true, transfer_to_curve: true, ..none },
            )
        } else {
            (
                CaptureUi { active: true, frames: 0, transform_mode: false },
                CaptureEffects { clear_sums: true, begin_request: true, ..none },
            )
        },
    }
}

/// A curve action of the editor.
#[derive(Clone, Copy, Debug, PartialEq, Eq, Structural)]
pub enum CurveAction {
    Reset,
    ToggleCapture,
    Flip,
    Copy,
    Paste,
    Save,
    Load,
    BeginEdit,
    CommitTransform,
    Undo,
    Redo,
}

/// Whether an action records the curve for undo before it changes it:
/// Reset, the start of an edit and a committed transform always do;
/// finishing a capture and a flip do when they change the curve; a paste
/// or a load does when its text was a curve; a copy, a save, the start of
/// a capture, an undo and a redo never do. `capture_active` says whether a
/// capture was under way; `changed` whether the action changed the curve
/// (or, for a paste or a load, read a curve).
pub open spec fn records_undo_spec(action: CurveAction, capture_active: bool, changed: bool) -> bool {
    match action {
        CurveAction::Reset | CurveAction::BeginEdit | CurveAction::CommitTransform => true,
        CurveAction::ToggleCapture => capture_active && changed,
        CurveAction::Flip | CurveAction::Paste | CurveAction::Load => changed,
        CurveAction::Copy | CurveAction::Save | CurveAction::Undo | CurveAction::Redo => false,
    }
}

/// Whether `action` records the curve for undo.
pub fn records_undo(action: CurveAction, capture_active: bool, changed: bool) -> (r: bool)
    ensures
        r == records_undo_spec(action, capture_active, changed),
        action == CurveAction::Load || action == CurveAction::Paste || action == CurveAction::Flip
            ==> r == changed,
        action == CurveAction::ToggleCapture ==> r == (capture_active && changed),
        action == CurveAction::Reset || action == CurveAction::BeginEdit || action
            == CurveAction::CommitTransform ==> r,
        action == CurveAction::Copy || action == CurveAction::Save || action == CurveAction::Undo
            || action == CurveAction::Redo ==> !r,
{
    match action {
        CurveAction::Reset | CurveAction::BeginEdit | CurveAction::CommitTransform => true,
        CurveAction::ToggleCapture => capture_active && changed,
        CurveAction::Flip | CurveAction::Paste | CurveAction::Load => changed,
        CurveAction::Copy | CurveAction::Save | CurveAction::Undo | CurveAction::Redo => false,
    }
}

/// Only Reset flattens the curve: finishing a capture turns the captured
/// spectrum into the curve instead, and starting one leaves the curve alone.
/// A capture ends (its request is withdrawn) exactly when the result has no
/// capture under way; only starting one requests a new capture, and it
/// leaves the transform mode; finishing one keeps the frames it summed and
/// the transform mode; sums are cleared exactly when nothing is transferred,
/// and then no frame remains counted.
pub proof fn lemma_capture_commands_do_what_they_say(state: CaptureUi, command: CaptureCommand)
    ensures
        ({
            let (next, effects) = capture_command_spec(state, command);
            &&& effects.reset_curve <==> command == CaptureCommand::ResetCurve
            &&& effects.transfer_to_curve <==> (command == CaptureCommand::ToggleCapture && state.active)
            &&& (command == CaptureCommand::ToggleCapture && state.active) ==> !effects.reset_curve
                && !effects.clear_sums && !effects.begin_request && effects.stop_request && !next.active
                && next.frames == state.frames && next.transform_mode == state.transform_mode
            &&& effects.begin_request <==> (command == CaptureCommand::ToggleCapture && !state.active)
            &&& effects.begin_request ==> next.active && next.frames == 0 && !next.transform_mode
                && !effects.stop_request && !effects.reset_curve
            &&& effects.stop_request <==> !next.active
            &&& effects.clear_sums <==> !effects.transfer_to_curve
            &&& effects.clear_sums ==> next.frames == 0
            &&& command == CaptureCommand::ResetCurve ==> !next.active && next.transform_mode
                == state.transform_mode
        }),
{
}

/// Loading a curve file records undo exactly as pasting one does, and both
/// record exactly when a curve was read; a flip records exactly when it
/// changed the curve and finishing a capture exactly when the capture
/// changed it; Reset, the start of an edit and a committed transform always
/// record, while copying, saving, undoing and redoing never do. So every
/// action that can change the curve can be undone.
pub proof fn lemma_curve_changes_are_undoable(capture_active: bool, changed: bool)
    ensures
        records_undo_spec(CurveAction::Load, capture_active, changed) == records_undo_spec(
            CurveAction::Paste,
            capture_active,
            changed,
        ),
        records_undo_spec(CurveAction::Load, capture_active, changed) == changed,
        records_undo_spec(CurveAction::Flip, capture_active, changed) == changed,
        records_undo_spec(CurveAction::ToggleCapture, capture_active, changed) == (capture_active
            && changed),
        records_undo_spec(CurveAction::Reset, capture_active, changed),
        records_undo_spec(CurveAction::BeginEdit, capture_active, changed),
        records_undo_spec(CurveAction::CommitTransform, capture_active, changed),
        !records_undo_spec(CurveAction::Copy, capture_active, changed),
        !records_undo_spec(CurveAction::Save, capture_active, changed),
        !records_undo_spec(CurveAction::Undo, capture_active, changed),
        !records_undo_spec(CurveAction::Redo, capture_active, changed),
        forall|action: CurveAction|
            records_undo_spec(action, capture_active, true) || action == CurveAction::Copy || action
                == CurveAction::Save || action == CurveAction::Undo || action == CurveAction::Redo
                || (action == CurveAction::ToggleCapture && !capture_active),
{
}

} // verus!
