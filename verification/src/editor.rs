//! Editor geometry: how the active FFT bins address the master curve, how
//! MIDI notes are numbered, and when the curve transform is in effect.
use vstd::prelude::*;

verus! {

/// One stored curve value for every bin of the largest (16384-sample) RFFT.
pub const MANUAL_MASK_POINTS: usize = 8193;

/// The master-curve index of an active bin: the bin's position scaled from
/// `fft_size / 2` active bins to the 8192 master steps, rounded down, and
/// capped at the last point.
pub open spec fn master_index(active_bin: int, fft_size: int) -> int {
    let scaled = active_bin * 8192 / (fft_size / 2);
    if scaled < 8192 { scaled } else { 8192 }
}

/// The master-curve index that an active bin of an `fft_size`-point FFT
/// addresses.
pub fn active_bin_to_master_index(active_bin: usize, fft_size: usize) -> (r: usize)
    requires
        fft_size >= 2,
        active_bin * 8192 <= usize::MAX,
    ensures
        r == master_index(active_bin as int, fft_size as int),
        r < MANUAL_MASK_POINTS,
{
    let active_bins = fft_size / 2;
    let scaled = active_bin * (MANUAL_MASK_POINTS - 1) / active_bins;
    if scaled < MANUAL_MASK_POINTS - 1 {
        scaled
    } else {
        MANUAL_MASK_POINTS - 1
    }
}

/// The first and last master index that an active bin owns.
pub open spec fn master_span(active_bin: int, fft_size: int) -> (int, int) {
    let first = master_index(active_bin, fft_size);
    let last = if active_bin >= fft_size / 2 {
        8192
    } else {
        let next = master_index(active_bin + 1, fft_size);
        if next >= 1 { next - 1 } else { 0 }
    };
    (first, if last >= first { last } else { first })
}

/// The inclusive range of master-curve points that one active bin covers.
/// The last bin reaches the end of the master curve.
pub fn active_bin_master_span(active_bin: usize, fft_size: usize) -> (r: (usize, usize))
    requires
        fft_size >= 2,
        (active_bin + 1) * 8192 <= usize::MAX,
    ensures
        (r.0 as int, r.1 as int) == master_span(active_bin as int, fft_size as int),
        r.0 <= r.1 < MANUAL_MASK_POINTS,
{
    let first = active_bin_to_master_index(active_bin, fft_size);
    let last = if active_bin >= fft_size / 2 {
        MANUAL_MASK_POINTS - 1
    } else {
        let next = active_bin_to_master_index(active_bin + 1, fft_size);
        if next >= 1 { next - 1 } else { 0 }
    };
    (first, if last >= first { last } else { first })
}

proof fn lemma_master_index_steps(bin: int, n: int)
    requires
        1 <= n <= 8192,
        0 <= bin,
    ensures
        (bin + 1) * 8192 / n >= bin * 8192 / n + 1,
        bin * 8192 / n >= 0,
{
    let x = bin * 8192;
    assert((bin + 1) * 8192 == x + 8192) by (nonlinear_arith)
        requires
            x == bin * 8192,
    ;
    assert(x >= 0) by (nonlinear_arith)
        requires
            0 <= bin,
            x == bin * 8192,
    ;
    vstd::arithmetic::div_mod::lemma_div_plus_one(x, n);
    vstd::arithmetic::div_mod::lemma_div_is_ordered(n + x, x + 8192, n);
    vstd::arithmetic::div_mod::lemma_div_pos_is_pos(x, n);
}

/// The active bins of any FFT from 2 to 16384 points tile the master curve
/// in order: bin 0 starts at point 0, each bin ends where the next begins,
/// and the Nyquist bin ends at the last point.
pub proof fn lemma_spans_tile_master_curve(fft_size: int)
    requires
        2 <= fft_size <= 16384,
    ensures
        master_span(0, fft_size).0 == 0,
        master_span(fft_size / 2, fft_size).1 == 8192,
        forall|bin: int|
            0 <= bin < fft_size / 2 ==> #[trigger] master_span(bin, fft_size).1 + 1
                == master_span(bin + 1, fft_size).0,
{
    let n = fft_size / 2;
    assert(0int * 8192 / n == 0);
    assert(n * 8192 / n == 8192) by {
        vstd::arithmetic::div_mod::lemma_div_multiples_vanish(8192, n);
    }
    assert forall|bin: int|
        0 <= bin < fft_size / 2 implies #[trigger] master_span(bin, fft_size).1 + 1
            == master_span(bin + 1, fft_size).0 by {
        lemma_master_index_steps(bin, n);
        if bin + 1 < n {
            lemma_master_index_steps(bin + 1, n);
            assert((bin + 1) * 8192 / n <= 8192) by {
                vstd::arithmetic::div_mod::lemma_div_is_ordered((bin + 1) * 8192, n * 8192, n);
                assert((bin + 1) * 8192 <= n * 8192) by (nonlinear_arith)
                    requires bin + 1 <= n;
                vstd::arithmetic::div_mod::lemma_div_multiples_vanish(8192, n);
            }
            assert(bin * 8192 / n < 8192);
        } else {
            assert(bin + 1 == n);
            assert((bin + 1) * 8192 / n == 8192) by {
                vstd::arithmetic::div_mod::lemma_div_multiples_vanish(8192, n);
            }
        }
    }
}

/// The octave number of a MIDI note, counting middle C (note 60) as C3.
/// Division rounds toward zero, as in Rust.
pub fn midi_note_octave(note: i32) -> (r: i32)
    ensures
        r == (if note >= 0 { note / 12 } else { -((-note) / 12) }) - 2,
{
    note / 12 - 2
}

/// The curve transform is in effect unless a capture is running: in
/// transform mode, or while Alt or a transform drag is active and Alt
/// transforms are not suppressed.
pub fn transform_interaction_active(
    capture_active: bool,
    transform_mode: bool,
    alt_held: bool,
    transform_drag_active: bool,
    suppress_alt_transform: bool,
) -> (r: bool)
    ensures
        r == (!capture_active && (transform_mode || (!suppress_alt_transform && (alt_held
            || transform_drag_active)))),
{
    !capture_active && (transform_mode || (!suppress_alt_transform && alt_held) || (
    !suppress_alt_transform && transform_drag_active))
}

/// Which keys the editor keeps from the host.
#[derive(Clone, Copy, Debug, PartialEq, Eq, Structural)]
pub enum KeyCapture {
    /// Every key, while text is being edited.
    CaptureAll,
    /// Only the undo and redo commands (Command with `z` or `Z`).
    CaptureUndoKeys,
    /// No key: everything goes to the host.
    IgnoreAll,
}

/// The keys to take from the host: all of them while a text field has
/// focus, the undo commands while the curve's own history is in use, and
/// none otherwise.
pub fn host_key_capture(curve_shortcuts_active: bool, text_edit_focused: bool) -> (r: KeyCapture)
    ensures
        r == (if text_edit_focused {
            KeyCapture::CaptureAll
        } else if curve_shortcuts_active {
            KeyCapture::CaptureUndoKeys
        } else {
            KeyCapture::IgnoreAll
        }),
{
    if text_edit_focused {
        KeyCapture::CaptureAll
    } else if curve_shortcuts_active {
        KeyCapture::CaptureUndoKeys
    } else {
        KeyCapture::IgnoreAll
    }
}

/// Whether Escape is taken to leave a temporary mode: only while such a
/// mode is active and Escape was pressed; otherwise the key stays with the
/// host.
pub fn consume_escape_for_temporary_mode(mode_active: bool, escape_pressed: bool) -> (r: bool)
    ensures
        r == (mode_active && escape_pressed),
{
    mode_active && escape_pressed
}

/// An undo or redo of the editor's own history.
#[derive(Clone, Copy, Debug, PartialEq, Eq, Structural)]
pub enum HistoryAction {
    Undo,
    Redo,
}

/// What the editor does with the undo and redo shortcuts of one frame:
/// which shortcut it takes from the input, and which action follows.
#[derive(Clone, Copy, Debug, PartialEq, Eq, Structural)]
pub struct ShortcutDecision {
    pub consume_redo: bool,
    pub consume_undo: bool,
    pub action: Option<HistoryAction>,
}

/// The editor's answer to the undo and redo shortcuts. Nothing happens
/// while its shortcuts are inactive or a text field has focus. A redo
/// request (Command+Shift+Z) is taken whenever the history has entries and
/// redoes only if something can be redone; it never falls through to undo.
/// Otherwise Command+Z is taken whenever the history has entries and undoes
/// only if something can be undone.
pub fn history_shortcut(
    curve_shortcuts_active: bool,
    text_edit_focused: bool,
    redo_requested: bool,
    undo_pressed: bool,
    history_active: bool,
    can_undo: bool,
    can_redo: bool,
) -> (r: ShortcutDecision)
    ensures
        r == (if !curve_shortcuts_active || text_edit_focused {
            ShortcutDecision { consume_redo: false, consume_undo: false, action: None }
        } else if redo_requested {
            ShortcutDecision {
                consume_redo: history_active,
                consume_undo: false,
                action: if history_active && can_redo {
                    Some(HistoryAction::Redo)
                } else {
                    None
                },
            }
        } else {
            ShortcutDecision {
                consume_redo: false,
                consume_undo: history_active && undo_pressed,
                action: if history_active && undo_pressed && can_undo {
                    Some(HistoryAction::Undo)
                } else {
                    None
                },
            }
        }),
{
    if !curve_shortcuts_active || text_edit_focused {
        return ShortcutDecision { consume_redo: false, consume_undo: false, action: None };
    }
    if redo_requested {
        if history_active {
            let action = if can_redo {
                Some(HistoryAction::Redo)
            } else {
                None
            };
            return ShortcutDecision { consume_redo: true, consume_undo: false, action };
        }
        return ShortcutDecision { consume_redo: false, consume_undo: false, action: None };
    }
    if history_active && undo_pressed {
        let action = if can_undo {
            Some(HistoryAction::Undo)
        } else {
            None
        };
        return ShortcutDecision { consume_redo: false, consume_undo: true, action };
    }
    ShortcutDecision { consume_redo: false, consume_undo: false, action: None }
}

} // verus!
