//! What the editor's undo history holds: a whole curve gesture (the curve
//! and its transform values), a change of the pinned notes, or a group of
//! parameter edits. Undoing or redoing an entry stores its inverse: the
//! curve as it stands now, the pinned notes as they stand now, or the same
//! parameter edits with their values swapped. Levels and parameter values
//! are held as the bits of their `f32` values.
use vstd::prelude::*;
use crate::gestures::{reversed_changes, reversed_spec, ParameterChange};
use crate::history::{CurveHistory, HistoryView};
use crate::pinned::{PinnedNotesSnapshot, PinnedNotesState, PinnedNotesView};

verus! {

/// A curve and its transform values, as `f32` bits.
#[derive(Clone, PartialEq, Eq)]
pub struct CurveSnapshot {
    pub curve: Vec<u32>,
    pub depth_percent: u32,
    pub tilt_db_per_octave: u32,
    pub shift_semitones: u32,
}

/// A curve snapshot as plain values.
pub struct CurveSnapshotView {
    pub curve: Seq<u32>,
    pub depth_percent: u32,
    pub tilt_db_per_octave: u32,
    pub shift_semitones: u32,
}

impl View for CurveSnapshot {
    type V = CurveSnapshotView;

    open spec fn view(&self) -> CurveSnapshotView {
        CurveSnapshotView {
            curve: self.curve@,
            depth_percent: self.depth_percent,
            tilt_db_per_octave: self.tilt_db_per_octave,
            shift_semitones: self.shift_semitones,
        }
    }
}

/// One step of the editor's undo history.
#[derive(PartialEq)]
pub enum HistoryEntry {
    Curve(CurveSnapshot),
    Notes(PinnedNotesSnapshot),
    Parameters(Vec<ParameterChange<u32>>),
}

/// A history entry as plain values.
pub enum EntryView {
    Curve(CurveSnapshotView),
    Notes(PinnedNotesView),
    Parameters(Seq<ParameterChange<u32>>),
}

impl View for HistoryEntry {
    type V = EntryView;

    open spec fn view(&self) -> EntryView {
        match self {
            HistoryEntry::Curve(c) => EntryView::Curve(c@),
            HistoryEntry::Notes(n) => EntryView::Notes(n@),
            HistoryEntry::Parameters(p) => EntryView::Parameters(p@),
        }
    }
}

/// The inverse of an entry, against the current curve and pinned notes: a
/// curve entry gives way to the current curve, a notes entry to the current
/// pinned notes, and parameter edits to the same edits with their values
/// swapped.
pub open spec fn inverse_view(entry: EntryView, current: CurveSnapshotView, pinned: PinnedNotesView) -> EntryView {
    match entry {
        EntryView::Curve(_) => EntryView::Curve(current),
        EntryView::Notes(_) => EntryView::Notes(pinned),
        EntryView::Parameters(changes) => EntryView::Parameters(reversed_spec(changes)),
    }
}

impl HistoryEntry {
    /// The entry that undoes this one, given the current curve and pinned
    /// notes.
    pub fn inverse(&self, current: CurveSnapshot, pinned: &PinnedNotesState) -> (r: HistoryEntry)
        ensures
            r@ == inverse_view(self@, current@, pinned@),
    {
        match self {
            HistoryEntry::Curve(_) => HistoryEntry::Curve(current),
            HistoryEntry::Notes(_) => HistoryEntry::Notes(pinned.snapshot()),
            HistoryEntry::Parameters(changes) => HistoryEntry::Parameters(reversed_changes(changes)),
        }
    }
}

impl CurveHistory<HistoryEntry> {
    /// Undoes the newest entry and returns it; its inverse against the
    /// current curve and pinned notes goes onto the redo stack. With nothing
    /// to undo, returns `None` and changes nothing.
    pub fn undo_entry(&mut self, current: CurveSnapshot, pinned: &PinnedNotesState) -> (r: Option<HistoryEntry>)
        requires
            old(self)@.wf(),
        ensures
            final(self)@.wf(),
            old(self)@.undo.len() == 0 ==> r is None && final(self)@ == old(self)@,
            old(self)@.undo.len() > 0 ==> {
                &&& r == Some(old(self)@.undo.last())
                &&& final(self)@.undo == old(self)@.undo.drop_last()
                &&& final(self)@.redo.len() == old(self)@.redo.len() + 1
                &&& final(self)@.redo.drop_last() == old(self)@.redo
                &&& final(self)@.redo.last()@ == inverse_view(
                    old(self)@.undo.last()@,
                    current@,
                    pinned@,
                )
            },
    {
        let ghost cv = current@;
        let ghost pv = pinned@;
        let invert = move |e: &HistoryEntry| -> (x: HistoryEntry)
            ensures
                x@ == inverse_view(e@, cv, pv),
            { e.inverse(current, pinned) };
        let r = self.undo(invert);
        proof {
            if old(self)@.undo.len() > 0 {
                assert(self@.redo.drop_last() =~= old(self)@.redo);
            }
        }
        r
    }

    /// Redoes the newest redo entry and returns it; its inverse against the
    /// current curve and pinned notes goes onto the undo stack, dropping the
    /// oldest entry when the history is full. With nothing to redo, returns
    /// `None` and changes nothing.
    pub fn redo_entry(&mut self, current: CurveSnapshot, pinned: &PinnedNotesState) -> (r: Option<HistoryEntry>)
        requires
            old(self)@.wf(),
        ensures
            final(self)@.wf(),
            old(self)@.redo.len() == 0 ==> r is None && final(self)@ == old(self)@,
            old(self)@.redo.len() > 0 ==> {
                &&& r == Some(old(self)@.redo.last())
                &&& final(self)@.redo == old(self)@.redo.drop_last()
                &&& final(self)@.undo.len() > 0
                &&& final(self)@.undo.drop_last() == (if old(self)@.undo.len() >= crate::history::CURVE_HISTORY_LIMIT {
                    old(self)@.undo.subrange(1, old(self)@.undo.len() as int)
                } else {
                    old(self)@.undo
                })
                &&& final(self)@.undo.last()@ == inverse_view(
                    old(self)@.redo.last()@,
                    current@,
                    pinned@,
                )
            },
    {
        let ghost cv = current@;
        let ghost pv = pinned@;
        let invert = move |e: &HistoryEntry| -> (x: HistoryEntry)
            ensures
                x@ == inverse_view(e@, cv, pv),
            { e.inverse(current, pinned) };
        let r = self.redo(invert);
        proof {
            if old(self)@.redo.len() > 0 {
                let u = old(self)@.undo;
                if u.len() >= crate::history::CURVE_HISTORY_LIMIT {
                    assert(self@.undo.drop_last() =~= u.subrange(1, u.len() as int));
                } else {
                    assert(self@.undo.drop_last() =~= u);
                }
            }
        }
        r
    }
}

} // verus!
