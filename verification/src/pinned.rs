//! Pinned notes: notes the user pins in the editor, and notes captured from
//! incoming MIDI while Hold is on. A note reads as pinned if either kind
//! holds it.
use vstd::prelude::*;

verus! {

/// The number of MIDI notes.
pub const MIDI_NOTES: usize = 128;

/// The pinned-note state as mathematical values: the notes pinned by hand,
/// the notes captured while holding, and whether Hold is on.
pub struct PinnedNotesView {
    pub notes: Seq<bool>,
    pub held: Seq<bool>,
    pub holding: bool,
}

impl PinnedNotesView {
    /// Both tables cover all 128 MIDI notes.
    pub open spec fn wf(self) -> bool {
        self.notes.len() == 128 && self.held.len() == 128
    }

    /// A note sounds as pinned when it is pinned by hand or captured.
    pub open spec fn pinned(self, note: int) -> bool {
        self.notes[note] || self.held[note]
    }
}

/// No note pinned, none captured, Hold off.
pub open spec fn empty_view() -> PinnedNotesView {
    PinnedNotesView {
        notes: Seq::new(128, |i: int| false),
        held: Seq::new(128, |i: int| false),
        holding: false,
    }
}

/// The state after a pin set from the editor: unpinning also releases a
/// captured note.
pub open spec fn set_from_ui_view(v: PinnedNotesView, note: int, pinned: bool) -> PinnedNotesView {
    PinnedNotesView {
        notes: v.notes.update(note, pinned),
        held: if pinned { v.held } else { v.held.update(note, false) },
        holding: v.holding,
    }
}

/// The state after Hold is toggled: turning Hold off forgets every captured
/// note; hand-pinned notes stay.
pub open spec fn toggled_view(v: PinnedNotesView) -> PinnedNotesView {
    PinnedNotesView {
        notes: v.notes,
        held: if v.holding { Seq::new(128, |i: int| false) } else { v.held },
        holding: !v.holding,
    }
}

/// The state after an incoming note: captured only while Hold is on.
pub open spec fn captured_view(v: PinnedNotesView, note: int) -> PinnedNotesView {
    PinnedNotesView {
        notes: v.notes,
        held: if v.holding { v.held.update(note, true) } else { v.held },
        holding: v.holding,
    }
}

/// The state after Clear: nothing pinned or captured; Hold unchanged.
pub open spec fn cleared_view(v: PinnedNotesView) -> PinnedNotesView {
    PinnedNotesView {
        notes: Seq::new(128, |i: int| false),
        held: Seq::new(128, |i: int| false),
        holding: v.holding,
    }
}

/// The state restored from a saved project: note `i` is pinned when the
/// saved list has an `i`-th entry that is set; nothing captured, Hold off.
pub open spec fn persisted_view(values: Seq<bool>) -> PinnedNotesView {
    PinnedNotesView {
        notes: Seq::new(128, |i: int| i < values.len() && values[i]),
        held: Seq::new(128, |i: int| false),
        holding: false,
    }
}

/// The live pinned-note state.
pub struct PinnedNotesState {
    notes: Vec<bool>,
    held_notes: Vec<bool>,
    capture_incoming: bool,
}

/// A copy of the pinned-note state, kept for undo.
#[derive(Clone, PartialEq, Eq)]
pub struct PinnedNotesSnapshot {
    notes: Vec<bool>,
    held: Vec<bool>,
    holding: bool,
}

impl View for PinnedNotesState {
    type V = PinnedNotesView;

    closed spec fn view(&self) -> PinnedNotesView {
        PinnedNotesView { notes: self.notes@, held: self.held_notes@, holding: self.capture_incoming }
    }
}

impl View for PinnedNotesSnapshot {
    type V = PinnedNotesView;

    closed spec fn view(&self) -> PinnedNotesView {
        PinnedNotesView { notes: self.notes@, held: self.held@, holding: self.holding }
    }
}

fn all_false() -> (r: Vec<bool>)
    ensures
        r@ == Seq::new(128, |i: int| false),
{
    let mut r: Vec<bool> = Vec::new();
    let mut i: usize = 0;
    while i < MIDI_NOTES
        invariant
            i <= MIDI_NOTES,
            r@ == Seq::new(i as nat, |j: int| false),
        decreases MIDI_NOTES - i,
    {
        r.push(false);
        i = i + 1;
        assert(r@ =~= Seq::new(i as nat, |j: int| false));
    }
    r
}

fn copy_bools(src: &Vec<bool>) -> (r: Vec<bool>)
    ensures
        r@ == src@,
{
    let mut r: Vec<bool> = Vec::new();
    let mut i: usize = 0;
    while i < src.len()
        invariant
            i <= src.len(),
            r@ == src@.subrange(0, i as int),
        decreases src.len() - i,
    {
        r.push(src[i]);
        i = i + 1;
        assert(r@ =~= src@.subrange(0, i as int));
    }
    assert(r@ =~= src@);
    r
}

impl PinnedNotesState {
    /// Nothing pinned, nothing captured, Hold off.
    pub fn new() -> (r: Self)
        ensures
            r@ == empty_view(),
            r@.wf(),
    {
        PinnedNotesState { notes: all_false(), held_notes: all_false(), capture_incoming: false }
    }

    /// A copy of the whole state.
    pub fn snapshot(&self) -> (r: PinnedNotesSnapshot)
        ensures
            r@ == self@,
    {
        PinnedNotesSnapshot {
            notes: copy_bools(&self.notes),
            held: copy_bools(&self.held_notes),
            holding: self.capture_incoming,
        }
    }

    /// Puts back a copied state, Hold included.
    pub fn restore(&mut self, snapshot: &PinnedNotesSnapshot)
        ensures
            final(self)@ == snapshot@,
    {
        self.notes = copy_bools(&snapshot.notes);
        self.held_notes = copy_bools(&snapshot.held);
        self.capture_incoming = snapshot.holding;
    }

    /// Whether the note is pinned by hand or captured.
    pub fn get(&self, note: usize) -> (r: bool)
        requires
            self@.wf(),
            note < MIDI_NOTES,
        ensures
            r == self@.pinned(note as int),
    {
        self.notes[note] || self.held_notes[note]
    }

    /// Pins or unpins a note by hand, leaving captured notes alone.
    pub fn set(&mut self, note: usize, pinned: bool)
        requires
            old(self)@.wf(),
            note < MIDI_NOTES,
        ensures
            final(self)@ == (PinnedNotesView {
                notes: old(self)@.notes.update(note as int, pinned),
                ..old(self)@
            }),
    {
        self.notes.set(note, pinned);
    }

    /// Pins or unpins a note from the editor. Unpinning also releases the
    /// note if it was captured.
    pub fn set_from_ui(&mut self, note: usize, pinned: bool)
        requires
            old(self)@.wf(),
            note < MIDI_NOTES,
        ensures
            final(self)@ == set_from_ui_view(old(self)@, note as int, pinned),
    {
        self.notes.set(note, pinned);
        if !pinned {
            self.held_notes.set(note, false);
        }
    }

    /// Unpins every note and forgets every captured note; Hold stays as it is.
    pub fn clear(&mut self)
        requires
            old(self)@.wf(),
        ensures
            final(self)@ == cleared_view(old(self)@),
    {
        let mut i: usize = 0;
        while i < MIDI_NOTES
            invariant
                i <= MIDI_NOTES,
                self.notes@.len() == 128,
                forall|j: int| 0 <= j < i ==> !#[trigger] self.notes@[j],
                self.held_notes@ == old(self).held_notes@,
                self.capture_incoming == old(self).capture_incoming,
            decreases MIDI_NOTES - i,
        {
            self.notes.set(i, false);
            i = i + 1;
        }
        assert(self.notes@ =~= Seq::new(128, |i: int| false));
        self.clear_held();
    }

    /// Whether Hold is on.
    pub fn capture_incoming(&self) -> (r: bool)
        ensures
            r == self@.holding,
    {
        self.capture_incoming
    }

    /// Switches Hold. Switching it off forgets the captured notes.
    pub fn toggle_capture_incoming(&mut self)
        requires
            old(self)@.wf(),
        ensures
            final(self)@ == toggled_view(old(self)@),
    {
        let was_enabled = self.capture_incoming;
        self.capture_incoming = !was_enabled;
        if was_enabled {
            self.clear_held();
        }
    }

    /// Records an incoming note while Hold is on.
    pub fn capture(&mut self, note: usize)
        requires
            old(self)@.wf(),
            note < MIDI_NOTES,
        ensures
            final(self)@ == captured_view(old(self)@, note as int),
    {
        if self.capture_incoming {
            self.held_notes.set(note, true);
        }
    }

    fn clear_held(&mut self)
        requires
            old(self)@.wf(),
        ensures
            final(self)@ == (PinnedNotesView {
                held: Seq::new(128, |i: int| false),
                ..old(self)@
            }),
    {
        let mut i: usize = 0;
        while i < MIDI_NOTES
            invariant
                i <= MIDI_NOTES,
                self.held_notes@.len() == 128,
                forall|j: int| 0 <= j < i ==> !#[trigger] self.held_notes@[j],
                self.notes@ == old(self).notes@,
                self.capture_incoming == old(self).capture_incoming,
            decreases MIDI_NOTES - i,
        {
            self.held_notes.set(i, false);
            i = i + 1;
        }
        assert(self.held_notes@ =~= Seq::new(128, |i: int| false));
    }

    /// Loads the saved pin list: note `i` is pinned when the list has a set
    /// `i`-th entry. Captured notes and Hold are not saved, so both reset.
    pub fn set_persisted(&mut self, values: &[bool])
        ensures
            final(self)@ == persisted_view(values@),
    {
        let mut notes: Vec<bool> = Vec::new();
        let mut i: usize = 0;
        while i < MIDI_NOTES
            invariant
                i <= MIDI_NOTES,
                notes@ == Seq::new(i as nat, |j: int| j < values@.len() && values@[j]),
            decreases MIDI_NOTES - i,
        {
            let pinned = if i < values.len() { values[i] } else { false };
            notes.push(pinned);
            i = i + 1;
            assert(notes@ =~= Seq::new(i as nat, |j: int| j < values@.len() && values@[j]));
        }
        self.notes = notes;
        self.held_notes = all_false();
        self.capture_incoming = false;
    }

    /// The hand-pinned notes, as saved with the project.
    pub fn persisted(&self) -> (r: Vec<bool>)
        ensures
            r@ == self@.notes,
    {
        copy_bools(&self.notes)
    }
}

impl Default for PinnedNotesState {
    fn default() -> (r: Self)
        ensures
            r@ == empty_view(),
    {
        PinnedNotesState::new()
    }
}

/// Restoring a snapshot gives back exactly the state it was taken from:
/// `snapshot` yields a copy whose view is the state's, and `restore` makes
/// the state's view the copy's.
pub proof fn lemma_snapshot_restore_roundtrip(
    state: PinnedNotesView,
    snapshot: PinnedNotesView,
    restored: PinnedNotesView,
)
    requires
        snapshot == state,
        restored == snapshot,
    ensures
        restored == state,
{
}

/// Switching Hold on and off again keeps the hand-pinned notes and Hold's
/// setting and forgets every captured note.
pub proof fn lemma_toggle_twice_forgets_captures(v: PinnedNotesView)
    requires
        v.wf(),
    ensures
        toggled_view(toggled_view(v)) == (PinnedNotesView {
            notes: v.notes,
            held: Seq::new(128, |i: int| false),
            holding: v.holding,
        }),
{
}

/// An incoming note is captured, and then reads as pinned, exactly when
/// Hold is on; otherwise nothing changes.
pub proof fn lemma_capture_only_while_holding(v: PinnedNotesView, note: int)
    requires
        v.wf(),
        0 <= note < 128,
    ensures
        v.holding ==> captured_view(v, note).pinned(note),
        !v.holding ==> captured_view(v, note) == v,
        captured_view(v, note).notes == v.notes,
        forall|n: int|
            0 <= n < 128 && n != note ==> #[trigger] captured_view(v, note).pinned(n) == v.pinned(n),
{
}

/// Unpinning a note in the editor silences it whichever way it was pinned,
/// and leaves every other note as it was.
pub proof fn lemma_unpin_from_ui_releases_both_kinds(v: PinnedNotesView, note: int)
    requires
        v.wf(),
        0 <= note < 128,
    ensures
        !set_from_ui_view(v, note, false).pinned(note),
        set_from_ui_view(v, note, true).pinned(note),
        forall|n: int|
            0 <= n < 128 && n != note ==> #[trigger] set_from_ui_view(v, note, false).pinned(n)
                == v.pinned(n),
{
}

/// After Clear no note reads as pinned, and Hold keeps its setting.
pub proof fn lemma_clear_unpins_everything(v: PinnedNotesView)
    requires
        v.wf(),
    ensures
        forall|n: int| 0 <= n < 128 ==> !#[trigger] cleared_view(v).pinned(n),
        cleared_view(v).holding == v.holding,
{
}

/// Saving and loading a project keeps exactly the hand-pinned notes and
/// drops captured notes and Hold.
pub proof fn lemma_persist_roundtrip(v: PinnedNotesView)
    requires
        v.wf(),
    ensures
        persisted_view(v.notes) == (PinnedNotesView {
            notes: v.notes,
            held: Seq::new(128, |i: int| false),
            holding: false,
        }),
{
    assert(persisted_view(v.notes).notes =~= v.notes);
}

} // verus!
