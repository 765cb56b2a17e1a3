//! Which note sources the particle engine may draw births from. Voice slots
//! take source slots 0 to 127 and pinned notes slots 128 to 255, so the two
//! never collide. A source that stops being mapped (or pinned) while it
//! sounds is retired, so its particles detach before the slot is reused;
//! a note trigger reserved when a voice starts waits until its source is
//! known.
use vstd::prelude::*;
use crate::particles::TriggerCounter;
use crate::pinned::{captured_view, PinnedNotesState, MIDI_NOTES};
use crate::pool::{retired_particles, ParticlePool, ParticleSlot, PoolView, MAX_PARTICLES, MAX_SOURCES};
use crate::voices::{chosen_slot, empty_slot, matches_spec, Channel, Key, VoiceID, VoiceSlot, Voices, MAX_VOICES};

verus! {

/// The tracker as plain values.
pub struct SourceTrackerView {
    pub mapped: Seq<bool>,
    pub pinned: Seq<bool>,
    pub pending: Seq<Option<u64>>,
}

impl SourceTrackerView {
    /// One entry per voice slot and per MIDI note.
    pub open spec fn wf(self) -> bool {
        &&& self.mapped.len() == MAX_VOICES
        &&& self.pinned.len() == MIDI_NOTES
        &&& self.pending.len() == MAX_VOICES
    }
}

/// The pool after a voice slot's source is updated: a source that was
/// mapped and no longer is while its voice still sounds retires; then the
/// slot may supply births exactly if its voice sounds on a mapped note and
/// the caller found it eligible.
pub open spec fn voice_source_updated(
    t: SourceTrackerView,
    pool: PoolView,
    slot: int,
    occupied: bool,
    note_mapped: bool,
    eligible: bool,
) -> PoolView {
    let now = occupied && note_mapped;
    let retired = t.mapped[slot] && !now && occupied;
    PoolView {
        particles: if retired {
            retired_particles(pool, Some(slot as usize))
        } else {
            pool.particles
        },
        eligible: pool.eligible.update(slot, now && eligible),
        ..pool
    }
}

/// The pool after a pinned note's source is updated: a note that was
/// pinned and mapped and no longer is retires; then its slot may supply
/// births exactly if it is pinned and mapped and the caller found it
/// eligible.
pub open spec fn pinned_source_updated(
    t: SourceTrackerView,
    pool: PoolView,
    note: int,
    pinned: bool,
    eligible: bool,
) -> PoolView {
    let slot = MAX_VOICES + note;
    PoolView {
        particles: if t.pinned[note] && !pinned {
            retired_particles(pool, Some(slot as usize))
        } else {
            pool.particles
        },
        eligible: pool.eligible.update(slot, pinned && eligible),
        ..pool
    }
}

/// Which voice slots and pinned notes were mapped when last updated, and
/// the note trigger each voice slot has reserved.
pub struct SourceTracker {
    mapped: Vec<bool>,
    pinned: Vec<bool>,
    pending: Vec<Option<u64>>,
}

impl View for SourceTracker {
    type V = SourceTrackerView;

    closed spec fn view(&self) -> SourceTrackerView {
        SourceTrackerView { mapped: self.mapped@, pinned: self.pinned@, pending: self.pending@ }
    }
}

fn falses(len: usize) -> (r: Vec<bool>)
    ensures
        r@ == Seq::new(len as nat, |i: int| false),
{
    let mut r: Vec<bool> = Vec::new();
    let mut i: usize = 0;
    while i < len
        invariant
            i <= len,
            r@ == Seq::new(i as nat, |k: int| false),
        decreases len - i,
    {
        r.push(false);
        i = i + 1;
        assert(r@ =~= Seq::new(i as nat, |k: int| false));
    }
    r
}

fn nones(len: usize) -> (r: Vec<Option<u64>>)
    ensures
        r@ == Seq::new(len as nat, |i: int| None::<u64>),
{
    let mut r: Vec<Option<u64>> = Vec::new();
    let mut i: usize = 0;
    while i < len
        invariant
            i <= len,
            r@ == Seq::new(i as nat, |k: int| None::<u64>),
        decreases len - i,
    {
        r.push(None);
        i = i + 1;
        assert(r@ =~= Seq::new(i as nat, |k: int| None::<u64>));
    }
    r
}

impl SourceTracker {
    /// Nothing mapped, pinned or pending.
    pub fn new() -> (r: Self)
        ensures
            r@.wf(),
            r@.mapped == Seq::new(MAX_VOICES as nat, |i: int| false),
            r@.pinned == Seq::new(MIDI_NOTES as nat, |i: int| false),
            r@.pending == Seq::new(MAX_VOICES as nat, |i: int| None::<u64>),
    {
        SourceTracker { mapped: falses(MAX_VOICES), pinned: falses(MIDI_NOTES), pending: nones(MAX_VOICES) }
    }

    /// Forgets everything, as after an audio reset.
    pub fn reset(&mut self)
        ensures
            final(self)@.wf(),
            final(self)@.mapped == Seq::new(MAX_VOICES as nat, |i: int| false),
            final(self)@.pinned == Seq::new(MIDI_NOTES as nat, |i: int| false),
            final(self)@.pending == Seq::new(MAX_VOICES as nat, |i: int| None::<u64>),
    {
        *self = SourceTracker::new();
    }

    /// Reserves note trigger `index` for the voice that just started in
    /// `slot`, replacing any earlier reservation.
    pub fn set_pending(&mut self, slot: usize, index: u64)
        requires
            old(self)@.wf(),
            slot < MAX_VOICES,
        ensures
            final(self)@ == (SourceTrackerView {
                pending: old(self)@.pending.update(slot as int, Some(index)),
                ..old(self)@
            }),
    {
        self.pending.set(slot, Some(index));
    }

    /// Drops the reservation of a choked voice.
    pub fn clear_pending(&mut self, slot: usize)
        requires
            old(self)@.wf(),
            slot < MAX_VOICES,
        ensures
            final(self)@ == (SourceTrackerView {
                pending: old(self)@.pending.update(slot as int, None),
                ..old(self)@
            }),
    {
        self.pending.set(slot, None);
    }

    /// Takes the reservation of `slot`, leaving none.
    pub fn take_pending(&mut self, slot: usize) -> (r: Option<u64>)
        requires
            old(self)@.wf(),
            slot < MAX_VOICES,
        ensures
            r == old(self)@.pending[slot as int],
            final(self)@ == (SourceTrackerView {
                pending: old(self)@.pending.update(slot as int, None),
                ..old(self)@
            }),
    {
        let r = self.pending[slot];
        self.pending.set(slot, None);
        r
    }

    /// Updates the source of voice slot `slot`: whether its voice sounds,
    /// whether its note is mapped, and whether its pitch and strength make
    /// it eligible. A source that stops being mapped while its voice sounds
    /// retires first.
    pub fn update_voice_source(
        &mut self,
        pool: &mut ParticlePool,
        slot: usize,
        occupied: bool,
        note_mapped: bool,
        eligible: bool,
    )
        requires
            old(self)@.wf(),
            old(pool)@.wf(),
            slot < MAX_VOICES,
        ensures
            final(self)@ == (SourceTrackerView {
                mapped: old(self)@.mapped.update(slot as int, occupied && note_mapped),
                ..old(self)@
            }),
            final(pool)@.wf(),
            final(pool)@ == voice_source_updated(
                old(self)@,
                old(pool)@,
                slot as int,
                occupied,
                note_mapped,
                eligible,
            ),
    {
        let now = occupied && note_mapped;
        if self.mapped[slot] && !now && occupied {
            pool.retire_source(slot);
        }
        self.mapped.set(slot, now);
        if now {
            pool.set_eligible(slot, eligible);
        } else {
            pool.release_source(slot);
        }
        proof {
            assert(pool@.eligible =~= old(pool)@.eligible.update(slot as int, now && eligible));
        }
    }

    /// Updates the source of pinned note `note`: whether it is pinned on a
    /// mapped note, and whether its pitch and strength make it eligible. A
    /// note that stops being pinned retires first.
    pub fn update_pinned_source(&mut self, pool: &mut ParticlePool, note: usize, pinned: bool, eligible: bool)
        requires
            old(self)@.wf(),
            old(pool)@.wf(),
            note < MIDI_NOTES,
        ensures
            final(self)@ == (SourceTrackerView {
                pinned: old(self)@.pinned.update(note as int, pinned),
                ..old(self)@
            }),
            final(pool)@.wf(),
            final(pool)@ == pinned_source_updated(old(self)@, old(pool)@, note as int, pinned, eligible),
    {
        let slot = MAX_VOICES + note;
        if self.pinned[note] && !pinned {
            pool.retire_source(slot);
        }
        self.pinned.set(note, pinned);
        pool.set_eligible(slot, pinned && eligible);
        proof {
            assert(pool@.eligible =~= old(pool)@.eligible.update(slot as int, pinned && eligible));
        }
    }
}

/// Voice slots and pinned notes never share a source slot, and every one of
/// them is a valid source.
pub proof fn lemma_voice_and_pinned_slots_are_disjoint(slot: int, note: int)
    requires
        0 <= slot < MAX_VOICES,
        0 <= note < MIDI_NOTES,
    ensures
        slot != MAX_VOICES + note,
        MAX_VOICES + note < MAX_SOURCES,
{
}

/// A source that stops being mapped while its voice sounds leaves no living
/// particle following it, and no longer supplies births.
pub proof fn lemma_unmapped_source_is_detached(
    t: SourceTrackerView,
    pool: PoolView,
    slot: int,
    note_mapped: bool,
    eligible: bool,
)
    requires
        t.wf(),
        pool.wf(),
        0 <= slot < MAX_VOICES,
        t.mapped[slot],
        !note_mapped,
    ensures
        !voice_source_updated(t, pool, slot, true, note_mapped, eligible).eligible[slot],
        forall|i: int|
            0 <= i < voice_source_updated(t, pool, slot, true, note_mapped, eligible).particles.len()
                ==> {
                let p = #[trigger] voice_source_updated(t, pool, slot, true, note_mapped, eligible).particles[i];
                !(p.active && p.source == Some(slot as usize))
            },
{
}

/// The particles after the sources of the marked voice slots retire: each
/// living particle that follows one of them detaches and begins to retire
/// now, unless it already began.
pub open spec fn retired_slots(v: PoolView, slots: Seq<bool>) -> Seq<ParticleSlot> {
    Seq::new(
        MAX_PARTICLES as nat,
        |i: int|
            {
                let p = v.particles[i];
                if p.active && (p.source matches Some(s) && s < MAX_VOICES && slots[s as int]) {
                    ParticleSlot {
                        source: None,
                        retirement: match p.retirement {
                            Some(r) => Some(r),
                            None => Some(v.sample),
                        },
                        ..p
                    }
                } else {
                    p
                }
            },
    )
}

/// The marked voice slots below `k`.
pub open spec fn slots_below(slots: Seq<bool>, k: int) -> Seq<bool> {
    Seq::new(MAX_VOICES as nat, |j: int| j < k && slots[j])
}

/// A note starts: the voice takes its slot as `Voices::start_voice` decides,
/// the slot's particle source retires first (so the reused slot never
/// retunes a particle of the voice it replaces), and a note trigger is
/// reserved for the slot. Returns the slot and the voice that made way.
pub fn start_voice_with_source(
    voices: &mut Voices,
    pinned: &mut PinnedNotesState,
    pool: &mut ParticlePool,
    sources: &mut SourceTracker,
    counter: &mut TriggerCounter,
    voice_id: Option<i32>,
    channel: u8,
    note: u8,
    quietest: usize,
) -> (r: (usize, Option<VoiceSlot>))
    requires
        old(voices)@.wf(),
        old(pinned)@.wf(),
        old(pool)@.wf(),
        old(sources)@.wf(),
        channel < 16,
        note < 128,
        quietest < MAX_VOICES,
    ensures
        final(voices)@.wf(),
        final(pinned)@ == captured_view(old(pinned)@, note as int),
        r.0 < MAX_VOICES,
        r.0 == chosen_slot(old(voices)@.voices, voice_id, quietest as int),
        r.1 == (if old(voices)@.voices[r.0 as int].occupied {
            Some(old(voices)@.voices[r.0 as int])
        } else {
            None
        }),
        final(voices)@.voices == old(voices)@.voices.update(
            r.0 as int,
            VoiceSlot { occupied: true, held: true, sustained: false, voice_id, channel, note },
        ),
        final(voices)@.sustain == old(voices)@.sustain,
        final(pool)@.wf(),
        final(pool)@ == (PoolView {
            particles: retired_particles(old(pool)@, Some(r.0)),
            eligible: old(pool)@.eligible.update(r.0 as int, false),
            ..old(pool)@
        }),
        final(sources)@ == (SourceTrackerView {
            pending: old(sources)@.pending.update(r.0 as int, Some(old(counter).next_index())),
            ..old(sources)@
        }),
        final(counter).next_index() == vstd::wrapping::u64_specs::wrapping_add(old(counter).next_index(), 1),
{
    let r = voices.start_voice(pinned, voice_id, channel, note, quietest);
    pool.retire_source(r.0);
    let index = counter.reserve_trigger();
    sources.set_pending(r.0, index);
    r
}

/// Voices are choked: every voice the event reaches ends at once (as
/// `Voices::choke_voice` decides), the source of each choked slot retires,
/// and its reserved note trigger is dropped. Returns which slots were
/// choked.
pub fn choke_voice_with_sources(
    voices: &mut Voices,
    pool: &mut ParticlePool,
    sources: &mut SourceTracker,
    voice_id: VoiceID,
    channel: Channel,
    key: Key,
) -> (choked: Vec<bool>)
    requires
        old(voices)@.wf(),
        old(pool)@.wf(),
        old(sources)@.wf(),
    ensures
        final(voices)@.wf(),
        final(voices)@.sustain == old(voices)@.sustain,
        choked@ == Seq::new(
            MAX_VOICES as nat,
            |i: int| matches_spec(old(voices)@.voices[i], voice_id, channel, key),
        ),
        final(voices)@.voices == Seq::new(
            MAX_VOICES as nat,
            |i: int|
                if choked@[i] {
                    empty_slot()
                } else {
                    old(voices)@.voices[i]
                },
        ),
        final(pool)@.wf(),
        final(pool)@ == (PoolView {
            particles: retired_slots(old(pool)@, choked@),
            eligible: Seq::new(
                MAX_SOURCES as nat,
                |j: int|
                    if j < MAX_VOICES && choked@[j] {
                        false
                    } else {
                        old(pool)@.eligible[j]
                    },
            ),
            ..old(pool)@
        }),
        final(sources)@ == (SourceTrackerView {
            pending: Seq::new(
                MAX_VOICES as nat,
                |j: int|
                    if choked@[j] {
                        None
                    } else {
                        old(sources)@.pending[j]
                    },
            ),
            ..old(sources)@
        }),
{
    let choked = voices.choke_voice(voice_id, channel, key);
    let ghost p0 = pool@;
    let ghost s0 = sources@;
    proof {
        assert(retired_slots(p0, slots_below(choked@, 0)) =~= p0.particles);
        assert(Seq::new(
            MAX_SOURCES as nat,
            |j: int|
                if j < 0 && choked@[j] {
                    false
                } else {
                    p0.eligible[j]
                },
        ) =~= p0.eligible);
        assert(Seq::new(
            MAX_VOICES as nat,
            |j: int|
                if j < 0 && choked@[j] {
                    None
                } else {
                    s0.pending[j]
                },
        ) =~= s0.pending);
    }
    let mut k: usize = 0;
    while k < MAX_VOICES
        invariant
            k <= MAX_VOICES,
            choked@.len() == MAX_VOICES,
            p0.wf(),
            s0.wf(),
            pool@.wf(),
            sources@.wf(),
            pool@ == (PoolView {
                particles: retired_slots(p0, slots_below(choked@, k as int)),
                eligible: Seq::new(
                    MAX_SOURCES as nat,
                    |j: int|
                        if j < k && choked@[j] {
                            false
                        } else {
                            p0.eligible[j]
                        },
                ),
                ..p0
            }),
            sources@ == (SourceTrackerView {
                pending: Seq::new(
                    MAX_VOICES as nat,
                    |j: int|
                        if j < k && choked@[j] {
                            None
                        } else {
                            s0.pending[j]
                        },
                ),
                ..s0
            }),
        decreases MAX_VOICES - k,
    {
        if choked[k] {
            let ghost before = pool@;
            pool.retire_source(k);
            sources.clear_pending(k);
            proof {
                assert(pool@.particles =~= retired_slots(p0, slots_below(choked@, k + 1))) by {
                    assert forall|i: int| 0 <= i < MAX_PARTICLES implies #[trigger] pool@.particles[i]
                        == retired_slots(p0, slots_below(choked@, k + 1))[i] by {
                        let p = p0.particles[i];
                        if p.active && (p.source matches Some(s) && s < MAX_VOICES && s == k) {
                            assert(slots_below(choked@, k as int)[k as int] == false);
                            assert(slots_below(choked@, k + 1)[k as int]);
                        }
                        if let Some(s) = p.source {
                            if s < MAX_VOICES {
                                assert(slots_below(choked@, k + 1)[s as int] == (slots_below(
                                    choked@,
                                    k as int,
                                )[s as int] || s == k));
                            }
                        }
                    }
                }
            }
        } else {
            proof {
                assert(slots_below(choked@, k + 1) =~= slots_below(choked@, k as int));
            }
        }
        k = k + 1;
        proof {
            assert(pool@.eligible =~= Seq::new(
                MAX_SOURCES as nat,
                |j: int|
                    if j < k && choked@[j] {
                        false
                    } else {
                        p0.eligible[j]
                    },
            ));
            assert(sources@.pending =~= Seq::new(
                MAX_VOICES as nat,
                |j: int|
                    if j < k && choked@[j] {
                        None
                    } else {
                        s0.pending[j]
                    },
            ));
        }
    }
    proof {
        assert(slots_below(choked@, MAX_VOICES as int) =~= choked@);
        assert(sources@.pending =~= Seq::new(
            MAX_VOICES as nat,
            |j: int|
                if choked@[j] {
                    None
                } else {
                    s0.pending[j]
                },
        ));
    }
    choked
}

} // verus!
