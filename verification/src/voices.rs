//! Voice slots and their lifecycle: which host events address which voices,
//! which slot a new note takes, held and sustained notes, chokes, and the
//! queue of per-voice expression events that wait for the note events of the
//! same sample.
use vstd::prelude::*;
use crate::mpe::{cc_effect_matches, cc_view, CcEffect, ChannelConfig, MidiExpression, MidiExpressionView};
use crate::pinned::{captured_view, PinnedNotesState, PinnedNotesView};

verus! {

/// Voice slots.
pub const MAX_VOICES: usize = 128;
/// Queued expression events: seven kinds for every voice.
pub const MAX_EXPRESSION_EVENTS: usize = 896;

/// A host voice identifier, or any voice.
#[derive(Clone, Copy, Debug, PartialEq, Eq, Structural)]
pub enum VoiceID {
    Wildcard,
    ID(i32),
}

/// A MIDI channel, or any channel.
#[derive(Clone, Copy, Debug, PartialEq, Eq, Structural)]
pub enum Channel {
    Wildcard,
    Number(u8),
}

/// A MIDI key, or any key.
#[derive(Clone, Copy, Debug, PartialEq, Eq, Structural)]
pub enum Key {
    Wildcard,
    Number(u8),
}

/// The identity and gate state of one voice slot. The voice's levels and
/// expression values travel alongside it.
#[derive(Clone, Copy, Debug, PartialEq, Eq, Structural)]
pub struct VoiceSlot {
    pub occupied: bool,
    pub held: bool,
    pub sustained: bool,
    pub voice_id: Option<i32>,
    pub channel: u8,
    pub note: u8,
}

/// An unused slot.
pub open spec fn empty_slot() -> VoiceSlot {
    VoiceSlot { occupied: false, held: false, sustained: false, voice_id: None, channel: 0, note: 0 }
}

/// Whether a host event addressed by voice id, channel and key reaches a
/// voice: the voice is sounding and each given part matches or is a
/// wildcard.
pub open spec fn matches_spec(voice: VoiceSlot, voice_id: VoiceID, channel: Channel, key: Key) -> bool {
    &&& voice.occupied
    &&& match channel {
        Channel::Wildcard => true,
        Channel::Number(c) => c == voice.channel,
    }
    &&& match key {
        Key::Wildcard => true,
        Key::Number(k) => k == voice.note,
    }
    &&& match voice_id {
        VoiceID::Wildcard => true,
        VoiceID::ID(id) => voice.voice_id == Some(id),
    }
}

/// Whether an event addressed by `voice_id`, `channel` and `key` reaches
/// `voice`.
pub fn voice_matches(voice: &VoiceSlot, voice_id: VoiceID, channel: Channel, key: Key) -> (r: bool)
    ensures
        r == matches_spec(*voice, voice_id, channel, key),
{
    voice.occupied && (match channel {
        Channel::Wildcard => true,
        Channel::Number(c) => c == voice.channel,
    }) && (match key {
        Key::Wildcard => true,
        Key::Number(k) => k == voice.note,
    }) && (match voice_id {
        VoiceID::Wildcard => true,
        VoiceID::ID(id) => voice.voice_id == Some(id),
    })
}

/// The slots and the sustain pedal of each channel.
pub struct VoicesView {
    pub voices: Seq<VoiceSlot>,
    pub sustain: Seq<bool>,
}

impl VoicesView {
    /// 128 slots, 16 pedals, and every slot on a real channel and MIDI note.
    pub open spec fn wf(self) -> bool {
        &&& self.voices.len() == MAX_VOICES
        &&& self.sustain.len() == 16
        &&& forall|i: int|
            0 <= i < MAX_VOICES ==> (#[trigger] self.voices[i]).channel < 16 && self.voices[i].note < 128
    }
}

/// The slot a new note takes: the sounding voice with the same host id, else
/// the first free slot, else the given quietest voice.
pub open spec fn chosen_slot(voices: Seq<VoiceSlot>, voice_id: Option<i32>, quietest: int) -> int {
    if voice_id is Some && exists|i: int|
        0 <= i < voices.len() && #[trigger] voices[i].occupied && voices[i].voice_id == voice_id {
        choose|i: int|
            0 <= i < voices.len() && #[trigger] voices[i].occupied && voices[i].voice_id == voice_id
                && forall|j: int|
                0 <= j < i ==> !(voices[j].occupied && voices[j].voice_id == voice_id)
    } else if exists|i: int| 0 <= i < voices.len() && !#[trigger] voices[i].occupied {
        choose|i: int|
            0 <= i < voices.len() && !#[trigger] voices[i].occupied && forall|j: int|
                0 <= j < i ==> voices[j].occupied
    } else {
        quietest
    }
}

/// The slots after a note-off: each held voice that the event reaches is
/// no longer held, and stays sustained when its channel's pedal is down.
pub open spec fn released(v: VoicesView, voice_id: VoiceID, channel: Channel, key: Key) -> Seq<VoiceSlot> {
    Seq::new(
        MAX_VOICES as nat,
        |i: int|
            {
                let s = v.voices[i];
                if s.held && matches_spec(s, voice_id, channel, key) {
                    VoiceSlot { held: false, sustained: v.sustain[s.channel as int], ..s }
                } else {
                    s
                }
            },
    )
}

/// The pedals after a sustain message on `channel`: the channel and, on a
/// zone master, its members.
pub open spec fn pedals_after(v: VoicesView, zones: MidiExpressionView, channel: u8, down: bool) -> Seq<bool> {
    Seq::new(
        16,
        |k: int|
            if k == channel || zones.master(k) == Some(channel) {
                down
            } else {
                v.sustain[k]
            },
    )
}

/// The slots after a sustain message: lifting the pedal ends the sustain of
/// the affected channels' voices; pressing it changes no voice.
pub open spec fn sustain_lifted(v: VoicesView, zones: MidiExpressionView, channel: u8, down: bool) -> Seq<VoiceSlot> {
    Seq::new(
        MAX_VOICES as nat,
        |i: int|
            {
                let s = v.voices[i];
                if !down && (s.channel == channel || zones.master(s.channel as int) == Some(channel)) {
                    VoiceSlot { sustained: false, ..s }
                } else {
                    s
                }
            },
    )
}


/// Whether a channel-wide message on `channel` reaches channel `k`: the
/// channel itself and, on a zone master, its members.
pub open spec fn reaches(zones: MidiExpressionView, channel: u8, k: int) -> bool {
    k == channel || zones.master(k) == Some(channel)
}

/// The zone state after a control change: channel-mode messages (64, 120,
/// 123) leave it alone; Reset All Controllers (121) on a channel that is not
/// a zone member clears the RPN selection of every channel it reaches; any
/// other controller goes to the channel.
pub open spec fn zones_after_cc(zones: MidiExpressionView, channel: u8, cc: u8, byte: u8) -> MidiExpressionView {
    if channel >= 16 || cc == 64 || cc == 120 || cc == 123 {
        zones
    } else if cc == 121 {
        if zones.master(channel as int) is Some {
            zones
        } else {
            MidiExpressionView {
                channels: Seq::new(
                    16,
                    |k: int|
                        if reaches(zones, channel, k) {
                            ChannelConfig { rpn_msb: 127, rpn_lsb: 127, ..zones.channels[k] }
                        } else {
                            zones.channels[k]
                        },
                ),
                ..zones
            }
        }
    } else {
        cc_view(zones, channel as int, cc, byte)
    }
}

/// The slots and pedals after the channel-mode part of a control change on
/// a channel that is not a zone member: sustain (64) moves the pedals, All
/// Sound Off (120) ends the voices, All Notes Off (123) releases them, and
/// Reset All Controllers (121) lifts the pedals. On a member channel, or for
/// another controller, nothing changes here.
pub open spec fn channel_mode_view(v: VoicesView, zones: MidiExpressionView, channel: u8, cc: u8, down: bool) -> VoicesView {
    if channel >= 16 || zones.master(channel as int) is Some {
        v
    } else if cc == 64 {
        VoicesView { voices: sustain_lifted(v, zones, channel, down), sustain: pedals_after(v, zones, channel, down) }
    } else if cc == 121 {
        VoicesView { voices: sustain_lifted(v, zones, channel, false), sustain: pedals_after(v, zones, channel, false) }
    } else if cc == 120 {
        VoicesView {
            voices: Seq::new(
                MAX_VOICES as nat,
                |i: int|
                    if v.voices[i].occupied && reaches(zones, channel, v.voices[i].channel as int) {
                        empty_slot()
                    } else {
                        v.voices[i]
                    },
            ),
            sustain: v.sustain,
        }
    } else if cc == 123 {
        VoicesView {
            voices: Seq::new(
                MAX_VOICES as nat,
                |i: int|
                    {
                        let s = v.voices[i];
                        if s.occupied && s.held && reaches(zones, channel, s.channel as int) {
                            VoiceSlot { held: false, sustained: v.sustain[s.channel as int], ..s }
                        } else {
                            s
                        }
                    },
            ),
            sustain: v.sustain,
        }
    } else {
        v
    }
}

/// The slots and pedals after a zone change: every channel whose zone
/// changed ends its voices and lifts its pedal.
pub open spec fn zone_change_view(v: VoicesView, before: MidiExpressionView, after: MidiExpressionView) -> VoicesView {
    VoicesView {
        voices: Seq::new(
            MAX_VOICES as nat,
            |i: int|
                if v.voices[i].occupied && before.zone(v.voices[i].channel as int) != after.zone(
                    v.voices[i].channel as int,
                ) {
                    empty_slot()
                } else {
                    v.voices[i]
                },
        ),
        sustain: Seq::new(
            16,
            |k: int|
                if before.zone(k) != after.zone(k) {
                    false
                } else {
                    v.sustain[k]
                },
        ),
    }
}

/// What a control change leaves for the caller: the voices it ended (with
/// their identities, for voice-end messages), and the controller effects
/// for the channels it reached, in channel order.
pub struct ControlOutcome {
    pub ended: Vec<Option<VoiceSlot>>,
    pub effects: Vec<(u8, CcEffect)>,
}

/// The voice slots of the instrument.
pub struct Voices {
    voices: Vec<VoiceSlot>,
    channel_sustain: Vec<bool>,
}

impl View for Voices {
    type V = VoicesView;

    closed spec fn view(&self) -> VoicesView {
        VoicesView { voices: self.voices@, sustain: self.channel_sustain@ }
    }
}

/// Each channel's zone.
fn zone_table(zones: &MidiExpression) -> (r: Vec<Option<u8>>)
    ensures
        r@ == Seq::new(16, |k: int| zones@.zone(k)),
{
    let mut r: Vec<Option<u8>> = Vec::new();
    let mut c: u8 = 0;
    while c < 16
        invariant
            c <= 16,
            r@ == Seq::new(c as nat, |k: int| zones@.zone(k)),
        decreases 16 - c,
    {
        r.push(zones.zone_for(c));
        c = c + 1;
        assert(r@ =~= Seq::new(c as nat, |k: int| zones@.zone(k)));
    }
    r
}

fn empty() -> (r: VoiceSlot)
    ensures
        r == empty_slot(),
{
    VoiceSlot { occupied: false, held: false, sustained: false, voice_id: None, channel: 0, note: 0 }
}

impl Voices {
    /// All slots free, all pedals up.
    pub fn new() -> (r: Self)
        ensures
            r@.wf(),
            r@.voices == Seq::new(MAX_VOICES as nat, |i: int| empty_slot()),
            r@.sustain == Seq::new(16, |i: int| false),
    {
        let mut voices: Vec<VoiceSlot> = Vec::new();
        let mut i: usize = 0;
        while i < MAX_VOICES
            invariant
                i <= MAX_VOICES,
                voices@ == Seq::new(i as nat, |k: int| empty_slot()),
            decreases MAX_VOICES - i,
        {
            voices.push(empty());
            i = i + 1;
            assert(voices@ =~= Seq::new(i as nat, |k: int| empty_slot()));
        }
        let mut channel_sustain: Vec<bool> = Vec::new();
        let mut c: usize = 0;
        while c < 16
            invariant
                c <= 16,
                channel_sustain@ == Seq::new(c as nat, |k: int| false),
            decreases 16 - c,
        {
            channel_sustain.push(false);
            c = c + 1;
            assert(channel_sustain@ =~= Seq::new(c as nat, |k: int| false));
        }
        Voices { voices, channel_sustain }
    }

    /// The slot's identity and gate state.
    pub fn voice(&self, index: usize) -> (r: VoiceSlot)
        requires
            self@.wf(),
            index < MAX_VOICES,
        ensures
            r == self@.voices[index as int],
    {
        self.voices[index]
    }

    /// Whether the channel's sustain pedal is down.
    pub fn sustain(&self, channel: u8) -> (r: bool)
        requires
            self@.wf(),
            channel < 16,
        ensures
            r == self@.sustain[channel as int],
    {
        self.channel_sustain[channel as usize]
    }

    /// Which slots an event addressed by `voice_id`, `channel` and `key`
    /// reaches.
    pub fn matching(&self, voice_id: VoiceID, channel: Channel, key: Key) -> (r: Vec<bool>)
        requires
            self@.wf(),
        ensures
            r@ == Seq::new(
                MAX_VOICES as nat,
                |i: int| matches_spec(self@.voices[i], voice_id, channel, key),
            ),
    {
        let mut r: Vec<bool> = Vec::new();
        let mut i: usize = 0;
        while i < MAX_VOICES
            invariant
                i <= MAX_VOICES,
                self@.wf(),
                r@ == Seq::new(i as nat, |k: int| matches_spec(self@.voices[k], voice_id, channel, key)),
            decreases MAX_VOICES - i,
        {
            r.push(voice_matches(&self.voices[i], voice_id, channel, key));
            i = i + 1;
            assert(r@ =~= Seq::new(
                i as nat,
                |k: int| matches_spec(self@.voices[k], voice_id, channel, key),
            ));
        }
        r
    }

    /// Starts a note. While Hold is on the note is also captured. The note
    /// takes the sounding voice with the same host id, else the first free
    /// slot, else `quietest` (the caller's choice of the quietest voice).
    /// Returns the slot and the voice that had to make way, if any.
    pub fn start_voice(
        &mut self,
        pinned: &mut PinnedNotesState,
        voice_id: Option<i32>,
        channel: u8,
        note: u8,
        quietest: usize,
    ) -> (r: (usize, Option<VoiceSlot>))
        requires
            old(self)@.wf(),
            old(pinned)@.wf(),
            channel < 16,
            note < 128,
            quietest < MAX_VOICES,
        ensures
            final(self)@.wf(),
            final(pinned)@ == captured_view(old(pinned)@, note as int),
            r.0 < MAX_VOICES,
            r.0 == chosen_slot(old(self)@.voices, voice_id, quietest as int),
            r.1 == (if old(self)@.voices[r.0 as int].occupied {
                Some(old(self)@.voices[r.0 as int])
            } else {
                None
            }),
            final(self)@.voices == old(self)@.voices.update(
                r.0 as int,
                VoiceSlot { occupied: true, held: true, sustained: false, voice_id, channel, note },
            ),
            final(self)@.sustain == old(self)@.sustain,
    {
        if pinned.capture_incoming() {
            pinned.capture(note as usize);
        }
        let ghost vs = self@.voices;
        let mut index: usize = MAX_VOICES;
        if let Some(id) = voice_id {
            let mut i: usize = 0;
            let mut found = false;
            while i < MAX_VOICES && !found
                invariant
                    i <= MAX_VOICES,
                    self@.wf(),
                    self@.voices == vs,
                    voice_id == Some(id),
                    found ==> i < MAX_VOICES && vs[i as int].occupied && vs[i as int].voice_id
                        == voice_id,
                    forall|j: int| 0 <= j < i ==> !(vs[j].occupied && vs[j].voice_id == voice_id),
                decreases MAX_VOICES - i + (if found { 0int } else { 1int }),
            {
                if self.voices[i].occupied && self.voices[i].voice_id == Some(id) {
                    found = true;
                } else {
                    i = i + 1;
                }
            }
            if found {
                index = i;
            }
            proof {
                if !found {
                    assert(!exists|k: int|
                        0 <= k < vs.len() && #[trigger] vs[k].occupied && vs[k].voice_id == voice_id);
                }
            }
        }
        let ghost by_id = index;
        if index == MAX_VOICES {
            let mut i: usize = 0;
            let mut found = false;
            while i < MAX_VOICES && !found
                invariant
                    i <= MAX_VOICES,
                    self@.wf(),
                    self@.voices == vs,
                    found ==> i < MAX_VOICES && !vs[i as int].occupied,
                    forall|j: int| 0 <= j < i ==> vs[j].occupied,
                decreases MAX_VOICES - i + (if found { 0int } else { 1int }),
            {
                if !self.voices[i].occupied {
                    found = true;
                } else {
                    i = i + 1;
                }
            }
            if found {
                index = i;
            } else {
                index = quietest;
                assert(!exists|k: int| 0 <= k < vs.len() && !#[trigger] vs[k].occupied);
            }
        }
        proof {
            let c = chosen_slot(vs, voice_id, quietest as int);
            if by_id < MAX_VOICES {
                assert(voice_id is Some);
                assert(vs[by_id as int].occupied && vs[by_id as int].voice_id == voice_id);
                let p = |i: int|
                    0 <= i < vs.len() && vs[i].occupied && vs[i].voice_id == voice_id && forall|j: int|
                        0 <= j < i ==> !(vs[j].occupied && vs[j].voice_id == voice_id);
                assert(p(by_id as int));
                assert(p(c));
                if c < by_id {
                    assert(false);
                }
                if c > by_id {
                    assert(false);
                }
            } else {
                if exists|k: int| 0 <= k < vs.len() && !#[trigger] vs[k].occupied {
                    assert(!vs[index as int].occupied);
                    let p = |i: int|
                        0 <= i < vs.len() && !vs[i].occupied && forall|j: int| 0 <= j < i ==> vs[j].occupied;
                    assert(p(index as int));
                    assert(p(c));
                    if c < index {
                        assert(false);
                    }
                    if c > index {
                        assert(false);
                    }
                } else {
                    assert(index == quietest);
                }
            }
        }
        let previous = self.voices[index];
        let replaced = if previous.occupied {
            Some(previous)
        } else {
            None
        };
        self.voices.set(
            index,
            VoiceSlot { occupied: true, held: true, sustained: false, voice_id, channel, note },
        );
        (index, replaced)
    }

    /// Releases the held voices that the event reaches; a voice whose
    /// channel's pedal is down keeps sounding as sustained.
    pub fn release_voice(&mut self, voice_id: VoiceID, channel: Channel, key: Key)
        requires
            old(self)@.wf(),
        ensures
            final(self)@.wf(),
            final(self)@.sustain == old(self)@.sustain,
            final(self)@.voices == released(old(self)@, voice_id, channel, key),
    {
        let mut i: usize = 0;
        while i < MAX_VOICES
            invariant
                i <= MAX_VOICES,
                self@.wf(),
                self@.sustain == old(self)@.sustain,
                forall|k: int|
                    0 <= k < i ==> #[trigger] self@.voices[k] == released(
                        old(self)@,
                        voice_id,
                        channel,
                        key,
                    )[k],
                forall|k: int| i <= k < MAX_VOICES ==> #[trigger] self@.voices[k] == old(self)@.voices[k],
            decreases MAX_VOICES - i,
        {
            let v = self.voices[i];
            if v.held && voice_matches(&v, voice_id, channel, key) {
                let sustained = self.channel_sustain[v.channel as usize];
                self.voices.set(i, VoiceSlot { held: false, sustained, ..v });
            }
            assert(self@.voices[i as int] == released(old(self)@, voice_id, channel, key)[i as int]);
            i = i + 1;
        }
        assert(self@.voices =~= released(old(self)@, voice_id, channel, key));
    }

    /// Moves the sustain pedal of `channel` and, on a zone master, of every
    /// member channel. Lifting a pedal ends the sustain of those channels'
    /// voices.
    pub fn set_sustain(&mut self, zones: &MidiExpression, channel: u8, down: bool)
        requires
            old(self)@.wf(),
        ensures
            final(self)@.wf(),
            final(self)@.sustain == pedals_after(old(self)@, zones@, channel, down),
            final(self)@.voices == sustain_lifted(old(self)@, zones@, channel, down),
    {
        let affected = zones.affected_channels(channel);
        let mut k: usize = 0;
        while k < 16
            invariant
                k <= 16,
                self@.wf(),
                self@.voices == old(self)@.voices,
                affected@ == Seq::new(16, |j: int| j == channel || zones@.master(j) == Some(channel)),
                forall|j: int|
                    0 <= j < k ==> #[trigger] self@.sustain[j] == pedals_after(
                        old(self)@,
                        zones@,
                        channel,
                        down,
                    )[j],
                forall|j: int| k <= j < 16 ==> #[trigger] self@.sustain[j] == old(self)@.sustain[j],
            decreases 16 - k,
        {
            if affected[k] {
                self.channel_sustain.set(k, down);
            }
            assert(self@.sustain[k as int] == pedals_after(old(self)@, zones@, channel, down)[k as int]);
            k = k + 1;
        }
        assert(self@.sustain =~= pedals_after(old(self)@, zones@, channel, down));
        if !down {
            let mut i: usize = 0;
            while i < MAX_VOICES
                invariant
                    i <= MAX_VOICES,
                    !down,
                    self@.wf(),
                    self@.sustain == pedals_after(old(self)@, zones@, channel, down),
                    affected@ == Seq::new(16, |j: int| j == channel || zones@.master(j) == Some(channel)),
                    forall|k: int|
                        0 <= k < i ==> #[trigger] self@.voices[k] == sustain_lifted(
                            old(self)@,
                            zones@,
                            channel,
                            down,
                        )[k],
                    forall|k: int|
                        i <= k < MAX_VOICES ==> #[trigger] self@.voices[k] == old(self)@.voices[k],
                decreases MAX_VOICES - i,
            {
                let v = self.voices[i];
                if affected[v.channel as usize] {
                    self.voices.set(i, VoiceSlot { sustained: false, ..v });
                }
                assert(self@.voices[i as int] == sustain_lifted(old(self)@, zones@, channel, down)[i as int]);
                i = i + 1;
            }
        }
        assert(self@.voices =~= sustain_lifted(old(self)@, zones@, channel, down));
    }

    /// Ends at once every voice that the event reaches, freeing its slot.
    /// Returns which slots were ended.
    pub fn choke_voice(&mut self, voice_id: VoiceID, channel: Channel, key: Key) -> (choked: Vec<bool>)
        requires
            old(self)@.wf(),
        ensures
            final(self)@.wf(),
            final(self)@.sustain == old(self)@.sustain,
            choked@ == Seq::new(
                MAX_VOICES as nat,
                |i: int| matches_spec(old(self)@.voices[i], voice_id, channel, key),
            ),
            final(self)@.voices == Seq::new(
                MAX_VOICES as nat,
                |i: int|
                    if choked@[i] {
                        empty_slot()
                    } else {
                        old(self)@.voices[i]
                    },
            ),
    {
        let choked = self.matching(voice_id, channel, key);
        let mut i: usize = 0;
        while i < MAX_VOICES
            invariant
                i <= MAX_VOICES,
                self@.wf(),
                self@.sustain == old(self)@.sustain,
                choked@ == Seq::new(
                    MAX_VOICES as nat,
                    |k: int| matches_spec(old(self)@.voices[k], voice_id, channel, key),
                ),
                forall|k: int|
                    0 <= k < i ==> #[trigger] self@.voices[k] == (if choked@[k] {
                        empty_slot()
                    } else {
                        old(self)@.voices[k]
                    }),
                forall|k: int| i <= k < MAX_VOICES ==> #[trigger] self@.voices[k] == old(self)@.voices[k],
            decreases MAX_VOICES - i,
        {
            if choked[i] {
                self.voices.set(i, empty());
            }
            i = i + 1;
        }
        assert(self@.voices =~= Seq::new(
            MAX_VOICES as nat,
            |i: int|
                if choked@[i] {
                    empty_slot()
                } else {
                    old(self)@.voices[i]
                },
        ));
        choked
    }

    /// Frees a slot whose voice has faded out.
    pub fn end_voice(&mut self, index: usize)
        requires
            old(self)@.wf(),
            index < MAX_VOICES,
        ensures
            final(self)@.wf(),
            final(self)@.voices == old(self)@.voices.update(index as int, empty_slot()),
            final(self)@.sustain == old(self)@.sustain,
    {
        self.voices.set(index, empty());
    }

    /// A zone change on `channel`: its voices end and its pedal lifts.
    /// Returns which slots were ended.
    pub fn reset_channel(&mut self, channel: u8) -> (choked: Vec<bool>)
        requires
            old(self)@.wf(),
            channel < 16,
        ensures
            final(self)@.wf(),
            final(self)@.sustain == old(self)@.sustain.update(channel as int, false),
            choked@ == Seq::new(
                MAX_VOICES as nat,
                |i: int| old(self)@.voices[i].occupied && old(self)@.voices[i].channel == channel,
            ),
            final(self)@.voices == Seq::new(
                MAX_VOICES as nat,
                |i: int|
                    if choked@[i] {
                        empty_slot()
                    } else {
                        old(self)@.voices[i]
                    },
            ),
    {
        let choked = self.choke_voice(VoiceID::Wildcard, Channel::Number(channel), Key::Wildcard);
        self.channel_sustain.set(channel as usize, false);
        assert(choked@ =~= Seq::new(
            MAX_VOICES as nat,
            |i: int| old(self)@.voices[i].occupied && old(self)@.voices[i].channel == channel,
        ));
        choked
    }

    /// Handles a MIDI control change with the 7-bit value `byte` on
    /// `channel`; `pedal_down` is whether a sustain message presses the
    /// pedal. On a channel that is not a zone member, 64, 120, 121 and 123
    /// act on the channel and, on a master, its members; on a member they
    /// are ignored. Every other controller goes to the zone state. Then
    /// every channel whose zone changed ends its voices and lifts its pedal.
    pub fn control_change(
        &mut self,
        zones: &mut MidiExpression,
        channel: u8,
        cc: u8,
        byte: u8,
        pedal_down: bool,
    ) -> (r: ControlOutcome)
        requires
            old(self)@.wf(),
            old(zones)@.wf(),
        ensures
            final(self)@.wf(),
            final(zones)@.wf(),
            final(zones)@ == zones_after_cc(old(zones)@, channel, cc, byte),
            final(self)@ == zone_change_view(
                channel_mode_view(old(self)@, old(zones)@, channel, cc, pedal_down),
                old(zones)@,
                final(zones)@,
            ),
            r.ended@ == Seq::new(
                MAX_VOICES as nat,
                |i: int|
                    if old(self)@.voices[i].occupied && !final(self)@.voices[i].occupied {
                        Some(old(self)@.voices[i])
                    } else {
                        None
                    },
            ),
            channel < 16 && cc == 121 && old(zones)@.master(channel as int) is None ==> {
                &&& r.effects@.map_values(|e: (u8, CcEffect)| e.0 as int) == Seq::new(
                    16,
                    |k: int| k,
                ).filter(|k: int| reaches(old(zones)@, channel, k))
                &&& forall|j: int|
                    0 <= j < r.effects@.len() ==> (#[trigger] r.effects@[j]).1 is ResetControllers
            },
            channel < 16 && !(cc == 64 || cc == 120 || cc == 121 || cc == 123) ==> r.effects@.len() == 1
                && r.effects@[0].0 == channel && cc_effect_matches(
                old(zones)@,
                channel as int,
                cc,
                byte,
                r.effects@[0].1,
            ),
            (channel >= 16 || cc == 64 || cc == 120 || cc == 123 || (cc == 121 && old(
                zones,
            )@.master(channel as int) is Some)) ==> r.effects@.len() == 0,
    {
        let ghost v0 = self@;
        let ghost z0 = zones@;
        let mut effects: Vec<(u8, CcEffect)> = Vec::new();
        let before = self.snapshot_slots();
        let old_zones = zone_table(zones);
        if channel < 16 {
            let member = zones.master_for(channel).is_some();
            let affected = zones.affected_channels(channel);
            if cc == 64 || cc == 120 || cc == 121 || cc == 123 {
                if !member {
                    if cc == 64 {
                        self.set_sustain(zones, channel, pedal_down);
                    } else if cc == 121 {
                        self.set_sustain(zones, channel, false);
                        let mut k: u8 = 0;
                        while k < 16
                            invariant
                                k <= 16,
                                channel < 16,
                                zones@.wf(),
                                z0.wf(),
                                zones@.lower == z0.lower,
                                zones@.upper == z0.upper,
                                affected@ == Seq::new(16, |j: int| j == channel || z0.master(j) == Some(channel)),
                                forall|j: int|
                                    0 <= j < k ==> #[trigger] zones@.channels[j] == (if reaches(z0, channel, j) {
                                        ChannelConfig { rpn_msb: 127, rpn_lsb: 127, ..z0.channels[j] }
                                    } else {
                                        z0.channels[j]
                                    }),
                                forall|j: int| k <= j < 16 ==> #[trigger] zones@.channels[j] == z0.channels[j],
                                effects@.map_values(|e: (u8, CcEffect)| e.0 as int) == Seq::new(
                                    16,
                                    |j: int| j,
                                ).subrange(0, k as int).filter(|j: int| reaches(z0, channel, j)),
                                forall|j: int|
                                    0 <= j < effects@.len() ==> (#[trigger] effects@[j]).1 is ResetControllers,
                            decreases 16 - k,
                        {
                            proof {
                                let all = Seq::new(16, |j: int| j);
                                assert(all.subrange(0, k + 1).drop_last() =~= all.subrange(0, k as int));
                                reveal_with_fuel(Seq::filter, 1);
                            }
                            if affected[k as usize] {
                                let effect = zones.cc(k, 121, byte);
                                effects.push((k, effect));
                            }
                            proof {
                                let all = Seq::new(16, |j: int| j);
                                assert(effects@.map_values(|e: (u8, CcEffect)| e.0 as int) =~= all.subrange(
                                    0,
                                    k + 1,
                                ).filter(|j: int| reaches(z0, channel, j)));
                            }
                            k = k + 1;
                        }
                        proof {
                            let all = Seq::new(16, |j: int| j);
                            assert(all.subrange(0, 16) =~= all);
                            assert(zones@.channels =~= zones_after_cc(z0, channel, cc, byte).channels);
                        }
                    } else if cc == 120 {
                        self.end_reached(&affected);
                    } else {
                        self.release_reached(&affected);
                    }
                }
            } else {
                let effect = zones.cc(channel, cc, byte);
                effects.push((channel, effect));
            }
        }
        proof {
            let v1 = self@;
            let expected = channel_mode_view(v0, z0, channel, cc, pedal_down);
            assert(v1.voices =~= expected.voices);
            assert(v1.sustain =~= expected.sustain);
        }
        self.apply_zone_changes(&old_zones, zones, Ghost(z0));
        let ended = self.ended_since(&before);
        ControlOutcome { ended, effects }
    }

    /// A copy of the slots.
    fn snapshot_slots(&self) -> (r: Vec<VoiceSlot>)
        requires
            self@.wf(),
        ensures
            r@ == self@.voices,
    {
        let mut r: Vec<VoiceSlot> = Vec::new();
        let mut i: usize = 0;
        while i < MAX_VOICES
            invariant
                i <= MAX_VOICES,
                self@.wf(),
                r@ == self@.voices.subrange(0, i as int),
            decreases MAX_VOICES - i,
        {
            r.push(self.voices[i]);
            i = i + 1;
            assert(r@ =~= self@.voices.subrange(0, i as int));
        }
        assert(r@ =~= self@.voices);
        r
    }

    /// Ends every sounding voice on a channel marked in `affected`.
    fn end_reached(&mut self, affected: &Vec<bool>)
        requires
            old(self)@.wf(),
            affected@.len() == 16,
        ensures
            final(self)@.wf(),
            final(self)@.sustain == old(self)@.sustain,
            final(self)@.voices == Seq::new(
                MAX_VOICES as nat,
                |i: int|
                    if old(self)@.voices[i].occupied && affected@[old(self)@.voices[i].channel as int] {
                        empty_slot()
                    } else {
                        old(self)@.voices[i]
                    },
            ),
    {
        let mut i: usize = 0;
        while i < MAX_VOICES
            invariant
                i <= MAX_VOICES,
                affected@.len() == 16,
                self@.wf(),
                old(self)@.wf(),
                self@.sustain == old(self)@.sustain,
                forall|k: int|
                    0 <= k < i ==> #[trigger] self@.voices[k] == (if old(self)@.voices[k].occupied
                        && affected@[old(self)@.voices[k].channel as int] {
                        empty_slot()
                    } else {
                        old(self)@.voices[k]
                    }),
                forall|k: int| i <= k < MAX_VOICES ==> #[trigger] self@.voices[k] == old(self)@.voices[k],
            decreases MAX_VOICES - i,
        {
            let v = self.voices[i];
            if v.occupied && affected[v.channel as usize] {
                self.voices.set(i, empty());
            }
            i = i + 1;
        }
        assert(self@.voices =~= Seq::new(
            MAX_VOICES as nat,
            |i: int|
                if old(self)@.voices[i].occupied && affected@[old(self)@.voices[i].channel as int] {
                    empty_slot()
                } else {
                    old(self)@.voices[i]
                },
        ));
    }

    /// Releases every held voice on a channel marked in `affected`; a voice
    /// whose channel's pedal is down stays sustained.
    fn release_reached(&mut self, affected: &Vec<bool>)
        requires
            old(self)@.wf(),
            affected@.len() == 16,
        ensures
            final(self)@.wf(),
            final(self)@.sustain == old(self)@.sustain,
            final(self)@.voices == Seq::new(
                MAX_VOICES as nat,
                |i: int|
                    {
                        let s = old(self)@.voices[i];
                        if s.occupied && s.held && affected@[s.channel as int] {
                            VoiceSlot { held: false, sustained: old(self)@.sustain[s.channel as int], ..s }
                        } else {
                            s
                        }
                    },
            ),
    {
        let ghost target = Seq::new(
            MAX_VOICES as nat,
            |i: int|
                {
                    let s = old(self)@.voices[i];
                    if s.occupied && s.held && affected@[s.channel as int] {
                        VoiceSlot { held: false, sustained: old(self)@.sustain[s.channel as int], ..s }
                    } else {
                        s
                    }
                },
        );
        let mut i: usize = 0;
        while i < MAX_VOICES
            invariant
                i <= MAX_VOICES,
                affected@.len() == 16,
                self@.wf(),
                old(self)@.wf(),
                self@.sustain == old(self)@.sustain,
                target == Seq::new(
                    MAX_VOICES as nat,
                    |i: int|
                        {
                            let s = old(self)@.voices[i];
                            if s.occupied && s.held && affected@[s.channel as int] {
                                VoiceSlot { held: false, sustained: old(self)@.sustain[s.channel as int], ..s }
                            } else {
                                s
                            }
                        },
                ),
                forall|k: int| 0 <= k < i ==> #[trigger] self@.voices[k] == target[k],
                forall|k: int| i <= k < MAX_VOICES ==> #[trigger] self@.voices[k] == old(self)@.voices[k],
            decreases MAX_VOICES - i,
        {
            let v = self.voices[i];
            if v.occupied && v.held && affected[v.channel as usize] {
                let sustained = self.channel_sustain[v.channel as usize];
                self.voices.set(i, VoiceSlot { held: false, sustained, ..v });
            }
            assert(self@.voices[i as int] == target[i as int]);
            i = i + 1;
        }
        assert(self@.voices =~= target);
    }

    /// Ends the voices and lifts the pedal of every channel whose zone is
    /// no longer the one in `old_zones`.
    fn apply_zone_changes(
        &mut self,
        old_zones: &Vec<Option<u8>>,
        zones: &MidiExpression,
        Ghost(before): Ghost<MidiExpressionView>,
    )
        requires
            old(self)@.wf(),
            old_zones@ == Seq::new(16, |k: int| before.zone(k)),
        ensures
            final(self)@.wf(),
            final(self)@ == zone_change_view(old(self)@, before, zones@),
    {
        let ghost target = zone_change_view(old(self)@, before, zones@);
        let mut changed: Vec<bool> = Vec::new();
        let mut c: u8 = 0;
        while c < 16
            invariant
                c <= 16,
                old_zones@ == Seq::new(16, |k: int| before.zone(k)),
                changed@ == Seq::new(c as nat, |k: int| before.zone(k) != zones@.zone(k)),
            decreases 16 - c,
        {
            let now = zones.zone_for(c);
            changed.push(old_zones[c as usize] != now);
            c = c + 1;
            assert(changed@ =~= Seq::new(c as nat, |k: int| before.zone(k) != zones@.zone(k)));
        }
        let mut i: usize = 0;
        while i < MAX_VOICES
            invariant
                i <= MAX_VOICES,
                self@.wf(),
                old(self)@.wf(),
                self@.sustain == old(self)@.sustain,
                target == zone_change_view(old(self)@, before, zones@),
                changed@ == Seq::new(16, |k: int| before.zone(k) != zones@.zone(k)),
                forall|k: int| 0 <= k < i ==> #[trigger] self@.voices[k] == target.voices[k],
                forall|k: int| i <= k < MAX_VOICES ==> #[trigger] self@.voices[k] == old(self)@.voices[k],
            decreases MAX_VOICES - i,
        {
            let v = self.voices[i];
            if v.occupied && changed[v.channel as usize] {
                self.voices.set(i, empty());
            }
            i = i + 1;
        }
        let mut k: usize = 0;
        while k < 16
            invariant
                k <= 16,
                self@.wf(),
                old(self)@.wf(),
                target == zone_change_view(old(self)@, before, zones@),
                changed@ == Seq::new(16, |j: int| before.zone(j) != zones@.zone(j)),
                forall|j: int| 0 <= j < MAX_VOICES ==> #[trigger] self@.voices[j] == target.voices[j],
                forall|j: int| 0 <= j < k ==> #[trigger] self@.sustain[j] == target.sustain[j],
                forall|j: int| k <= j < 16 ==> #[trigger] self@.sustain[j] == old(self)@.sustain[j],
            decreases 16 - k,
        {
            if changed[k] {
                self.channel_sustain.set(k, false);
            }
            k = k + 1;
        }
        assert(self@.voices =~= target.voices);
        assert(self@.sustain =~= target.sustain);
    }

    /// For each slot, the voice it held in `before` if that voice has since
    /// ended.
    fn ended_since(&self, before: &Vec<VoiceSlot>) -> (r: Vec<Option<VoiceSlot>>)
        requires
            self@.wf(),
            before@.len() == MAX_VOICES,
        ensures
            r@ == Seq::new(
                MAX_VOICES as nat,
                |i: int|
                    if before@[i].occupied && !self@.voices[i].occupied {
                        Some(before@[i])
                    } else {
                        None
                    },
            ),
    {
        let mut r: Vec<Option<VoiceSlot>> = Vec::new();
        let mut i: usize = 0;
        while i < MAX_VOICES
            invariant
                i <= MAX_VOICES,
                self@.wf(),
                before@.len() == MAX_VOICES,
                r@ == Seq::new(
                    i as nat,
                    |k: int|
                        if before@[k].occupied && !self@.voices[k].occupied {
                            Some(before@[k])
                        } else {
                            None
                        },
                ),
            decreases MAX_VOICES - i,
        {
            let b = before[i];
            if b.occupied && !self.voices[i].occupied {
                r.push(Some(b));
            } else {
                r.push(None);
            }
            i = i + 1;
            assert(r@ =~= Seq::new(
                i as nat,
                |k: int|
                    if before@[k].occupied && !self@.voices[k].occupied {
                        Some(before@[k])
                    } else {
                        None
                    },
            ));
        }
        r
    }

    /// Frees every slot and lifts every pedal.
    pub fn clear(&mut self)
        ensures
            final(self)@.wf(),
            final(self)@.voices == Seq::new(MAX_VOICES as nat, |i: int| empty_slot()),
            final(self)@.sustain == Seq::new(16, |i: int| false),
    {
        *self = Voices::new();
    }

    /// Whether any note input is present: a sounding voice that is held or
    /// sustained, or a pinned note.
    pub fn note_input_present(&self, pinned: &PinnedNotesState) -> (r: bool)
        requires
            self@.wf(),
            pinned@.wf(),
        ensures
            r == ((exists|i: int|
                0 <= i < MAX_VOICES && #[trigger] self@.voices[i].occupied && (self@.voices[i].held
                    || self@.voices[i].sustained)) || (exists|n: int|
                0 <= n < 128 && #[trigger] pinned@.pinned(n))),
    {
        let mut i: usize = 0;
        while i < MAX_VOICES
            invariant
                i <= MAX_VOICES,
                self@.wf(),
                forall|k: int|
                    0 <= k < i ==> !(#[trigger] self@.voices[k].occupied && (self@.voices[k].held
                        || self@.voices[k].sustained)),
            decreases MAX_VOICES - i,
        {
            let v = self.voices[i];
            if v.occupied && (v.held || v.sustained) {
                return true;
            }
            i = i + 1;
        }
        let mut n: usize = 0;
        while n < 128
            invariant
                n <= 128,
                pinned@.wf(),
                forall|k: int| 0 <= k < n ==> !#[trigger] pinned@.pinned(k),
            decreases 128 - n,
        {
            if pinned.get(n) {
                return true;
            }
            n = n + 1;
        }
        false
    }

    /// When Hold switches on, every note still held on the keyboard is
    /// captured.
    pub fn capture_held_notes(&self, pinned: &mut PinnedNotesState)
        requires
            self@.wf(),
            old(pinned)@.wf(),
        ensures
            final(pinned)@.wf(),
            final(pinned)@.notes == old(pinned)@.notes,
            final(pinned)@.holding == old(pinned)@.holding,
            forall|n: int|
                0 <= n < 128 ==> #[trigger] final(pinned)@.held[n] == (old(pinned)@.held[n] || (
                old(pinned)@.holding && exists|i: int|
                    0 <= i < MAX_VOICES && self@.voices[i].occupied && self@.voices[i].held
                        && self@.voices[i].note == n)),
    {
        let mut i: usize = 0;
        while i < MAX_VOICES
            invariant
                i <= MAX_VOICES,
                self@.wf(),
                pinned@.wf(),
                pinned@.notes == old(pinned)@.notes,
                pinned@.holding == old(pinned)@.holding,
                forall|n: int|
                    0 <= n < 128 ==> #[trigger] pinned@.held[n] == (old(pinned)@.held[n] || (
                    old(pinned)@.holding && exists|k: int|
                        0 <= k < i && self@.voices[k].occupied && self@.voices[k].held
                            && self@.voices[k].note == n)),
            decreases MAX_VOICES - i,
        {
            let v = self.voices[i];
            if v.occupied && v.held {
                pinned.capture(v.note as usize);
            }
            proof {
                assert forall|n: int| 0 <= n < 128 implies #[trigger] pinned@.held[n] == (old(
                    pinned,
                )@.held[n] || (old(pinned)@.holding && exists|k: int|
                    0 <= k < i + 1 && self@.voices[k].occupied && self@.voices[k].held
                        && self@.voices[k].note == n)) by {
                    if old(pinned)@.holding && v.occupied && v.held && v.note == n {
                        assert(self@.voices[i as int].note == n);
                    }
                }
            }
            i = i + 1;
        }
    }
}



/// Whether Hold was on when the last block began, so that the notes already
/// held are captured once, when Hold turns on.
pub struct HoldWatch {
    pub was_enabled: bool,
}

impl HoldWatch {
    /// Hold off.
    pub fn new() -> (r: Self)
        ensures
            !r.was_enabled,
    {
        HoldWatch { was_enabled: false }
    }

    /// At the start of a block: if Hold has just turned on, every held voice
    /// is captured; then Hold's state is remembered.
    pub fn capture_held_notes_when_hold_starts(&mut self, voices: &Voices, pinned: &mut PinnedNotesState)
        requires
            voices@.wf(),
            old(pinned)@.wf(),
        ensures
            final(self).was_enabled == old(pinned)@.holding,
            final(pinned)@.wf(),
            final(pinned)@.notes == old(pinned)@.notes,
            final(pinned)@.holding == old(pinned)@.holding,
            forall|n: int|
                0 <= n < 128 ==> #[trigger] final(pinned)@.held[n] == (old(pinned)@.held[n] || (
                old(pinned)@.holding && !old(self).was_enabled && exists|i: int|
                    0 <= i < MAX_VOICES && voices@.voices[i].occupied && voices@.voices[i].held
                        && voices@.voices[i].note == n)),
    {
        let enabled = pinned.capture_incoming();
        if enabled && !self.was_enabled {
            voices.capture_held_notes(pinned);
        }
        self.was_enabled = enabled;
    }
}

/// After a zone change no voice sounds on a channel whose zone changed and
/// its pedal is up; the voices and pedals of every other channel are
/// untouched.
pub proof fn lemma_zone_change_clears_changed_channels(
    v: VoicesView,
    before: MidiExpressionView,
    after: MidiExpressionView,
)
    requires
        v.wf(),
    ensures
        zone_change_view(v, before, after).wf(),
        forall|i: int|
            0 <= i < MAX_VOICES ==> {
                let c = v.voices[i].channel as int;
                let w = #[trigger] zone_change_view(v, before, after).voices[i];
                &&& before.zone(c) != after.zone(c) ==> !w.occupied
                &&& before.zone(c) == after.zone(c) ==> w == v.voices[i]
            },
        forall|k: int|
            0 <= k < 16 ==> #[trigger] zone_change_view(v, before, after).sustain[k] == (v.sustain[k]
                && before.zone(k) == after.zone(k)),
{
}

/// Sustain, All Sound Off, Reset All Controllers and All Notes Off on a zone
/// member channel change neither the voices, the pedals nor the zones.
pub proof fn lemma_member_channel_mode_messages_are_ignored(
    v: VoicesView,
    zones: MidiExpressionView,
    channel: u8,
    cc: u8,
    byte: u8,
    down: bool,
)
    requires
        zones.master(channel as int) is Some,
        cc == 64 || cc == 120 || cc == 121 || cc == 123,
    ensures
        channel_mode_view(v, zones, channel, cc, down) == v,
        zones_after_cc(zones, channel, cc, byte) == zones,
{
}

/// A voice released while its channel's pedal is down keeps sounding as
/// sustained, and lifting that pedal ends the sustain.
pub proof fn lemma_pedal_sustains_released_voice(
    v: VoicesView,
    zones: MidiExpressionView,
    voice_id: VoiceID,
    channel: Channel,
    key: Key,
    index: int,
)
    requires
        v.wf(),
        0 <= index < MAX_VOICES,
        v.voices[index].held,
        matches_spec(v.voices[index], voice_id, channel, key),
        v.sustain[v.voices[index].channel as int],
    ensures
        released(v, voice_id, channel, key)[index].sustained,
        !released(v, voice_id, channel, key)[index].held,
        released(v, voice_id, channel, key)[index].occupied,
        !sustain_lifted(
            VoicesView { voices: released(v, voice_id, channel, key), sustain: v.sustain },
            zones,
            v.voices[index].channel,
            false,
        )[index].sustained,
{
}

/// A new note never takes a sounding voice while a slot is free, unless it
/// continues the voice with its own host id; the chosen slot always exists.
pub proof fn lemma_no_steal_while_a_slot_is_free(
    voices: Seq<VoiceSlot>,
    voice_id: Option<i32>,
    quietest: int,
    free: int,
)
    requires
        voices.len() == MAX_VOICES,
        0 <= quietest < MAX_VOICES,
        0 <= free < MAX_VOICES,
        !voices[free].occupied,
    ensures
        0 <= chosen_slot(voices, voice_id, quietest) < MAX_VOICES,
        !voices[chosen_slot(voices, voice_id, quietest)].occupied || (voices[chosen_slot(
            voices,
            voice_id,
            quietest,
        )].voice_id == voice_id && voice_id is Some),
{
    let c = chosen_slot(voices, voice_id, quietest);
    if voice_id is Some && exists|i: int|
        0 <= i < voices.len() && #[trigger] voices[i].occupied && voices[i].voice_id == voice_id {
        let w = choose|i: int|
            0 <= i < voices.len() && #[trigger] voices[i].occupied && voices[i].voice_id == voice_id;
        lemma_first_match_exists(voices, voice_id, w);
    } else {
        lemma_first_free_exists(voices, free);
    }
}

proof fn lemma_first_match_exists(voices: Seq<VoiceSlot>, voice_id: Option<i32>, w: int)
    requires
        0 <= w < voices.len(),
        voices[w].occupied && voices[w].voice_id == voice_id,
    ensures
        exists|i: int|
            0 <= i < voices.len() && #[trigger] voices[i].occupied && voices[i].voice_id == voice_id
                && forall|j: int| 0 <= j < i ==> !(voices[j].occupied && voices[j].voice_id == voice_id),
    decreases w,
{
    if exists|j: int| 0 <= j < w && voices[j].occupied && voices[j].voice_id == voice_id {
        let j = choose|j: int| 0 <= j < w && voices[j].occupied && voices[j].voice_id == voice_id;
        lemma_first_match_exists(voices, voice_id, j);
    } else {
        assert(voices[w].occupied);
    }
}

proof fn lemma_first_free_exists(voices: Seq<VoiceSlot>, w: int)
    requires
        0 <= w < voices.len(),
        !voices[w].occupied,
    ensures
        exists|i: int|
            0 <= i < voices.len() && !#[trigger] voices[i].occupied && forall|j: int|
                0 <= j < i ==> voices[j].occupied,
    decreases w,
{
    if exists|j: int| 0 <= j < w && !voices[j].occupied {
        let j = choose|j: int| 0 <= j < w && !voices[j].occupied;
        lemma_first_free_exists(voices, j);
    } else {
        assert(!voices[w].occupied);
    }
}

} // verus!
