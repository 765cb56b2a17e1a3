//! MIDI channel and MPE zone bookkeeping: which channels belong to the lower
//! zone (master channel 0) or the upper zone (master channel 15), the RPN
//! state of each channel, and each channel's pitch-bend range. Bend ranges
//! are kept in hundredths of a semitone.
use vstd::prelude::*;

verus! {

/// MIDI has sixteen channels.
pub const MIDI_CHANNELS: usize = 16;
/// A master channel's bend range once its zone is configured: 2 semitones.
pub const MASTER_BEND_RANGE: u16 = 200;
/// A member channel's bend range once its zone is configured: 48 semitones.
pub const MEMBER_BEND_RANGE: u16 = 4800;
/// The largest bend range that RPN 0 can set: 96 semitones.
pub const MAX_BEND_RANGE: u16 = 9600;

/// The RPN and bend-range state of one channel. `rpn_msb`/`rpn_lsb` are the
/// selected parameter (CC 101/100), `data_msb`/`data_lsb` the last data
/// entry (CC 6/38), and `bend_range` a bend range set by RPN 0 or by zone
/// configuration, in hundredths of a semitone.
#[derive(Clone, Copy, Debug, PartialEq, Eq, Structural)]
pub struct ChannelConfig {
    pub rpn_msb: u8,
    pub rpn_lsb: u8,
    pub data_msb: u8,
    pub data_lsb: u8,
    pub bend_range: Option<u16>,
}

/// No parameter selected (RPN null), no data, no bend range of its own.
pub open spec fn default_channel() -> ChannelConfig {
    ChannelConfig { rpn_msb: 127, rpn_lsb: 127, data_msb: 0, data_lsb: 0, bend_range: None }
}

/// The zone master that a member channel follows: channels 1 to `lower`
/// follow channel 0, channels `15 - upper` to 14 follow channel 15.
pub open spec fn master_of(lower: u8, upper: u8, channel: int) -> Option<u8> {
    if 0 < channel && channel <= lower {
        Some(0u8)
    } else if channel < 15 && channel + upper >= 15 {
        Some(15u8)
    } else {
        None
    }
}

/// Channel 0 masters the lower zone when it has members; channel 15 the
/// upper zone when it has members.
pub open spec fn is_master_of(lower: u8, upper: u8, channel: int) -> bool {
    (channel == 0 && lower > 0) || (channel == 15 && upper > 0)
}

/// The zone a channel belongs to, named by its master channel.
pub open spec fn zone_of(lower: u8, upper: u8, channel: int) -> Option<u8> {
    if is_master_of(lower, upper, channel) {
        Some(channel as u8)
    } else {
        master_of(lower, upper, channel)
    }
}

/// The bend range that an RPN 0 data entry sets: semitones from the data
/// MSB and cents (at most 99) from the LSB, capped at 96 semitones.
pub open spec fn entered_range(config: ChannelConfig) -> u16 {
    let cents: int = if config.data_lsb <= 99 { config.data_lsb as int } else { 99 };
    let total = config.data_msb * 100 + cents;
    if total <= MAX_BEND_RANGE { total as u16 } else { MAX_BEND_RANGE }
}

/// The zone and channel state.
pub struct MidiExpressionView {
    pub channels: Seq<ChannelConfig>,
    pub lower: u8,
    pub upper: u8,
}

impl MidiExpressionView {
    /// Sixteen channels; each zone has at most fifteen members; when both
    /// zones exist they share at most fourteen member channels between them.
    pub open spec fn wf(self) -> bool {
        &&& self.channels.len() == 16
        &&& self.lower <= 15
        &&& self.upper <= 15
        &&& (self.lower == 0 || self.upper == 0 || self.lower + self.upper <= 14)
    }

    pub open spec fn master(self, channel: int) -> Option<u8> {
        master_of(self.lower, self.upper, channel)
    }

    pub open spec fn zone(self, channel: int) -> Option<u8> {
        zone_of(self.lower, self.upper, channel)
    }
}

/// What a control change asks of the caller, which keeps each channel's
/// continuous controllers (bend, pressure, timbre).
pub enum CcEffect {
    /// Nothing for the caller to do.
    Nothing,
    /// CC 74: the channel's timbre takes the controller's value.
    Timbre,
    /// CC 121: the channel's bend, pressure and timbre return to rest.
    ResetControllers,
    /// A zone was configured: the channels marked `true` changed zone and
    /// return to rest.
    ZoneReset(Vec<bool>),
}

/// The state after a data entry (CC 6 or 38) on a channel.
pub open spec fn with_data(config: ChannelConfig, cc: u8, byte: u8) -> ChannelConfig {
    if cc == 38 {
        ChannelConfig { data_lsb: byte, ..config }
    } else {
        ChannelConfig { data_msb: byte, ..config }
    }
}

/// RPN 0 on `channel` sets its bend range; if the channel is a zone member,
/// every member of that zone gets the same range.
pub open spec fn share_range(v: MidiExpressionView, channel: int, range: u16) -> Seq<ChannelConfig> {
    Seq::new(
        16,
        |k: int|
            if k == channel || (v.master(channel) is Some && v.master(k) == v.master(channel)) {
                ChannelConfig { bend_range: Some(range), ..v.channels[k] }
            } else {
                v.channels[k]
            },
    )
}

/// The member counts after RPN 6 on a master channel: the configured zone
/// takes `members` channels and the other zone gives up any overlap.
pub open spec fn configured_members(lower: u8, upper: u8, master: int, members: u8) -> (u8, u8) {
    let room: int = if members <= 14 { 14 - members } else { 0 };
    if master == 0 {
        (members, if members > 0 && upper > room { room as u8 } else { upper })
    } else {
        (if members > 0 && lower > room { room as u8 } else { lower }, members)
    }
}

/// After a zone is configured, every channel whose zone changed returns to
/// rest, and the configured zone's channels get the standard bend ranges.
pub open spec fn reconfigured_channels(
    channels: Seq<ChannelConfig>,
    old_lower: u8,
    old_upper: u8,
    lower: u8,
    upper: u8,
    master: int,
) -> Seq<ChannelConfig> {
    Seq::new(
        16,
        |k: int|
            {
                let base = if zone_of(old_lower, old_upper, k) != zone_of(lower, upper, k) {
                    default_channel()
                } else {
                    channels[k]
                };
                if zone_of(lower, upper, k) == Some(master as u8) {
                    ChannelConfig {
                        bend_range: Some(if k == master { MASTER_BEND_RANGE } else { MEMBER_BEND_RANGE }),
                        ..base
                    }
                } else {
                    base
                }
            },
    )
}

/// The channels whose zone differs between two member configurations.
pub open spec fn zone_changes(old_lower: u8, old_upper: u8, lower: u8, upper: u8) -> Seq<bool> {
    Seq::new(16, |k: int| zone_of(old_lower, old_upper, k) != zone_of(lower, upper, k))
}

/// Whether a data entry on this channel configures a zone: RPN 6 (MPE
/// configuration) selected, CC 6, on channel 0 or 15, with at most 15
/// members.
pub open spec fn configures_zone(config: ChannelConfig, channel: int, cc: u8, byte: u8) -> bool {
    &&& config.rpn_msb == 0
    &&& config.rpn_lsb == 6
    &&& cc == 6
    &&& (channel == 0 || channel == 15)
    &&& byte <= 15
}

/// The state after a data entry (CC 6 or 38) on `channel`.
pub open spec fn data_entry_view(v: MidiExpressionView, channel: int, cc: u8, byte: u8) -> MidiExpressionView {
    let entered = with_data(v.channels[channel], cc, byte);
    let w = MidiExpressionView { channels: v.channels.update(channel, entered), ..v };
    if entered.rpn_msb == 0 && entered.rpn_lsb == 0 {
        MidiExpressionView { channels: share_range(w, channel, entered_range(entered)), ..w }
    } else if configures_zone(entered, channel, cc, byte) {
        let (lower, upper) = configured_members(v.lower, v.upper, channel, byte);
        MidiExpressionView {
            channels: reconfigured_channels(w.channels, v.lower, v.upper, lower, upper, channel),
            lower,
            upper,
        }
    } else {
        w
    }
}

/// The state after control change `cc` with the 7-bit value `byte` on
/// `channel`.
pub open spec fn cc_view(v: MidiExpressionView, channel: int, cc: u8, byte: u8) -> MidiExpressionView {
    if channel >= 16 {
        v
    } else {
        let config = v.channels[channel];
        if cc == 101 {
            MidiExpressionView {
                channels: v.channels.update(
                    channel,
                    ChannelConfig { rpn_msb: byte, data_msb: 0, data_lsb: 0, ..config },
                ),
                ..v
            }
        } else if cc == 100 {
            MidiExpressionView {
                channels: v.channels.update(
                    channel,
                    ChannelConfig { rpn_lsb: byte, data_msb: 0, data_lsb: 0, ..config },
                ),
                ..v
            }
        } else if cc == 99 || cc == 98 || cc == 121 {
            MidiExpressionView {
                channels: v.channels.update(
                    channel,
                    ChannelConfig { rpn_msb: 127, rpn_lsb: 127, ..config },
                ),
                ..v
            }
        } else if cc == 6 || cc == 38 {
            data_entry_view(v, channel, cc, byte)
        } else {
            v
        }
    }
}

/// The effect that `cc_view` reports to the caller.
pub open spec fn cc_effect_matches(
    v: MidiExpressionView,
    channel: int,
    cc: u8,
    byte: u8,
    effect: CcEffect,
) -> bool {
    if channel >= 16 {
        effect is Nothing
    } else if cc == 74 {
        effect is Timbre
    } else if cc == 121 {
        effect is ResetControllers
    } else if (cc == 6 || cc == 38) && !(with_data(v.channels[channel], cc, byte).rpn_msb == 0
        && with_data(v.channels[channel], cc, byte).rpn_lsb == 0) && configures_zone(
        with_data(v.channels[channel], cc, byte),
        channel,
        cc,
        byte,
    ) {
        let (lower, upper) = configured_members(v.lower, v.upper, channel, byte);
        match effect {
            CcEffect::ZoneReset(changed) => changed@ == zone_changes(v.lower, v.upper, lower, upper),
            _ => false,
        }
    } else {
        effect is Nothing
    }
}

/// MIDI zone and RPN state for sixteen channels.
pub struct MidiExpression {
    channels: Vec<ChannelConfig>,
    lower_members: u8,
    upper_members: u8,
}

impl View for MidiExpression {
    type V = MidiExpressionView;

    closed spec fn view(&self) -> MidiExpressionView {
        MidiExpressionView {
            channels: self.channels@,
            lower: self.lower_members,
            upper: self.upper_members,
        }
    }
}

fn default_config() -> (r: ChannelConfig)
    ensures
        r == default_channel(),
{
    ChannelConfig { rpn_msb: 127, rpn_lsb: 127, data_msb: 0, data_lsb: 0, bend_range: None }
}

impl MidiExpression {
    /// No zones; every channel at rest.
    pub fn new() -> (r: Self)
        ensures
            r@.wf(),
            r@.lower == 0,
            r@.upper == 0,
            r@.channels == Seq::new(16, |k: int| default_channel()),
    {
        let mut channels: Vec<ChannelConfig> = Vec::new();
        let mut i: usize = 0;
        while i < MIDI_CHANNELS
            invariant
                i <= MIDI_CHANNELS,
                channels@ == Seq::new(i as nat, |k: int| default_channel()),
            decreases MIDI_CHANNELS - i,
        {
            channels.push(default_config());
            i = i + 1;
            assert(channels@ =~= Seq::new(i as nat, |k: int| default_channel()));
        }
        MidiExpression { channels, lower_members: 0, upper_members: 0 }
    }

    /// The master channel that `channel` follows as a zone member.
    pub fn master_for(&self, channel: u8) -> (r: Option<u8>)
        ensures
            r == self@.master(channel as int),
    {
        if channel > 0 && channel <= self.lower_members {
            Some(0)
        } else if channel < 15 && (channel as u16) + (self.upper_members as u16) >= 15 {
            Some(15)
        } else {
            None
        }
    }

    /// Whether `channel` masters a zone.
    pub fn is_master(&self, channel: u8) -> (r: bool)
        ensures
            r == is_master_of(self@.lower, self@.upper, channel as int),
    {
        (channel == 0 && self.lower_members > 0) || (channel == 15 && self.upper_members > 0)
    }

    /// The zone of `channel`, named by its master.
    pub fn zone_for(&self, channel: u8) -> (r: Option<u8>)
        ensures
            r == self@.zone(channel as int),
    {
        if self.is_master(channel) {
            Some(channel)
        } else {
            self.master_for(channel)
        }
    }

    /// The channel's settings.
    pub fn channel(&self, channel: u8) -> (r: ChannelConfig)
        requires
            self@.wf(),
            channel < 16,
        ensures
            r == self@.channels[channel as int],
    {
        self.channels[channel as usize]
    }

    /// The bend range that applies on `channel`, in hundredths of a
    /// semitone: its own range if it has one, else 2 semitones on a master
    /// channel and `fallback` on any other.
    pub fn bend_range(&self, channel: u8, fallback: u16) -> (r: u16)
        requires
            self@.wf(),
            channel < 16,
        ensures
            r == match self@.channels[channel as int].bend_range {
                Some(range) => range,
                None => if is_master_of(self@.lower, self@.upper, channel as int) {
                    MASTER_BEND_RANGE
                } else {
                    fallback
                },
            },
    {
        match self.channels[channel as usize].bend_range {
            Some(range) => range,
            None => if self.is_master(channel) {
                MASTER_BEND_RANGE
            } else {
                fallback
            },
        }
    }

    /// The channels that a channel-wide message on `channel` reaches: the
    /// channel itself and, on a master channel, all its zone members.
    pub fn affected_channels(&self, channel: u8) -> (r: Vec<bool>)
        ensures
            r@ == Seq::new(
                16,
                |k: int| k == channel || self@.master(k) == Some(channel),
            ),
    {
        let mut r: Vec<bool> = Vec::new();
        let mut k: u8 = 0;
        while k < 16
            invariant
                k <= 16,
                r@ == Seq::new(k as nat, |j: int| j == channel || self@.master(j) == Some(channel)),
            decreases 16 - k,
        {
            let affected = k == channel || self.master_for(k) == Some(channel);
            r.push(affected);
            k = k + 1;
            assert(r@ =~= Seq::new(
                k as nat,
                |j: int| j == channel || self@.master(j) == Some(channel),
            ));
        }
        r
    }

    fn share_range(&mut self, channel: u8, range: u16)
        requires
            old(self)@.wf(),
            channel < 16,
        ensures
            final(self)@ == (MidiExpressionView {
                channels: share_range(old(self)@, channel as int, range),
                ..old(self)@
            }),
    {
        let master = self.master_for(channel);
        let mut k: u8 = 0;
        while k < 16
            invariant
                k <= 16,
                master == old(self)@.master(channel as int),
                self.lower_members == old(self).lower_members,
                self.upper_members == old(self).upper_members,
                self.channels@.len() == 16,
                forall|j: int|
                    0 <= j < k ==> #[trigger] self.channels@[j] == share_range(
                        old(self)@,
                        channel as int,
                        range,
                    )[j],
                forall|j: int| k <= j < 16 ==> #[trigger] self.channels@[j] == old(self).channels@[j],
            decreases 16 - k,
        {
            let in_zone = match master {
                Some(_) => self.master_for(k) == master,
                None => false,
            };
            if k == channel || in_zone {
                let config = self.channels[k as usize];
                self.channels.set(k as usize, ChannelConfig { bend_range: Some(range), ..config });
            }
            k = k + 1;
        }
        assert(self.channels@ =~= share_range(old(self)@, channel as int, range));
    }

    fn reconfigure(&mut self, old_lower: u8, old_upper: u8, master: u8) -> (changed: Vec<bool>)
        requires
            old(self)@.wf(),
            master == 0 || master == 15,
        ensures
            final(self)@ == (MidiExpressionView {
                channels: reconfigured_channels(
                    old(self)@.channels,
                    old_lower,
                    old_upper,
                    old(self)@.lower,
                    old(self)@.upper,
                    master as int,
                ),
                ..old(self)@
            }),
            changed@ == zone_changes(old_lower, old_upper, old(self)@.lower, old(self)@.upper),
    {
        let ghost target = reconfigured_channels(
            old(self)@.channels,
            old_lower,
            old_upper,
            old(self)@.lower,
            old(self)@.upper,
            master as int,
        );
        let ghost changes = zone_changes(old_lower, old_upper, old(self)@.lower, old(self)@.upper);
        let mut changed: Vec<bool> = Vec::new();
        let mut k: u8 = 0;
        while k < 16
            invariant
                k <= 16,
                master == 0 || master == 15,
                self.lower_members == old(self).lower_members,
                self.upper_members == old(self).upper_members,
                self.channels@.len() == 16,
                target == reconfigured_channels(
                    old(self)@.channels,
                    old_lower,
                    old_upper,
                    old(self)@.lower,
                    old(self)@.upper,
                    master as int,
                ),
                changes == zone_changes(old_lower, old_upper, old(self)@.lower, old(self)@.upper),
                forall|j: int| 0 <= j < k ==> #[trigger] self.channels@[j] == target[j],
                forall|j: int| k <= j < 16 ==> #[trigger] self.channels@[j] == old(self).channels@[j],
                changed@ == changes.subrange(0, k as int),
            decreases 16 - k,
        {
            let old_zone = if (k == 0 && old_lower > 0) || (k == 15 && old_upper > 0) {
                Some(k)
            } else if k > 0 && k <= old_lower {
                Some(0u8)
            } else if k < 15 && (k as u16) + (old_upper as u16) >= 15 {
                Some(15u8)
            } else {
                None
            };
            let zone = self.zone_for(k);
            let moved = old_zone != zone;
            let mut config = if moved {
                default_config()
            } else {
                self.channels[k as usize]
            };
            if zone == Some(master) {
                config.bend_range = Some(
                    if k == master {
                        MASTER_BEND_RANGE
                    } else {
                        MEMBER_BEND_RANGE
                    },
                );
            }
            self.channels.set(k as usize, config);
            changed.push(moved);
            proof {
                assert(old_zone == zone_of(old_lower, old_upper, k as int));
                assert(changed@ =~= changes.subrange(0, k + 1));
            }
            k = k + 1;
        }
        assert(self.channels@ =~= target);
        assert(changed@ =~= changes);
        changed
    }

    /// Handles control change `cc` with the 7-bit value `byte` on `channel`:
    /// RPN selection (CC 101/100), RPN null (CC 99/98), data entry (CC 6/38)
    /// for RPN 0 (bend range, shared across a zone's members) and RPN 6 (MPE
    /// zone configuration), and Reset All Controllers (CC 121). Other
    /// controllers change nothing here.
    pub fn cc(&mut self, channel: u8, cc: u8, byte: u8) -> (effect: CcEffect)
        requires
            old(self)@.wf(),
        ensures
            final(self)@.wf(),
            final(self)@ == cc_view(old(self)@, channel as int, cc, byte),
            cc_effect_matches(old(self)@, channel as int, cc, byte, effect),
    {
        if channel >= 16 {
            return CcEffect::Nothing;
        }
        let ch = channel as usize;
        let config = self.channels[ch];
        if cc == 74 {
            CcEffect::Timbre
        } else if cc == 101 {
            self.channels.set(ch, ChannelConfig { rpn_msb: byte, data_msb: 0, data_lsb: 0, ..config });
            CcEffect::Nothing
        } else if cc == 100 {
            self.channels.set(ch, ChannelConfig { rpn_lsb: byte, data_msb: 0, data_lsb: 0, ..config });
            CcEffect::Nothing
        } else if cc == 99 || cc == 98 {
            self.channels.set(ch, ChannelConfig { rpn_msb: 127, rpn_lsb: 127, ..config });
            CcEffect::Nothing
        } else if cc == 121 {
            self.channels.set(ch, ChannelConfig { rpn_msb: 127, rpn_lsb: 127, ..config });
            CcEffect::ResetControllers
        } else if cc == 6 || cc == 38 {
            let entered = if cc == 38 {
                ChannelConfig { data_lsb: byte, ..config }
            } else {
                ChannelConfig { data_msb: byte, ..config }
            };
            self.channels.set(ch, entered);
            if entered.rpn_msb == 0 && entered.rpn_lsb == 0 {
                let cents: u16 = if entered.data_lsb <= 99 {
                    entered.data_lsb as u16
                } else {
                    99
                };
                let total: u16 = (entered.data_msb as u16) * 100 + cents;
                let range = if total <= MAX_BEND_RANGE {
                    total
                } else {
                    MAX_BEND_RANGE
                };
                self.share_range(channel, range);
                CcEffect::Nothing
            } else if entered.rpn_msb == 0 && entered.rpn_lsb == 6 && cc == 6 && (channel == 0
                || channel == 15) && byte <= 15 {
                let old_lower = self.lower_members;
                let old_upper = self.upper_members;
                let room: u8 = if byte <= 14 {
                    14 - byte
                } else {
                    0
                };
                if channel == 0 {
                    self.lower_members = byte;
                    if byte > 0 && self.upper_members > room {
                        self.upper_members = room;
                    }
                } else {
                    self.upper_members = byte;
                    if byte > 0 && self.lower_members > room {
                        self.lower_members = room;
                    }
                }
                let changed = self.reconfigure(old_lower, old_upper, channel);
                CcEffect::ZoneReset(changed)
            } else {
                CcEffect::Nothing
            }
        } else {
            CcEffect::Nothing
        }
    }
}

impl Default for MidiExpression {
    fn default() -> (r: Self)
        ensures
            r@.wf(),
            r@.lower == 0,
            r@.upper == 0,
            r@.channels == Seq::new(16, |k: int| default_channel()),
    {
        MidiExpression::new()
    }
}

/// Zones never overlap: a master channel follows no other master, the
/// master a member follows does master its zone, and no channel is a member
/// of both zones.
pub proof fn lemma_zones_are_disjoint(v: MidiExpressionView, channel: int)
    requires
        v.wf(),
        0 <= channel < 16,
    ensures
        is_master_of(v.lower, v.upper, channel) ==> v.master(channel) is None,
        v.master(channel) matches Some(m) ==> is_master_of(v.lower, v.upper, m as int),
        !(0 < channel <= v.lower && channel < 15 && channel + v.upper >= 15),
{
}

/// Configuring a zone keeps the state well formed, and the configured zone
/// has exactly the requested members when it is the lower zone (channels 1
/// to `members`) or the upper zone (channels `15 - members` to 14).
pub proof fn lemma_configuration_keeps_zones_apart(v: MidiExpressionView, master: int, members: u8)
    requires
        v.wf(),
        master == 0 || master == 15,
        members <= 15,
    ensures
        ({
            let (lower, upper) = configured_members(v.lower, v.upper, master, members);
            &&& lower <= 15 && upper <= 15
            &&& (lower == 0 || upper == 0 || lower + upper <= 14)
            &&& master == 0 ==> lower == members
            &&& master == 15 ==> upper == members
            &&& forall|k: int|
                0 <= k < 16 && members > 0 ==> (#[trigger] master_of(lower, upper, k) == Some(
                    master as u8,
                ) <==> (if master == 0 {
                    1 <= k <= members
                } else {
                    15 - members <= k <= 14
                }))
        }),
{
}

/// Every control change keeps the zone state well formed, and a bend range
/// set on a zone member reaches every member of that zone.
pub proof fn lemma_member_ranges_are_shared(v: MidiExpressionView, channel: int, range: u16, other: int)
    requires
        v.wf(),
        0 <= channel < 16,
        0 <= other < 16,
        v.master(channel) is Some,
        v.master(other) == v.master(channel),
    ensures
        share_range(v, channel, range)[other].bend_range == Some(range),
        share_range(v, channel, range)[channel].bend_range == Some(range),
{
}

} // verus!
