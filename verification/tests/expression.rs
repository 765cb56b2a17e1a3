use lib::mpe::MidiExpression;
use lib::pinned::PinnedNotesState;
use lib::voices::{Channel, Key, VoiceID, VoiceSlot, Voices, MAX_VOICES};

/// The host's note-on for voice `id`, channel 1, note 60.
fn note(voices: &mut Voices, pinned: &mut PinnedNotesState, id: i32) -> Option<VoiceSlot> {
    voices.start_voice(pinned, Some(id), 1, 60, 0).1
}

/// A MIDI control change with the 7-bit `value`; returns the voices it ended.
fn cc(voices: &mut Voices, zones: &mut MidiExpression, channel: u8, control: u8, value: u8) -> usize {
    let outcome = voices.control_change(zones, channel, control, value, value >= 64);
    outcome.ended.iter().filter(|e| e.is_some()).count()
}

fn rpn(voices: &mut Voices, zones: &mut MidiExpression, channel: u8, parameter: u8, value: u8) -> usize {
    cc(voices, zones, channel, 101, 0) + cc(voices, zones, channel, 100, parameter) + cc(voices, zones, channel, 6, value)
}

/// The bend in semitones of `channel` plus its master's, given each
/// channel's bend in -1..=1 and a fallback range of 48 semitones.
fn bend(zones: &MidiExpression, bends: &[f32; 16], channel: u8) -> f32 {
    let own = bends[channel as usize] * zones.bend_range(channel, 4800) as f32 / 100.0;
    own + zones.master_for(channel).map_or(0.0, |master| bend(zones, bends, master))
}

fn slot_of(voices: &Voices, id: i32) -> usize {
    (0..MAX_VOICES).find(|&i| voices.voice(i).occupied && voices.voice(i).voice_id == Some(id)).unwrap()
}

#[test]
fn wildcard_release_choke_zero_velocity_and_voice_end() {
    let mut voices = Voices::new();
    let mut pinned = PinnedNotesState::new();
    note(&mut voices, &mut pinned, 10);
    note(&mut voices, &mut pinned, 11);
    // A note-on with zero velocity still starts a voice.
    note(&mut voices, &mut pinned, 12);
    assert!(voices.voice(slot_of(&voices, 12)).held);
    voices.release_voice(VoiceID::Wildcard, Channel::Number(1), Key::Number(60));
    assert!((0..MAX_VOICES).all(|i| !voices.voice(i).held));
    let choked = voices.choke_voice(VoiceID::Wildcard, Channel::Wildcard, Key::Wildcard);
    assert!((0..MAX_VOICES).all(|i| !voices.voice(i).occupied));
    assert_eq!(choked.iter().filter(|c| **c).count(), 3);
}

#[test]
fn stealing_and_release_send_voice_end_without_allocating() {
    let mut voices = Voices::new();
    let mut pinned = PinnedNotesState::new();
    let mut ended = 0;
    for id in 0..129 {
        if note(&mut voices, &mut pinned, id).is_some() {
            ended += 1;
        }
    }
    assert_eq!(ended, 1);
    voices.release_voice(VoiceID::Wildcard, Channel::Wildcard, Key::Wildcard);
    // With a release time of zero every released voice ends at once.
    for i in 0..MAX_VOICES {
        let v = voices.voice(i);
        if v.occupied && !v.held && !v.sustained {
            voices.end_voice(i);
            ended += 1;
        }
    }
    assert_eq!(ended, 129);
    assert!((0..MAX_VOICES).all(|i| !voices.voice(i).occupied));
}

#[test]
fn mpe_zones_combine_master_and_member_controls_and_rpn_bend_ranges() {
    let mut voices = Voices::new();
    let mut pinned = PinnedNotesState::new();
    let mut zones = MidiExpression::new();
    rpn(&mut voices, &mut zones, 0, 6, 3);
    rpn(&mut voices, &mut zones, 15, 6, 2);
    rpn(&mut voices, &mut zones, 1, 0, 12);
    cc(&mut voices, &mut zones, 1, 38, 50);
    note(&mut voices, &mut pinned, 1);
    voices.start_voice(&mut pinned, Some(2), 14, 60, 0);
    let mut bends = [0.0_f32; 16];
    for (channel, value) in [(0, 1.0_f32), (1, 1.0), (15, 0.0), (14, 1.0)] {
        bends[channel] = (value.clamp(0.0, 1.0) - 0.5) * 2.0;
    }
    assert_eq!(bend(&zones, &bends, 1), 14.5);
    assert_eq!(bend(&zones, &bends, 14), 46.0);
    cc(&mut voices, &mut zones, 0, 64, 127);
    voices.release_voice(VoiceID::ID(1), Channel::Number(1), Key::Number(60));
    assert!(voices.voice(slot_of(&voices, 1)).sustained);
    cc(&mut voices, &mut zones, 0, 64, 0);
    assert!(!voices.voice(slot_of(&voices, 1)).sustained);
    rpn(&mut voices, &mut zones, 0, 6, 14);
    assert_eq!(zones.master_for(14), Some(0));
    assert_eq!(zones.master_for(15), None);
}

#[test]
fn mpe_configuration_resets_changed_channels_and_member_ranges_are_shared() {
    let mut voices = Voices::new();
    let mut pinned = PinnedNotesState::new();
    let mut zones = MidiExpression::new();
    note(&mut voices, &mut pinned, 1);
    let terminated = rpn(&mut voices, &mut zones, 0, 6, 3);
    assert!((0..MAX_VOICES).all(|i| !voices.voice(i).occupied));
    assert_eq!(terminated, 1);
    rpn(&mut voices, &mut zones, 2, 0, 7);
    let mut bends = [0.0_f32; 16];
    bends[1] = 1.0;
    bends[3] = 1.0;
    assert_eq!(bend(&zones, &bends, 1), 7.0);
    assert_eq!(bend(&zones, &bends, 3), 7.0);
    rpn(&mut voices, &mut zones, 15, 6, 15);
    rpn(&mut voices, &mut zones, 0, 6, 0);
    assert_eq!(zones.master_for(0), Some(15));
}
