use lib::mpe::{CcEffect, MidiExpression};
use lib::pinned::PinnedNotesState;
use lib::voices::{
    voice_matches, Channel, ControlOutcome, HoldWatch, Key, VoiceID, VoiceSlot, Voices, MAX_VOICES,
};

fn occupied(voices: &Voices) -> usize {
    (0..MAX_VOICES).filter(|&i| voices.voice(i).occupied).count()
}

#[test]
fn addresses_match_by_id_channel_and_key_with_wildcards() {
    let voice = VoiceSlot { occupied: true, held: true, sustained: false, voice_id: Some(7), channel: 2, note: 60 };
    assert!(voice_matches(&voice, VoiceID::Wildcard, Channel::Wildcard, Key::Wildcard));
    assert!(voice_matches(&voice, VoiceID::ID(7), Channel::Number(2), Key::Number(60)));
    assert!(!voice_matches(&voice, VoiceID::ID(8), Channel::Wildcard, Key::Wildcard));
    assert!(!voice_matches(&voice, VoiceID::Wildcard, Channel::Number(3), Key::Wildcard));
    assert!(!voice_matches(&voice, VoiceID::Wildcard, Channel::Wildcard, Key::Number(61)));
    let free = VoiceSlot { occupied: false, ..voice };
    assert!(!voice_matches(&free, VoiceID::Wildcard, Channel::Wildcard, Key::Wildcard));
}

#[test]
fn new_notes_reuse_their_id_then_free_slots_then_the_quietest() {
    let mut voices = Voices::new();
    let mut pinned = PinnedNotesState::new();
    assert_eq!(voices.start_voice(&mut pinned, Some(1), 0, 60, 0), (0, None));
    assert_eq!(voices.start_voice(&mut pinned, Some(2), 0, 62, 0), (1, None));
    let (index, replaced) = voices.start_voice(&mut pinned, Some(1), 0, 64, 0);
    assert_eq!(index, 0);
    assert_eq!(replaced.unwrap().note, 60);
    for id in 3..=MAX_VOICES as i32 {
        voices.start_voice(&mut pinned, Some(id), 0, 60, 0);
    }
    assert_eq!(occupied(&voices), MAX_VOICES);
    let (index, replaced) = voices.start_voice(&mut pinned, Some(500), 1, 70, 17);
    assert_eq!(index, 17);
    assert!(replaced.is_some());
    assert_eq!(voices.voice(17).note, 70);
    assert!(voices.voice(17).held);
}

#[test]
fn notes_are_captured_while_hold_is_on() {
    let mut voices = Voices::new();
    let mut pinned = PinnedNotesState::new();
    voices.start_voice(&mut pinned, None, 0, 60, 0);
    assert!(!pinned.get(60));
    pinned.toggle_capture_incoming();
    voices.start_voice(&mut pinned, None, 0, 61, 0);
    assert!(pinned.get(61));
    voices.capture_held_notes(&mut pinned);
    assert!(pinned.get(60));
}

#[test]
fn pedal_sustains_released_voices_until_it_lifts() {
    let mut voices = Voices::new();
    let mut pinned = PinnedNotesState::new();
    let mut zones = MidiExpression::new();
    zones.cc(0, 101, 0);
    zones.cc(0, 100, 6);
    zones.cc(0, 6, 3);
    voices.start_voice(&mut pinned, Some(1), 1, 60, 0);
    voices.start_voice(&mut pinned, Some(2), 5, 60, 0);
    voices.set_sustain(&zones, 0, true);
    assert!(voices.sustain(1) && voices.sustain(3) && !voices.sustain(5));
    voices.release_voice(VoiceID::Wildcard, Channel::Wildcard, Key::Number(60));
    assert!(voices.voice(0).sustained && !voices.voice(0).held);
    assert!(!voices.voice(1).sustained && !voices.voice(1).held);
    assert!(voices.note_input_present(&pinned));
    voices.set_sustain(&zones, 0, false);
    assert!(!voices.voice(0).sustained);
    assert!(voices.voice(0).occupied);
    assert!(!voices.note_input_present(&pinned));
    pinned.set(40, true);
    assert!(voices.note_input_present(&pinned));
}

#[test]
fn chokes_and_zone_resets_free_slots() {
    let mut voices = Voices::new();
    let mut pinned = PinnedNotesState::new();
    let mut zones = MidiExpression::new();
    voices.start_voice(&mut pinned, Some(1), 1, 60, 0);
    voices.start_voice(&mut pinned, Some(2), 2, 61, 0);
    voices.start_voice(&mut pinned, Some(3), 2, 62, 0);
    voices.set_sustain(&zones, 2, true);
    let choked = voices.choke_voice(VoiceID::ID(1), Channel::Wildcard, Key::Wildcard);
    assert!(choked[0] && !choked[1]);
    assert_eq!(occupied(&voices), 2);
    let choked = voices.reset_channel(2);
    assert!(choked[1] && choked[2]);
    assert!(!voices.sustain(2));
    assert_eq!(occupied(&voices), 0);
    voices.start_voice(&mut pinned, None, 0, 1, 0);
    voices.end_voice(0);
    assert_eq!(occupied(&voices), 0);
    voices.start_voice(&mut pinned, None, 0, 1, 0);
    zones.cc(0, 64, 127);
    voices.clear();
    assert_eq!(occupied(&voices), 0);
    let hits = voices.matching(VoiceID::Wildcard, Channel::Wildcard, Key::Wildcard);
    assert!(hits.iter().all(|h| !h));
}

fn control(voices: &mut Voices, zones: &mut MidiExpression, channel: u8, cc: u8, value: u8) -> ControlOutcome {
    voices.control_change(zones, channel, cc, value, value >= 64)
}

fn lower_zone_of_three(voices: &mut Voices, zones: &mut MidiExpression) -> ControlOutcome {
    control(voices, zones, 0, 101, 0);
    control(voices, zones, 0, 100, 6);
    control(voices, zones, 0, 6, 3)
}

#[test]
fn sustain_on_a_master_reaches_its_members() {
    let mut voices = Voices::new();
    let mut pinned = PinnedNotesState::new();
    let mut zones = MidiExpression::new();
    lower_zone_of_three(&mut voices, &mut zones);
    let (slot, _) = voices.start_voice(&mut pinned, Some(1), 1, 60, 0);
    let outcome = control(&mut voices, &mut zones, 0, 64, 127);
    assert!(outcome.effects.is_empty());
    assert!(voices.sustain(0) && voices.sustain(1) && voices.sustain(3));
    assert!(!voices.sustain(4));
    voices.release_voice(VoiceID::ID(1), Channel::Number(1), Key::Number(60));
    assert!(voices.voice(slot).sustained);
    control(&mut voices, &mut zones, 0, 64, 0);
    assert!(!voices.voice(slot).sustained);
    assert!(!voices.sustain(1));
}

#[test]
fn sustain_on_a_member_channel_is_ignored() {
    let mut voices = Voices::new();
    let mut zones = MidiExpression::new();
    lower_zone_of_three(&mut voices, &mut zones);
    control(&mut voices, &mut zones, 2, 64, 127);
    assert!(!voices.sustain(2));
    assert!(!voices.sustain(0));
}

#[test]
fn all_sound_off_ends_the_voices_of_the_reached_channels() {
    let mut voices = Voices::new();
    let mut pinned = PinnedNotesState::new();
    let mut zones = MidiExpression::new();
    lower_zone_of_three(&mut voices, &mut zones);
    let (a, _) = voices.start_voice(&mut pinned, Some(1), 2, 60, 0);
    let (b, _) = voices.start_voice(&mut pinned, Some(2), 5, 62, 0);
    let outcome = control(&mut voices, &mut zones, 0, 120, 0);
    assert!(!voices.voice(a).occupied);
    assert!(voices.voice(b).occupied);
    assert_eq!(outcome.ended.len(), MAX_VOICES);
    assert_eq!(outcome.ended[a].unwrap().note, 60);
    assert!(outcome.ended[b].is_none());
    assert_eq!(outcome.ended.iter().filter(|e| e.is_some()).count(), 1);
}

#[test]
fn all_notes_off_releases_held_voices_and_keeps_pedalled_ones_sounding() {
    let mut voices = Voices::new();
    let mut pinned = PinnedNotesState::new();
    let mut zones = MidiExpression::new();
    let (a, _) = voices.start_voice(&mut pinned, Some(1), 4, 60, 0);
    let (b, _) = voices.start_voice(&mut pinned, Some(2), 5, 62, 0);
    control(&mut voices, &mut zones, 5, 64, 127);
    control(&mut voices, &mut zones, 4, 123, 0);
    assert!(voices.voice(a).occupied && !voices.voice(a).held && !voices.voice(a).sustained);
    assert!(voices.voice(b).held);
    let outcome = control(&mut voices, &mut zones, 5, 123, 0);
    assert!(voices.voice(b).occupied && !voices.voice(b).held && voices.voice(b).sustained);
    assert!(outcome.ended.iter().all(|e| e.is_none()));
}

#[test]
fn reset_all_controllers_reports_every_reached_channel_in_order() {
    let mut voices = Voices::new();
    let mut zones = MidiExpression::new();
    lower_zone_of_three(&mut voices, &mut zones);
    control(&mut voices, &mut zones, 0, 64, 127);
    control(&mut voices, &mut zones, 1, 101, 0);
    let outcome = control(&mut voices, &mut zones, 0, 121, 0);
    let channels: Vec<u8> = outcome.effects.iter().map(|(c, _)| *c).collect();
    assert_eq!(channels, vec![0, 1, 2, 3]);
    assert!(outcome.effects.iter().all(|(_, e)| matches!(e, CcEffect::ResetControllers)));
    assert!(!voices.sustain(0) && !voices.sustain(1));
    assert_eq!(zones.channel(1).rpn_msb, 127);
    assert_eq!(zones.channel(1).rpn_lsb, 127);
    let on_member = control(&mut voices, &mut zones, 2, 121, 0);
    assert!(on_member.effects.is_empty());
}

#[test]
fn other_controllers_go_to_the_channel() {
    let mut voices = Voices::new();
    let mut zones = MidiExpression::new();
    let outcome = control(&mut voices, &mut zones, 3, 74, 90);
    assert_eq!(outcome.effects.len(), 1);
    assert_eq!(outcome.effects[0].0, 3);
    assert!(matches!(outcome.effects[0].1, CcEffect::Timbre));
    let outcome = control(&mut voices, &mut zones, 3, 1, 90);
    assert!(matches!(outcome.effects[0].1, CcEffect::Nothing));
}

#[test]
fn a_zone_change_ends_the_voices_and_lifts_the_pedals_of_changed_channels() {
    let mut voices = Voices::new();
    let mut pinned = PinnedNotesState::new();
    let mut zones = MidiExpression::new();
    let (a, _) = voices.start_voice(&mut pinned, Some(1), 2, 60, 0);
    let (b, _) = voices.start_voice(&mut pinned, Some(2), 7, 62, 0);
    control(&mut voices, &mut zones, 2, 64, 127);
    control(&mut voices, &mut zones, 7, 64, 127);
    let outcome = lower_zone_of_three(&mut voices, &mut zones);
    assert!(matches!(outcome.effects[0].1, CcEffect::ZoneReset(_)));
    assert!(!voices.voice(a).occupied);
    assert_eq!(outcome.ended[a].unwrap().channel, 2);
    assert!(!voices.sustain(2));
    assert!(voices.voice(b).occupied);
    assert!(voices.sustain(7));
}

#[test]
fn control_changes_beyond_channel_sixteen_change_nothing() {
    let mut voices = Voices::new();
    let mut pinned = PinnedNotesState::new();
    let mut zones = MidiExpression::new();
    let (a, _) = voices.start_voice(&mut pinned, Some(1), 0, 60, 0);
    let outcome = control(&mut voices, &mut zones, 16, 120, 0);
    assert!(outcome.effects.is_empty());
    assert!(outcome.ended.iter().all(|e| e.is_none()));
    assert!(voices.voice(a).occupied);
}

#[test]
fn notes_held_when_hold_turns_on_are_captured_once() {
    let mut voices = Voices::new();
    let mut pinned = PinnedNotesState::new();
    let mut watch = HoldWatch::new();
    voices.start_voice(&mut pinned, Some(1), 0, 60, 0);
    watch.capture_held_notes_when_hold_starts(&voices, &mut pinned);
    assert!(!pinned.get(60));
    pinned.toggle_capture_incoming();
    watch.capture_held_notes_when_hold_starts(&voices, &mut pinned);
    assert!(watch.was_enabled);
    assert!(pinned.get(60));
    pinned.set_from_ui(60, false);
    watch.capture_held_notes_when_hold_starts(&voices, &mut pinned);
    assert!(!pinned.get(60));
}
