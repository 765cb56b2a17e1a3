use lib::pool::ParticlePool;
use lib::particles::TriggerCounter;
use lib::pinned::PinnedNotesState;
use lib::sources::{choke_voice_with_sources, start_voice_with_source, SourceTracker};
use lib::voices::{Channel, Key, VoiceID, Voices};

#[test]
fn a_voice_that_loses_its_mapping_retires_its_particles() {
    let mut pool = ParticlePool::new();
    let mut sources = SourceTracker::new();
    sources.update_voice_source(&mut pool, 3, true, true, true);
    assert!(pool.is_eligible(3));
    assert_eq!(pool.take_birth(Some(3)), Some(0));
    pool.tick();
    sources.update_voice_source(&mut pool, 3, true, false, true);
    assert!(!pool.is_eligible(3));
    let p = pool.particle(0);
    assert!(p.active);
    assert_eq!(p.source, None);
    assert_eq!(p.retirement, Some(1));
}

#[test]
fn a_released_voice_stops_supplying_births_but_keeps_its_particles() {
    let mut pool = ParticlePool::new();
    let mut sources = SourceTracker::new();
    sources.update_voice_source(&mut pool, 5, true, true, true);
    pool.take_birth(Some(5));
    sources.update_voice_source(&mut pool, 5, true, true, false);
    assert!(!pool.is_eligible(5));
    assert_eq!(pool.particle(0).source, Some(5));
    sources.update_voice_source(&mut pool, 5, false, true, true);
    assert!(!pool.is_eligible(5));
    assert_eq!(pool.particle(0).source, Some(5));
    assert_eq!(pool.particle(0).retirement, None);
}

#[test]
fn pinned_notes_use_their_own_slots_and_retire_when_unpinned() {
    let mut pool = ParticlePool::new();
    let mut sources = SourceTracker::new();
    sources.update_pinned_source(&mut pool, 60, true, true);
    assert!(pool.is_eligible(128 + 60));
    assert!(!pool.is_eligible(60));
    pool.take_birth(Some(128 + 60));
    sources.update_pinned_source(&mut pool, 60, false, true);
    assert!(!pool.is_eligible(128 + 60));
    assert_eq!(pool.particle(0).source, None);
    assert_eq!(pool.particle(0).retirement, Some(0));
}

#[test]
fn reserved_triggers_are_taken_once_and_dropped_on_choke() {
    let mut sources = SourceTracker::new();
    sources.set_pending(2, 7);
    assert_eq!(sources.take_pending(2), Some(7));
    assert_eq!(sources.take_pending(2), None);
    sources.set_pending(4, 8);
    sources.clear_pending(4);
    assert_eq!(sources.take_pending(4), None);
    sources.set_pending(4, 9);
    sources.reset();
    assert_eq!(sources.take_pending(4), None);
}

#[test]
fn a_new_voice_retires_its_slot_source_and_reserves_a_trigger() {
    let mut voices = Voices::new();
    let mut pinned = PinnedNotesState::new();
    let mut pool = ParticlePool::new();
    let mut sources = SourceTracker::new();
    let mut counter = TriggerCounter::new();
    let (slot, _) = start_voice_with_source(&mut voices, &mut pinned, &mut pool, &mut sources, &mut counter, Some(1), 0, 60, 0);
    assert_eq!(slot, 0);
    sources.update_voice_source(&mut pool, slot, true, true, true);
    pool.take_birth(Some(slot));
    assert_eq!(sources.take_pending(slot), Some(0));
    let (again, replaced) = start_voice_with_source(&mut voices, &mut pinned, &mut pool, &mut sources, &mut counter, Some(1), 0, 62, 0);
    assert_eq!(again, slot);
    assert!(replaced.is_some());
    assert_eq!(pool.particle(0).source, None);
    assert!(!pool.is_eligible(slot));
    assert_eq!(sources.take_pending(slot), Some(1));
}

#[test]
fn choking_retires_the_sources_and_drops_the_triggers_of_choked_voices() {
    let mut voices = Voices::new();
    let mut pinned = PinnedNotesState::new();
    let mut pool = ParticlePool::new();
    let mut sources = SourceTracker::new();
    let mut counter = TriggerCounter::new();
    let (a, _) = start_voice_with_source(&mut voices, &mut pinned, &mut pool, &mut sources, &mut counter, Some(1), 0, 60, 0);
    let (b, _) = start_voice_with_source(&mut voices, &mut pinned, &mut pool, &mut sources, &mut counter, Some(2), 3, 62, 0);
    sources.update_voice_source(&mut pool, a, true, true, true);
    sources.update_voice_source(&mut pool, b, true, true, true);
    pool.take_birth(Some(a));
    pool.take_birth(Some(b));
    let choked = choke_voice_with_sources(&mut voices, &mut pool, &mut sources, VoiceID::Wildcard, Channel::Number(0), Key::Wildcard);
    assert!(choked[a] && !choked[b]);
    assert!(!voices.voice(a).occupied && voices.voice(b).occupied);
    assert_eq!(pool.particle(0).source, None);
    assert_eq!(pool.particle(0).retirement, Some(0));
    assert_eq!(pool.particle(1).source, Some(b));
    assert!(!pool.is_eligible(a) && pool.is_eligible(b));
    assert_eq!(sources.take_pending(a), None);
    assert_eq!(sources.take_pending(b), Some(1));
}
