use lib::display::{
    capture_accepted, is_positive_f32_bits, particle_frame, AnalysisDisplay, CaptureDisplay,
    ParticleObservation, ANALYZER_POINTS, PARTICLE_BINS,
};
use std::sync::atomic::Ordering;

/// The attenuation the editor draws for an observed frame at `frequency`.
fn attenuation_db(observation: &ParticleObservation, frequency: f32) -> f32 {
    if observation.bins == 0 {
        return 0.0;
    }
    let gain = |i: usize| f32::from_bits(observation.gains[i]);
    let bin_hz = f32::from_bits(observation.bin_hz);
    let position = (frequency / bin_hz).clamp(0.0, (observation.bins - 1) as f32);
    let left = position as usize;
    let right = (left + 1).min(observation.bins - 1);
    let value = gain(left) + (gain(right) - gain(left)) * (position - left as f32);
    -20.0 * value.max(1e-9).log10()
}

fn bits(values: &[f32]) -> Vec<u32> {
    values.iter().map(|v| v.to_bits()).collect()
}

#[test]
fn epochs_are_never_zero_and_stop_withdraws_the_request() {
    let display = CaptureDisplay::new();
    assert_eq!(display.requested(), 0);
    let first = display.begin();
    assert_eq!(first, 1);
    assert_eq!(display.requested(), first);
    let second = display.begin();
    assert_eq!(second, 2);
    assert_eq!(display.requested(), second);
    display.stop();
    assert_eq!(display.requested(), 0);
}

#[test]
fn a_reader_accepts_only_the_requested_capture_with_a_positive_duration() {
    let display = CaptureDisplay::new();
    let epoch = display.begin();
    assert!(display.read(epoch).is_none());
    let levels: Vec<u32> = (0..ANALYZER_POINTS).map(|i| (i as f32 * 0.5).to_bits()).collect();
    display.publish(epoch, &levels, 0.04_f32.to_bits());
    let (power, seconds) = display.read(epoch).unwrap();
    assert_eq!(power, levels);
    assert_eq!(f32::from_bits(seconds), 0.04);
    assert!(display.read(epoch + 1).is_none());
    display.stop();
    assert_eq!(display.read(epoch).unwrap().0, levels);
    let next = display.begin();
    assert!(display.read(next).is_none());
    display.publish(next, &levels, 0.0_f32.to_bits());
    assert!(display.read(next).is_none());
}

#[test]
fn positive_bits_are_exactly_the_floats_above_zero() {
    for value in [1.0_f32, 0.04, f32::MIN_POSITIVE, f32::MAX, f32::INFINITY, 1.0e-45] {
        assert!(is_positive_f32_bits(value.to_bits()), "{value}");
    }
    for value in [0.0_f32, -0.0, -1.0, f32::NEG_INFINITY, f32::NAN, -f32::NAN] {
        assert!(!is_positive_f32_bits(value.to_bits()), "{value}");
    }
}

#[test]
fn particle_observations_retain_last_frame_during_publication() {
    let display = AnalysisDisplay::new();
    let mut snapshot = ParticleObservation::new();
    display.store_particles(&bits(&[0.5, 0.25, 0.5]), 10.0_f32.to_bits(), true);
    display.read_particles(&mut snapshot);
    assert!(snapshot.active);
    assert!((attenuation_db(&snapshot, 10.0) - 12.0412).abs() < 1e-4);
    display.particle_generation.fetch_add(1, Ordering::SeqCst);
    display.particle_words[1].store(1.0_f32.to_bits(), Ordering::SeqCst);
    display.read_particles(&mut snapshot);
    assert!((attenuation_db(&snapshot, 10.0) - 12.0412).abs() < 1e-4);
}

#[test]
fn an_accepted_frame_opens_every_bin_beyond_its_count() {
    let display = AnalysisDisplay::new();
    let mut snapshot = ParticleObservation::new();
    display.store_particles(&bits(&[0.25; 4]), 5.0_f32.to_bits(), true);
    display.read_particles(&mut snapshot);
    assert_eq!(snapshot.bins, 4);
    assert_eq!(snapshot.gains.len(), PARTICLE_BINS);
    assert_eq!(f32::from_bits(snapshot.gains[3]), 0.25);
    assert!(snapshot.gains[4..].iter().all(|g| f32::from_bits(*g) == 1.0));
    let long = vec![0.5_f32.to_bits(); PARTICLE_BINS + 10];
    display.store_particles(&long, 5.0_f32.to_bits(), true);
    display.read_particles(&mut snapshot);
    assert_eq!(snapshot.bins, PARTICLE_BINS);
}

#[test]
fn clearing_mutes_the_display_and_closes_the_particles() {
    let display = AnalysisDisplay::new();
    assert_eq!(f32::from_bits(display.sample_rate()), 48_000.0);
    assert_eq!(f32::from_bits(display.tempo()), 120.0);
    let levels = vec![0.5_f32.to_bits(); 128];
    display.store_notes(&levels, &levels, &levels);
    display.store_spectrum(&vec![(-6.0_f32).to_bits(); ANALYZER_POINTS]);
    display.store_motion_phase(0.25_f32.to_bits());
    display.store_output_peak(0.5_f32.to_bits());
    display.store_output_peak(0.25_f32.to_bits());
    display.store_particles(&bits(&[0.5; 3]), 10.0_f32.to_bits(), true);
    display.clear();
    assert_eq!(f32::from_bits(display.note_level(60)), 0.0);
    assert_eq!(f32::from_bits(display.note_tuning(60)), 0.0);
    assert_eq!(f32::from_bits(display.note_timbre(60)), 0.5);
    assert_eq!(f32::from_bits(display.spectrum_level(10)), -144.0);
    assert_eq!(f32::from_bits(display.motion_phase()), 0.0);
    assert_eq!(display.take_output_peak(), 0);
    let mut snapshot = ParticleObservation::new();
    display.read_particles(&mut snapshot);
    assert!(!snapshot.active);
    assert_eq!(snapshot.bins, 0);
    assert_eq!(attenuation_db(&snapshot, 100.0), 0.0);
}

#[test]
fn the_output_peak_holds_the_highest_value_until_taken() {
    let display = AnalysisDisplay::new();
    display.store_output_peak(0.5_f32.to_bits());
    display.store_output_peak(0.25_f32.to_bits());
    assert_eq!(f32::from_bits(display.take_output_peak()), 0.5);
    assert_eq!(display.take_output_peak(), 0);
}

#[test]
fn a_capture_copy_is_accepted_only_for_its_epoch_when_coherent() {
    let one = 1.0_f32.to_bits();
    assert!(capture_accepted(4, 4, 7, 7, one));
    assert!(!capture_accepted(4, 4, 6, 7, one));
    assert!(!capture_accepted(5, 5, 7, 7, one));
    assert!(!capture_accepted(4, 6, 7, 7, one));
    assert!(!capture_accepted(4, 4, 7, 7, 0));
}

#[test]
fn a_particle_frame_takes_the_published_gains_and_opens_the_rest() {
    let words: Vec<u32> = vec![0.5_f32.to_bits(), 0.25_f32.to_bits(), 0.125_f32.to_bits()];
    let frame = particle_frame(2, 10.0_f32.to_bits(), 1, &words);
    assert_eq!(frame.bins, 2);
    assert!(frame.active);
    assert_eq!(frame.gains.len(), PARTICLE_BINS);
    assert_eq!(frame.gains[..2], words[..2]);
    assert!(frame.gains[2..].iter().all(|g| f32::from_bits(*g) == 1.0));
    let all = vec![0_u32; PARTICLE_BINS];
    let capped = particle_frame(u32::MAX, 0, 0, &all);
    assert_eq!(capped.bins, PARTICLE_BINS);
    assert!(!capped.active);
}
