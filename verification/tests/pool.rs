use lib::motion::Shape;
use lib::particles::TriggerCounter;
use lib::pool::{ParticlePool, MAX_BIRTH_ATTEMPTS, MAX_PARTICLES};

#[test]
fn a_new_pool_is_empty_and_ready_for_sprinkle() {
    let pool = ParticlePool::new();
    assert_eq!(pool.active_count(), 0);
    assert_eq!(pool.births(), 0);
    assert_eq!(pool.dropped(), 0);
    assert_eq!(pool.elapsed_samples(), 0);
    assert!(!pool.is_eligible(0));
    assert_eq!(pool.alternatives(), 0);
}

#[test]
fn a_birth_takes_the_first_free_particle_and_follows_its_source() {
    let mut pool = ParticlePool::new();
    pool.tick();
    pool.tick();
    assert_eq!(pool.take_birth(Some(5)), Some(0));
    assert_eq!(pool.take_birth(Some(6)), Some(1));
    let first = pool.particle(0);
    assert!(first.active);
    assert_eq!(first.source, Some(5));
    assert_eq!(first.birth, 2);
    assert_eq!(first.retirement, None);
    pool.expire(0);
    assert!(!pool.particle(0).active);
    assert_eq!(pool.take_birth(Some(7)), Some(0));
    assert_eq!(pool.births(), 3);
    assert_eq!(pool.active_count(), 2);
}

#[test]
fn births_beyond_the_hop_budget_are_dropped_and_counted() {
    let mut pool = ParticlePool::new();
    for _ in 0..MAX_BIRTH_ATTEMPTS {
        pool.take_birth(Some(1));
    }
    assert_eq!(pool.active_count(), MAX_BIRTH_ATTEMPTS);
    assert_eq!(pool.take_birth(Some(1)), None);
    assert_eq!(pool.dropped(), 1);
    assert_eq!(pool.births(), MAX_BIRTH_ATTEMPTS as u64);
}

#[test]
fn a_full_pool_drops_births_rather_than_stealing() {
    let mut pool = ParticlePool::new();
    for _ in 0..MAX_PARTICLES {
        assert!(pool.take_birth(Some(2)).is_some());
    }
    pool.renew_budget();
    assert_eq!(pool.take_birth(Some(3)), None);
    assert_eq!(pool.dropped(), 1);
    assert!((0..MAX_PARTICLES).all(|i| pool.particle(i).source == Some(2)));
}

#[test]
fn a_sourceless_birth_is_suppressed_while_notes_are_present() {
    let mut pool = ParticlePool::new();
    pool.set_note_input_present(true);
    assert_eq!(pool.take_birth(None), None);
    assert_eq!(pool.dropped(), 0);
    assert_eq!(pool.active_count(), 0);
    pool.set_note_input_present(false);
    assert_eq!(pool.take_birth(None), Some(0));
    assert_eq!(pool.particle(0).source, None);
}

#[test]
fn retiring_a_source_detaches_its_particles_and_starts_their_retirement() {
    let mut pool = ParticlePool::new();
    pool.set_eligible(4, true);
    pool.take_birth(Some(4));
    pool.take_birth(Some(9));
    pool.tick();
    pool.tick();
    pool.tick();
    assert_eq!(pool.attached(4)[0], true);
    pool.retire_source(4);
    assert!(!pool.is_eligible(4));
    let p = pool.particle(0);
    assert!(p.active);
    assert_eq!(p.source, None);
    assert_eq!(p.retirement, Some(3));
    assert_eq!(pool.particle(1).source, Some(9));
    assert!(pool.attached(4).iter().all(|a| !a));
    pool.tick();
    pool.retire_all();
    assert_eq!(pool.particle(0).retirement, Some(3));
    assert_eq!(pool.particle(1).retirement, Some(4));
}

#[test]
fn free_births_alternate_between_eligible_sources() {
    let mut pool = ParticlePool::new();
    pool.set_eligible(3, true);
    pool.set_eligible(7, true);
    assert_eq!(pool.alternatives(), 2);
    assert_eq!(pool.select_source(None, 0), Some(3));
    assert_eq!(pool.alternatives(), 1);
    assert_eq!(pool.select_source(None, 0), Some(7));
    assert_eq!(pool.select_source(None, 9), Some(3));
    assert_eq!(pool.select_source(Some(11), 0), Some(11));
    pool.release_source(7);
    pool.release_source(3);
    assert_eq!(pool.select_source(None, 0), None);
    pool.set_eligible(3, true);
    pool.select_source(None, 0);
    assert_eq!(pool.alternatives(), 0);
    assert_eq!(pool.select_source(None, 0), Some(3));
}

#[test]
fn switching_shape_or_enable_retires_every_particle() {
    let mut pool = ParticlePool::new();
    pool.set_eligible(1, true);
    assert!(pool.accepts_trigger(1));
    assert!(!pool.accepts_trigger(2));
    assert!(!pool.accepts_trigger(1000));
    pool.take_birth(Some(1));
    assert!(!pool.configure_mode(true, Shape::Sprinkle));
    assert_eq!(pool.particle(0).retirement, None);
    assert!(!pool.configure_mode(true, Shape::Cloud));
    assert_eq!(pool.particle(0).retirement, Some(0));
    assert!(!pool.accepts_trigger(1));
    assert!(pool.configure_mode(true, Shape::Sprinkle));
    assert!(!pool.configure_mode(false, Shape::Sprinkle));
    assert!(!pool.accepts_trigger(1));
    assert!(pool.configure_mode(true, Shape::Sprinkle));
}

#[test]
fn reset_returns_to_a_new_pool() {
    let mut pool = ParticlePool::new();
    pool.set_eligible(3, true);
    pool.tick();
    pool.take_birth(Some(3));
    pool.configure_mode(false, Shape::Cloud);
    pool.reset();
    assert_eq!(pool.active_count(), 0);
    assert_eq!(pool.births(), 0);
    assert_eq!(pool.elapsed_samples(), 0);
    assert!(!pool.is_eligible(3));
    assert!(!pool.accepts_trigger(3));
    pool.set_eligible(3, true);
    assert!(pool.accepts_trigger(3));
}

#[test]
fn pool_and_attempt_budget_drop_without_stealing_or_rerolling() {
    let mut e = ParticlePool::new();
    let mut counter = TriggerCounter::new();
    e.set_eligible(0, true);
    let mut trigger = |e: &mut ParticlePool| {
        counter.reserve_trigger();
        if e.accepts_trigger(0) {
            e.birth(Some(0), 0);
        }
    };
    for _ in 0..64 {
        trigger(&mut e);
    }
    let first = e.particle(0);
    for _ in 0..1000 {
        trigger(&mut e);
    }
    assert_eq!(e.births(), 64);
    assert_eq!(e.dropped(), 1000);
    assert_eq!(e.active_count(), 64);
    assert_eq!(e.particle(0).birth, first.birth);
    for _ in 0..256 {
        e.tick();
    }
    e.renew_budget();
    trigger(&mut e);
    assert_eq!(e.births(), 64);
    assert_eq!(e.dropped(), 1001);
}

#[test]
fn a_birth_counts_over_the_living_particles() {
    let mut e = ParticlePool::new();
    assert_eq!(e.birth(None, 0), (None, Some(0)));
    e.set_note_input_present(true);
    assert_eq!(e.birth(None, 0), (None, None));
    assert_eq!((e.births(), e.dropped()), (1, 0));
    e.set_eligible(7, true);
    assert_eq!(e.birth(None, 3), (Some(7), Some(1)));
    assert_eq!(e.particle(1).source, Some(7));
}
