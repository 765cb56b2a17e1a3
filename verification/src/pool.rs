//! The particle engine's pool: which windows are alive, which note source
//! each follows, when each was born or began to retire, which sources may
//! supply births, and the per-hop birth budget. A birth never steals a
//! living particle and never rerolls: when the pool or the budget is full
//! the birth is dropped and counted.
use vstd::prelude::*;
use crate::motion::Shape;

verus! {

/// Particles alive at once.
pub const MAX_PARTICLES: usize = 64;
/// Source slots: 128 voices and 128 pinned notes.
pub const MAX_SOURCES: usize = 256;
/// Births attempted per spectral hop.
pub const MAX_BIRTH_ATTEMPTS: usize = 64;

/// The integer state of one particle.
#[derive(Clone, Copy, Debug, PartialEq, Eq, Structural)]
pub struct ParticleSlot {
    pub active: bool,
    /// The source slot it follows; `None` once detached or for a free birth.
    pub source: Option<usize>,
    /// The sample at which it was born.
    pub birth: u64,
    /// The sample at which it began to retire, if it has.
    pub retirement: Option<u64>,
}

/// A free slot.
pub open spec fn idle_slot() -> ParticleSlot {
    ParticleSlot { active: false, source: None, birth: 0, retirement: None }
}

/// The pool as plain values.
pub struct PoolView {
    pub particles: Seq<ParticleSlot>,
    pub eligible: Seq<bool>,
    pub sample: u64,
    pub last_source: Option<usize>,
    pub note_input_present: bool,
    pub attempts: usize,
    pub births: u64,
    pub dropped: u64,
    pub enabled: bool,
    pub shape: Shape,
}

impl PoolView {
    /// Table sizes, the budget, and no particle born or retired in the
    /// future.
    pub open spec fn wf(self) -> bool {
        &&& self.particles.len() == MAX_PARTICLES
        &&& self.eligible.len() == MAX_SOURCES
        &&& self.attempts <= MAX_BIRTH_ATTEMPTS
        &&& forall|i: int|
            0 <= i < MAX_PARTICLES ==> {
                let p = #[trigger] self.particles[i];
                &&& p.birth <= self.sample
                &&& (p.retirement matches Some(r) ==> r <= self.sample)
            }
    }

    /// The number of living particles.
    pub open spec fn active_count(self) -> nat {
        self.particles.filter(|p: ParticleSlot| p.active).len()
    }

    /// The eligible sources other than the one that supplied the last birth.
    pub open spec fn alternatives(self) -> Seq<int> {
        Seq::new(MAX_SOURCES as nat, |i: int| i).filter(
            |i: int| self.eligible[i] && self.last_source != Some(i as usize),
        )
    }

    /// The first eligible source, if any.
    pub open spec fn first_eligible(self) -> Option<usize> {
        let e = Seq::new(MAX_SOURCES as nat, |i: int| i).filter(|i: int| self.eligible[i]);
        if e.len() > 0 { Some(e[0] as usize) } else { None }
    }
}

/// The source a birth uses: the requested one, or else the `choice`-th
/// alternative (capped at the last), or, with no alternative, the first
/// eligible source.
pub open spec fn selected_source(v: PoolView, requested: Option<usize>, choice: usize) -> Option<usize> {
    match requested {
        Some(s) => Some(s),
        None => {
            let alts = v.alternatives();
            if alts.len() == 0 {
                v.first_eligible()
            } else {
                let c = if choice < alts.len() { choice as int } else { alts.len() - 1 };
                Some(alts[c] as usize)
            }
        },
    }
}

/// Detaches every living particle that follows `source` (or every one, for
/// `None`), starting its retirement now unless it already began.
pub open spec fn retired_particles(v: PoolView, source: Option<usize>) -> Seq<ParticleSlot> {
    Seq::new(
        MAX_PARTICLES as nat,
        |i: int|
            {
                let p = v.particles[i];
                if p.active && (source is None || p.source == source) {
                    ParticleSlot {
                        source: None,
                        retirement: match p.retirement {
                            Some(r) => Some(r),
                            None => Some(v.sample),
                        },
                        ..p
                    }
                } else {
                    p
                }
            },
    )
}

/// The index of the first free particle, if any.
pub open spec fn first_free(particles: Seq<ParticleSlot>) -> Option<int> {
    if exists|i: int| 0 <= i < particles.len() && !(#[trigger] particles[i]).active {
        Some(
            choose|i: int|
                0 <= i < particles.len() && !(#[trigger] particles[i]).active && forall|j: int|
                    0 <= j < i ==> particles[j].active,
        )
    } else {
        None
    }
}

/// The particle pool.
pub struct ParticlePool {
    particles: Vec<ParticleSlot>,
    eligible: Vec<bool>,
    sample: u64,
    last_source: Option<usize>,
    note_input_present: bool,
    attempts: usize,
    births: u64,
    dropped: u64,
    enabled: bool,
    shape: Shape,
}

impl View for ParticlePool {
    type V = PoolView;

    closed spec fn view(&self) -> PoolView {
        PoolView {
            particles: self.particles@,
            eligible: self.eligible@,
            sample: self.sample,
            last_source: self.last_source,
            note_input_present: self.note_input_present,
            attempts: self.attempts,
            births: self.births,
            dropped: self.dropped,
            enabled: self.enabled,
            shape: self.shape,
        }
    }
}

fn idle() -> (r: ParticleSlot)
    ensures
        r == idle_slot(),
{
    ParticleSlot { active: false, source: None, birth: 0, retirement: None }
}

impl ParticlePool {
    /// Every particle free, no source eligible, sample 0, Sprinkle enabled.
    pub fn new() -> (r: Self)
        ensures
            r@.wf(),
            r@.particles == Seq::new(MAX_PARTICLES as nat, |i: int| idle_slot()),
            r@.eligible == Seq::new(MAX_SOURCES as nat, |i: int| false),
            r@.sample == 0,
            r@.last_source is None,
            !r@.note_input_present,
            r@.attempts == 0,
            r@.births == 0,
            r@.dropped == 0,
            r@.enabled,
            r@.shape == Shape::Sprinkle,
    {
        let mut particles: Vec<ParticleSlot> = Vec::new();
        let mut i: usize = 0;
        while i < MAX_PARTICLES
            invariant
                i <= MAX_PARTICLES,
                particles@ == Seq::new(i as nat, |k: int| idle_slot()),
            decreases MAX_PARTICLES - i,
        {
            particles.push(idle());
            i = i + 1;
            assert(particles@ =~= Seq::new(i as nat, |k: int| idle_slot()));
        }
        let mut eligible: Vec<bool> = Vec::new();
        let mut s: usize = 0;
        while s < MAX_SOURCES
            invariant
                s <= MAX_SOURCES,
                eligible@ == Seq::new(s as nat, |k: int| false),
            decreases MAX_SOURCES - s,
        {
            eligible.push(false);
            s = s + 1;
            assert(eligible@ =~= Seq::new(s as nat, |k: int| false));
        }
        ParticlePool {
            particles,
            eligible,
            sample: 0,
            last_source: None,
            note_input_present: false,
            attempts: 0,
            births: 0,
            dropped: 0,
            enabled: true,
            shape: Shape::Sprinkle,
        }
    }

    /// Back to a new pool: every particle free, no source eligible, sample
    /// 0, no birth counted, Sprinkle enabled.
    pub fn reset(&mut self)
        ensures
            final(self)@.wf(),
            final(self)@.particles == Seq::new(MAX_PARTICLES as nat, |i: int| idle_slot()),
            final(self)@.eligible == Seq::new(MAX_SOURCES as nat, |i: int| false),
            final(self)@.sample == 0,
            final(self)@.last_source is None,
            !final(self)@.note_input_present,
            final(self)@.attempts == 0,
            final(self)@.births == 0,
            final(self)@.dropped == 0,
            final(self)@.enabled,
            final(self)@.shape == Shape::Sprinkle,
    {
        *self = ParticlePool::new();
    }

    /// One particle's state.
    pub fn particle(&self, index: usize) -> (r: ParticleSlot)
        requires
            self@.wf(),
            index < MAX_PARTICLES,
        ensures
            r == self@.particles[index as int],
    {
        self.particles[index]
    }

    /// Samples elapsed since the last reset.
    pub fn elapsed_samples(&self) -> (r: u64)
        ensures
            r == self@.sample,
    {
        self.sample
    }

    /// Births so far.
    pub fn births(&self) -> (r: u64)
        ensures
            r == self@.births,
    {
        self.births
    }

    /// Births dropped for want of room or budget.
    pub fn dropped(&self) -> (r: u64)
        ensures
            r == self@.dropped,
    {
        self.dropped
    }

    /// Whether a source may supply births.
    pub fn is_eligible(&self, source: usize) -> (r: bool)
        requires
            self@.wf(),
            source < MAX_SOURCES,
        ensures
            r == self@.eligible[source as int],
    {
        self.eligible[source]
    }

    /// The number of living particles.
    pub fn active_count(&self) -> (r: usize)
        requires
            self@.wf(),
        ensures
            r == self@.active_count(),
    {
        let mut count: usize = 0;
        let mut i: usize = 0;
        while i < MAX_PARTICLES
            invariant
                i <= MAX_PARTICLES,
                self@.wf(),
                count == self@.particles.subrange(0, i as int).filter(|p: ParticleSlot| p.active).len(),
            decreases MAX_PARTICLES - i,
        {
            let ghost before = self@.particles.subrange(0, i as int);
            proof {
                assert(self@.particles.subrange(0, i + 1).drop_last() =~= before);
                before.lemma_filter_len(|p: ParticleSlot| p.active);
                reveal_with_fuel(Seq::filter, 1);
            }
            if self.particles[i].active {
                count = count + 1;
            }
            i = i + 1;
        }
        assert(self@.particles.subrange(0, MAX_PARTICLES as int) =~= self@.particles);
        count
    }

    /// Whether any note input is present, including muted or unmapped
    /// notes: then a birth without a source is suppressed rather than made
    /// free.
    pub fn set_note_input_present(&mut self, present: bool)
        ensures
            final(self)@ == (PoolView { note_input_present: present, ..old(self)@ }),
    {
        self.note_input_present = present;
    }

    /// Sets whether a source slot may supply births (its stored source is
    /// valid and eligible). Slots out of range are ignored.
    pub fn set_eligible(&mut self, source: usize, eligible: bool)
        requires
            old(self)@.wf(),
        ensures
            final(self)@.wf(),
            source < MAX_SOURCES ==> final(self)@ == (PoolView {
                eligible: old(self)@.eligible.update(source as int, eligible),
                ..old(self)@
            }),
            source >= MAX_SOURCES ==> final(self)@ == old(self)@,
    {
        if source < MAX_SOURCES {
            self.eligible.set(source, eligible);
        }
    }

    /// A natural release: the source stops supplying births; its
    /// particles finish at their last pitch.
    pub fn release_source(&mut self, source: usize)
        requires
            old(self)@.wf(),
            source < MAX_SOURCES,
        ensures
            final(self)@.wf(),
            final(self)@ == (PoolView {
                eligible: old(self)@.eligible.update(source as int, false),
                ..old(self)@
            }),
    {
        self.eligible.set(source, false);
    }

    fn retire_where(&mut self, source: Option<usize>)
        requires
            old(self)@.wf(),
        ensures
            final(self)@.wf(),
            final(self)@ == (PoolView { particles: retired_particles(old(self)@, source), ..old(self)@ }),
    {
        let mut i: usize = 0;
        while i < MAX_PARTICLES
            invariant
                i <= MAX_PARTICLES,
                self@.wf(),
                self@.eligible == old(self)@.eligible,
                self.sample == old(self)@.sample,
                self.last_source == old(self)@.last_source,
                self.note_input_present == old(self)@.note_input_present,
                self.attempts == old(self)@.attempts,
                self.births == old(self)@.births,
                self.dropped == old(self)@.dropped,
                self.enabled == old(self)@.enabled,
                self.shape == old(self)@.shape,
                forall|k: int|
                    0 <= k < i ==> #[trigger] self@.particles[k] == retired_particles(old(self)@, source)[k],
                forall|k: int|
                    i <= k < MAX_PARTICLES ==> #[trigger] self@.particles[k] == old(self)@.particles[k],
            decreases MAX_PARTICLES - i,
        {
            let p = self.particles[i];
            let hit = match source {
                None => true,
                Some(s) => p.source == Some(s),
            };
            if p.active && hit {
                let retirement = match p.retirement {
                    Some(r) => Some(r),
                    None => Some(self.sample),
                };
                self.particles.set(i, ParticleSlot { source: None, retirement, ..p });
            }
            assert(self@.particles[i as int] == retired_particles(old(self)@, source)[i as int]);
            i = i + 1;
        }
        assert(self@.particles =~= retired_particles(old(self)@, source));
    }

    /// Called before a source slot is reused, unmapped or choked: the slot
    /// stops supplying births and every particle following it detaches and
    /// retires, so a reused slot cannot retune a retiring particle.
    pub fn retire_source(&mut self, source: usize)
        requires
            old(self)@.wf(),
            source < MAX_SOURCES,
        ensures
            final(self)@.wf(),
            final(self)@ == (PoolView {
                particles: retired_particles(old(self)@, Some(source)),
                eligible: old(self)@.eligible.update(source as int, false),
                ..old(self)@
            }),
    {
        self.eligible.set(source, false);
        self.retire_where(Some(source));
    }

    /// Detaches and retires every living particle.
    pub fn retire_all(&mut self)
        requires
            old(self)@.wf(),
        ensures
            final(self)@.wf(),
            final(self)@ == (PoolView { particles: retired_particles(old(self)@, None), ..old(self)@ }),
    {
        self.retire_where(None);
    }

    /// Which living particles follow `source`, to retune them.
    pub fn attached(&self, source: usize) -> (r: Vec<bool>)
        requires
            self@.wf(),
        ensures
            r@ == Seq::new(
                MAX_PARTICLES as nat,
                |i: int| self@.particles[i].active && self@.particles[i].source == Some(source),
            ),
    {
        let mut r: Vec<bool> = Vec::new();
        let mut i: usize = 0;
        while i < MAX_PARTICLES
            invariant
                i <= MAX_PARTICLES,
                self@.wf(),
                r@ == Seq::new(
                    i as nat,
                    |k: int| self@.particles[k].active && self@.particles[k].source == Some(source),
                ),
            decreases MAX_PARTICLES - i,
        {
            let p = self.particles[i];
            r.push(p.active && p.source == Some(source));
            i = i + 1;
            assert(r@ =~= Seq::new(
                i as nat,
                |k: int| self@.particles[k].active && self@.particles[k].source == Some(source),
            ));
        }
        r
    }

    /// Applies the enabled flag and shape of a new configuration. Switching
    /// either retires every particle. Returns whether Sprinkle was entered
    /// (its streams must realign).
    pub fn configure_mode(&mut self, enabled: bool, shape: Shape) -> (enter_sprinkle: bool)
        requires
            old(self)@.wf(),
        ensures
            final(self)@.wf(),
            enter_sprinkle == (shape == Shape::Sprinkle && (old(self)@.shape != shape || (
            !old(self)@.enabled && enabled))),
            final(self)@ == (PoolView {
                particles: if enabled != old(self)@.enabled || shape != old(self)@.shape {
                    retired_particles(old(self)@, None)
                } else {
                    old(self)@.particles
                },
                enabled,
                shape,
                ..old(self)@
            }),
    {
        let shape_changed = match (shape, self.shape) {
            (Shape::Sprinkle, Shape::Sprinkle) => false,
            (Shape::Cloud, Shape::Cloud) => false,
            _ => true,
        };
        if enabled != self.enabled || shape_changed {
            self.retire_where(None);
        }
        let enter = match shape {
            Shape::Sprinkle => shape_changed || (!self.enabled && enabled),
            Shape::Cloud => false,
        };
        self.enabled = enabled;
        self.shape = shape;
        enter
    }

    /// Whether a reserved note trigger for `source` births now: Sprinkle is
    /// enabled and the source is in range and eligible.
    pub fn accepts_trigger(&self, source: usize) -> (r: bool)
        requires
            self@.wf(),
        ensures
            r == (source < MAX_SOURCES && self@.enabled && self@.shape == Shape::Sprinkle
                && self@.eligible[source as int]),
    {
        source < MAX_SOURCES && self.enabled && match self.shape {
            Shape::Sprinkle => true,
            Shape::Cloud => false,
        } && self.eligible[source]
    }

    /// How many alternatives a free birth may choose among.
    pub fn alternatives(&self) -> (r: usize)
        requires
            self@.wf(),
        ensures
            r == self@.alternatives().len(),
    {
        let ghost all = Seq::new(MAX_SOURCES as nat, |i: int| i);
        let ghost pred = |i: int| self@.eligible[i] && self@.last_source != Some(i as usize);
        let mut count: usize = 0;
        let mut s: usize = 0;
        while s < MAX_SOURCES
            invariant
                s <= MAX_SOURCES,
                self@.wf(),
                all == Seq::new(MAX_SOURCES as nat, |i: int| i),
                pred == (|i: int| self@.eligible[i] && self@.last_source != Some(i as usize)),
                count == all.subrange(0, s as int).filter(pred).len(),
            decreases MAX_SOURCES - s,
        {
            proof {
                assert(all.subrange(0, s + 1).drop_last() =~= all.subrange(0, s as int));
                all.subrange(0, s as int).lemma_filter_len(pred);
                reveal_with_fuel(Seq::filter, 1);
            }
            if self.eligible[s] && self.last_source != Some(s) {
                count = count + 1;
            }
            s = s + 1;
        }
        assert(all.subrange(0, MAX_SOURCES as int) =~= all);
        count
    }

    /// Chooses the source of a birth: `requested` if given, else the
    /// `choice`-th alternative (the caller draws `choice` below
    /// `alternatives()`; larger values mean the last), else the first
    /// eligible source. The choice is remembered even if the birth is later
    /// dropped, so an overflow never shifts later choices.
    pub fn select_source(&mut self, requested: Option<usize>, choice: usize) -> (r: Option<usize>)
        requires
            old(self)@.wf(),
        ensures
            final(self)@.wf(),
            r == selected_source(old(self)@, requested, choice),
            final(self)@ == (PoolView { last_source: r, ..old(self)@ }),
    {
        let chosen = match requested {
            Some(s) => Some(s),
            None => {
                let n = self.alternatives();
                if n == 0 {
                    self.first_eligible()
                } else {
                    let c = if choice < n {
                        choice
                    } else {
                        n - 1
                    };
                    Some(self.nth_alternative(c))
                }
            },
        };
        self.last_source = chosen;
        chosen
    }

    fn first_eligible(&self) -> (r: Option<usize>)
        requires
            self@.wf(),
        ensures
            r == self@.first_eligible(),
    {
        let ghost all = Seq::new(MAX_SOURCES as nat, |i: int| i);
        let ghost pred = |i: int| self@.eligible[i];
        let mut s: usize = 0;
        while s < MAX_SOURCES
            invariant
                s <= MAX_SOURCES,
                self@.wf(),
                all == Seq::new(MAX_SOURCES as nat, |i: int| i),
                pred == (|i: int| self@.eligible[i]),
                all.subrange(0, s as int).filter(pred).len() == 0,
            decreases MAX_SOURCES - s,
        {
            proof {
                assert(all.subrange(0, s + 1).drop_last() =~= all.subrange(0, s as int));
                reveal_with_fuel(Seq::filter, 1);
            }
            if self.eligible[s] {
                proof {
                    lemma_filter_prefix_then(all, pred, s as int);
                    lemma_filter_prefix(all, pred, s + 1);
                }
                return Some(s);
            }
            s = s + 1;
        }
        assert(all.subrange(0, MAX_SOURCES as int) =~= all);
        None
    }

    fn nth_alternative(&self, n: usize) -> (r: usize)
        requires
            self@.wf(),
            n < self@.alternatives().len(),
        ensures
            r as int == self@.alternatives()[n as int],
            r < MAX_SOURCES,
    {
        let ghost all = Seq::new(MAX_SOURCES as nat, |i: int| i);
        let ghost pred = |i: int| self@.eligible[i] && self@.last_source != Some(i as usize);
        let mut seen: usize = 0;
        let mut s: usize = 0;
        while s < MAX_SOURCES
            invariant
                s <= MAX_SOURCES,
                self@.wf(),
                all == Seq::new(MAX_SOURCES as nat, |i: int| i),
                pred == (|i: int| self@.eligible[i] && self@.last_source != Some(i as usize)),
                n < all.filter(pred).len(),
                seen == all.subrange(0, s as int).filter(pred).len(),
                seen <= n,
            decreases MAX_SOURCES - s,
        {
            proof {
                assert(all.subrange(0, s + 1).drop_last() =~= all.subrange(0, s as int));
                reveal_with_fuel(Seq::filter, 1);
            }
            if self.eligible[s] && self.last_source != Some(s) {
                if seen == n {
                    proof {
                        lemma_filter_prefix_then(all, pred, s as int);
                        lemma_filter_prefix(all, pred, s + 1);
                    }
                    return s;
                }
                seen = seen + 1;
            }
            s = s + 1;
        }
        assert(all.subrange(0, MAX_SOURCES as int) =~= all);
        assert(false);
        0
    }

    /// Attempts a birth from `source`. Once this hop's budget is spent, or
    /// when no particle is free, the birth is dropped and counted. A birth
    /// without a source while note input is present is suppressed. A free
    /// particle takes the birth: it becomes active, follows `source`, is
    /// born now, and the birth is counted. Returns that particle.
    pub fn take_birth(&mut self, source: Option<usize>) -> (r: Option<usize>)
        requires
            old(self)@.wf(),
            old(self)@.births < u64::MAX,
            old(self)@.dropped < u64::MAX,
        ensures
            final(self)@.wf(),
            final(self)@.eligible == old(self)@.eligible,
            final(self)@.sample == old(self)@.sample,
            final(self)@.last_source == old(self)@.last_source,
            final(self)@.enabled == old(self)@.enabled,
            final(self)@.shape == old(self)@.shape,
            final(self)@.note_input_present == old(self)@.note_input_present,
            old(self)@.attempts == MAX_BIRTH_ATTEMPTS ==> r is None && final(self)@ == (PoolView {
                dropped: (old(self)@.dropped + 1) as u64,
                ..old(self)@
            }),
            old(self)@.attempts < MAX_BIRTH_ATTEMPTS ==> final(self)@.attempts == old(self)@.attempts + 1,
            old(self)@.attempts < MAX_BIRTH_ATTEMPTS && source is None && old(self)@.note_input_present
                ==> r is None && final(self)@.particles == old(self)@.particles && final(self)@.births
                == old(self)@.births && final(self)@.dropped == old(self)@.dropped,
            old(self)@.attempts < MAX_BIRTH_ATTEMPTS && !(source is None
                && old(self)@.note_input_present) ==> {
                &&& r == (match first_free(old(self)@.particles) {
                    Some(i) => Some(i as usize),
                    None => None,
                })
                &&& r is None ==> final(self)@.particles == old(self)@.particles && final(self)@.births
                    == old(self)@.births && final(self)@.dropped == old(self)@.dropped + 1
                &&& r matches Some(i) ==> final(self)@.particles == old(self)@.particles.update(
                    i as int,
                    ParticleSlot { active: true, source, birth: old(self)@.sample, retirement: None },
                ) && final(self)@.births == old(self)@.births + 1 && final(self)@.dropped
                    == old(self)@.dropped
            },
    {
        if self.attempts == MAX_BIRTH_ATTEMPTS {
            self.dropped = self.dropped + 1;
            return None;
        }
        self.attempts = self.attempts + 1;
        if source.is_none() && self.note_input_present {
            return None;
        }
        let ghost ps = self@.particles;
        let mut i: usize = 0;
        let mut found = false;
        while i < MAX_PARTICLES && !found
            invariant
                i <= MAX_PARTICLES,
                self@.wf(),
                self@.particles == ps,
                found ==> i < MAX_PARTICLES && !ps[i as int].active,
                forall|j: int| 0 <= j < i ==> ps[j].active,
            decreases MAX_PARTICLES - i + (if found { 0int } else { 1int }),
        {
            if !self.particles[i].active {
                found = true;
            } else {
                i = i + 1;
            }
        }
        proof {
            if found {
                let c = first_free(ps);
                assert(exists|k: int| 0 <= k < ps.len() && !(#[trigger] ps[k]).active);
                let w = c->Some_0;
                if w < i {
                    assert(ps[w].active);
                }
                if w > i {
                    assert(!ps[i as int].active);
                }
            } else {
                assert(!exists|k: int| 0 <= k < ps.len() && !(#[trigger] ps[k]).active);
            }
        }
        if !found {
            self.dropped = self.dropped + 1;
            return None;
        }
        self.particles.set(
            i,
            ParticleSlot { active: true, source, birth: self.sample, retirement: None },
        );
        self.births = self.births + 1;
        Some(i)
    }

    /// A birth: chooses its source as `select_source` does (the choice is
    /// remembered even if the birth is dropped), then attempts it as
    /// `take_birth` does. Returns the source and the particle that took the
    /// birth. Counted over the living particles: with budget left and a
    /// source (or no note input), a birth happens exactly when fewer than
    /// `MAX_PARTICLES` particles live, taking the first free particle, and
    /// is dropped otherwise; a spent budget drops it; a birth without a
    /// source while notes are present neither happens nor counts as
    /// dropped. No living particle is ever replaced.
    pub fn birth(&mut self, requested: Option<usize>, choice: usize) -> (r: (Option<usize>, Option<usize>))
        requires
            old(self)@.wf(),
            old(self)@.births < u64::MAX,
            old(self)@.dropped < u64::MAX,
        ensures
            final(self)@.wf(),
            r.0 == selected_source(old(self)@, requested, choice),
            final(self)@.last_source == r.0,
            final(self)@.eligible == old(self)@.eligible,
            final(self)@.sample == old(self)@.sample,
            final(self)@.enabled == old(self)@.enabled,
            final(self)@.shape == old(self)@.shape,
            final(self)@.note_input_present == old(self)@.note_input_present,
            old(self)@.attempts == MAX_BIRTH_ATTEMPTS ==> r.1 is None && final(self)@.attempts
                == old(self)@.attempts && final(self)@.particles == old(self)@.particles
                && final(self)@.births == old(self)@.births && final(self)@.dropped == old(self)@.dropped
                + 1,
            old(self)@.attempts < MAX_BIRTH_ATTEMPTS ==> final(self)@.attempts == old(self)@.attempts + 1,
            old(self)@.attempts < MAX_BIRTH_ATTEMPTS && r.0 is None && old(self)@.note_input_present
                ==> r.1 is None && final(self)@.particles == old(self)@.particles && final(self)@.births
                == old(self)@.births && final(self)@.dropped == old(self)@.dropped,
            old(self)@.attempts < MAX_BIRTH_ATTEMPTS && !(r.0 is None && old(self)@.note_input_present)
                && old(self)@.active_count() < MAX_PARTICLES ==> {
                &&& r.1 == (match first_free(old(self)@.particles) {
                    Some(i) => Some(i as usize),
                    None => None,
                })
                &&& r.1 matches Some(i) && i < MAX_PARTICLES && !old(self)@.particles[i as int].active
                    && final(self)@.particles == old(self)@.particles.update(
                    i as int,
                    ParticleSlot { active: true, source: r.0, birth: old(self)@.sample, retirement: None },
                )
                &&& final(self)@.births == old(self)@.births + 1
                &&& final(self)@.dropped == old(self)@.dropped
            },
            old(self)@.attempts < MAX_BIRTH_ATTEMPTS && !(r.0 is None && old(self)@.note_input_present)
                && old(self)@.active_count() >= MAX_PARTICLES ==> r.1 is None && final(self)@.particles
                == old(self)@.particles && final(self)@.births == old(self)@.births
                && final(self)@.dropped == old(self)@.dropped + 1,
            forall|i: int|
                0 <= i < MAX_PARTICLES && (#[trigger] old(self)@.particles[i]).active
                    ==> final(self)@.particles[i] == old(self)@.particles[i],
    {
        let source = self.select_source(requested, choice);
        proof {
            lemma_full_iff_all_active(self@.particles);
            lemma_birth_takes_a_free_particle(self@.particles);
        }
        let particle = self.take_birth(source);
        (source, particle)
    }

    /// One sample passes.
    pub fn tick(&mut self)
        requires
            old(self)@.wf(),
            old(self)@.sample < u64::MAX,
        ensures
            final(self)@.wf(),
            final(self)@ == (PoolView { sample: (old(self)@.sample + 1) as u64, ..old(self)@ }),
    {
        self.sample = self.sample + 1;
    }

    /// Frees a particle whose life or retirement has ended.
    pub fn expire(&mut self, index: usize)
        requires
            old(self)@.wf(),
            index < MAX_PARTICLES,
        ensures
            final(self)@.wf(),
            final(self)@ == (PoolView {
                particles: old(self)@.particles.update(index as int, idle_slot()),
                ..old(self)@
            }),
    {
        self.particles.set(index, idle());
    }

    /// Renews the birth budget at a spectral frame.
    pub fn renew_budget(&mut self)
        requires
            old(self)@.wf(),
        ensures
            final(self)@.wf(),
            final(self)@ == (PoolView { attempts: 0, ..old(self)@ }),
    {
        self.attempts = 0;
    }
}

proof fn lemma_filter_prefix(all: Seq<int>, pred: spec_fn(int) -> bool, t: int)
    requires
        0 <= t <= all.len(),
    ensures
        all.subrange(0, t).filter(pred).len() <= all.filter(pred).len(),
        forall|k: int|
            0 <= k < all.subrange(0, t).filter(pred).len() ==> all.filter(pred)[k] == all.subrange(
                0,
                t,
            ).filter(pred)[k],
    decreases all.len() - t,
{
    if t < all.len() {
        lemma_filter_prefix(all, pred, t + 1);
        assert(all.subrange(0, t + 1).drop_last() =~= all.subrange(0, t));
        reveal_with_fuel(Seq::filter, 1);
    } else {
        assert(all.subrange(0, t) =~= all);
    }
}

proof fn lemma_filter_prefix_then(all: Seq<int>, pred: spec_fn(int) -> bool, s: int)
    requires
        0 <= s < all.len(),
        pred(all[s]),
    ensures
        all.subrange(0, s + 1).filter(pred) == all.subrange(0, s).filter(pred).push(all[s]),
{
    assert(all.subrange(0, s + 1).drop_last() =~= all.subrange(0, s));
    reveal_with_fuel(Seq::filter, 1);
}

/// The pool is full exactly when every particle lives.
proof fn lemma_full_iff_all_active(ps: Seq<ParticleSlot>)
    ensures
        ps.filter(|p: ParticleSlot| p.active).len() <= ps.len(),
        (ps.filter(|p: ParticleSlot| p.active).len() == ps.len()) <==> (forall|i: int|
            0 <= i < ps.len() ==> (#[trigger] ps[i]).active),
    decreases ps.len(),
{
    reveal_with_fuel(Seq::filter, 1);
    if ps.len() > 0 {
        let rest = ps.drop_last();
        lemma_full_iff_all_active(rest);
        assert forall|i: int| 0 <= i < rest.len() implies rest[i] == ps[i] by {}
        if forall|i: int| 0 <= i < ps.len() ==> (#[trigger] ps[i]).active {
            assert forall|i: int| 0 <= i < rest.len() implies (#[trigger] rest[i]).active by {
                assert(rest[i] == ps[i]);
            }
            assert(ps[ps.len() - 1].active);
        }
        if !ps.last().active {
            assert(!ps[ps.len() - 1].active);
        }
    }
}

/// A birth never steals: the particle it takes was free, and it exists
/// exactly when some particle is free.
pub proof fn lemma_birth_takes_a_free_particle(particles: Seq<ParticleSlot>)
    ensures
        first_free(particles) matches Some(i) ==> 0 <= i < particles.len() && !particles[i].active,
        first_free(particles) is None <==> forall|i: int|
            0 <= i < particles.len() ==> (#[trigger] particles[i]).active,
{
    if exists|i: int| 0 <= i < particles.len() && !(#[trigger] particles[i]).active {
        let w = choose|i: int| 0 <= i < particles.len() && !(#[trigger] particles[i]).active;
        lemma_first_free_exists(particles, w);
    }
}

proof fn lemma_first_free_exists(particles: Seq<ParticleSlot>, w: int)
    requires
        0 <= w < particles.len(),
        !particles[w].active,
    ensures
        exists|i: int|
            0 <= i < particles.len() && !(#[trigger] particles[i]).active && forall|j: int|
                0 <= j < i ==> particles[j].active,
    decreases w,
{
    if exists|j: int| 0 <= j < w && !particles[j].active {
        let j = choose|j: int| 0 <= j < w && !particles[j].active;
        lemma_first_free_exists(particles, j);
    } else {
        assert(!particles[w].active);
    }
}

/// Retiring a source leaves no living particle following it; every living
/// particle keeps living and has its retirement started no later than now.
pub proof fn lemma_retired_source_is_detached(v: PoolView, source: usize)
    requires
        v.wf(),
    ensures
        forall|i: int|
            0 <= i < MAX_PARTICLES ==> {
                let p = #[trigger] retired_particles(v, Some(source))[i];
                &&& p.active == v.particles[i].active
                &&& p.birth == v.particles[i].birth
                &&& !(p.active && p.source == Some(source))
                &&& (v.particles[i].active && v.particles[i].source == Some(source)) ==> (
                p.retirement matches Some(r) && r <= v.sample)
            },
{
}

/// A free birth avoids the source of the previous birth whenever another
/// eligible source exists, and always takes an eligible source; with no
/// eligible source it has none.
pub proof fn lemma_free_births_alternate_sources(v: PoolView, choice: usize)
    requires
        v.wf(),
    ensures
        v.alternatives().len() > 0 ==> ({
            let s = selected_source(v, None, choice)->Some_0;
            &&& selected_source(v, None, choice) is Some
            &&& s < MAX_SOURCES
            &&& v.eligible[s as int]
            &&& v.last_source != Some(s)
        }),
        v.alternatives().len() == 0 ==> (selected_source(v, None, choice) matches Some(s) ==> s
            < MAX_SOURCES && v.eligible[s as int]),
{
    let all = Seq::new(MAX_SOURCES as nat, |i: int| i);
    let pred = |i: int| v.eligible[i] && v.last_source != Some(i as usize);
    let alts = v.alternatives();
    assert(alts == all.filter(pred));
    if alts.len() > 0 {
        let c: int = if choice < alts.len() { choice as int } else { alts.len() - 1 };
        all.lemma_filter_pred(pred, c);
        lemma_filter_members_in_range(all, pred, c);
    } else {
        let e = all.filter(|i: int| v.eligible[i]);
        if e.len() > 0 {
            all.lemma_filter_pred(|i: int| v.eligible[i], 0);
            lemma_filter_members_in_range(all, |i: int| v.eligible[i], 0);
        }
    }
}

proof fn lemma_filter_members_in_range(all: Seq<int>, pred: spec_fn(int) -> bool, k: int)
    requires
        all == Seq::new(MAX_SOURCES as nat, |i: int| i),
        0 <= k < all.filter(pred).len(),
    ensures
        0 <= all.filter(pred)[k] < MAX_SOURCES,
{
    let x = all.filter(pred)[k];
    assert(all.filter(pred).contains(x));
    all.lemma_filter_contains_rev(pred, x);
    let j = choose|j: int| 0 <= j < all.len() && all[j] == x;
    assert(all[j] == j);
}

/// Which source a birth uses depends only on which sources are eligible
/// and which supplied the last birth, never on which particles live or how
/// much of the budget is spent, and a dropped birth still records its
/// choice: an overflow cannot change the sequence of sources that follows.
pub proof fn lemma_selection_ignores_occupancy(
    v1: PoolView,
    v2: PoolView,
    requested: Option<usize>,
    choice: usize,
)
    requires
        v1.eligible == v2.eligible,
        v1.last_source == v2.last_source,
    ensures
        selected_source(v1, requested, choice) == selected_source(v2, requested, choice),
{
    assert(v1.alternatives() =~= v2.alternatives());
    assert(Seq::new(MAX_SOURCES as nat, |i: int| i).filter(|i: int| v1.eligible[i]) =~= Seq::new(
        MAX_SOURCES as nat,
        |i: int| i,
    ).filter(|i: int| v2.eligible[i]));
}

} // verus!
