//! What the audio thread shows the editor: meter and note values, the
//! analyzer spectrum, the particle windows and the capture preview. Values
//! travel as the bits of their `f32` values in atomics. The particle
//! windows and the capture preview are published under a counter that is
//! odd while a publication is under way; a reader accepts a copy only if no
//! publication overlapped it and otherwise keeps what it had. Nobody waits.
//! A load returns whatever some thread stored last, so no contract here
//! states the value read, nor whether a read finds a coherent copy.
use std::sync::atomic::{AtomicU32, Ordering};
use vstd::prelude::*;
use crate::capture::{next_epoch, next_epoch_spec};
use crate::pinned::MIDI_NOTES;
use crate::tuning::seqlock_stable;

verus! {

/// Points of the analyzer curve.
pub const ANALYZER_POINTS: usize = 256;
/// Particle gains: one per bin of the largest FFT.
pub const PARTICLE_BINS: usize = 8193;
/// Published particle words: the gains, then their count, the bin width and
/// whether particles are active.
pub const PARTICLE_WORDS: usize = 8196;
/// The bits of `0.5_f32`, the resting timbre.
pub const HALF_BITS: u32 = 0x3F00_0000;
/// The bits of `1.0_f32`, an open particle gain.
pub const ONE_BITS: u32 = 0x3F80_0000;
/// The bits of `-144.0_f32`, the muted level of the analyzer.
pub const MUTE_DB_BITS: u32 = 0xC310_0000;
/// The bits of `48000.0_f32`, the sample rate before the host reports one.
pub const DEFAULT_SAMPLE_RATE_BITS: u32 = 0x473B_8000;
/// The bits of `120.0_f32`, the tempo before the host reports one.
pub const DEFAULT_TEMPO_BITS: u32 = 0x42F0_0000;

/// Whether the `f32` with these bits is greater than zero: the sign bit is
/// clear and the value is neither zero nor NaN (positive infinity counts).
pub open spec fn positive_f32_bits(bits: u32) -> bool {
    0 < bits <= 0x7F80_0000
}

/// Whether the `f32` with these bits is greater than zero.
pub fn is_positive_f32_bits(bits: u32) -> (r: bool)
    ensures
        r == positive_f32_bits(bits),
{
    0 < bits && bits <= 0x7F80_0000
}

/// Whether a reader accepts a copy of a capture: the sequence was even
/// before the copy and unchanged after it, the published capture is the
/// one asked for, and its duration is positive.
pub open spec fn capture_accepted_spec(before: u32, after: u32, published: u32, epoch: u32, seconds: u32) -> bool {
    before % 2 == 0 && before == after && published == epoch && positive_f32_bits(seconds)
}

/// Whether a reader accepts a copy of capture `epoch`, given the sequence
/// before and after the copy, the epoch that was published and the
/// duration's bits.
pub fn capture_accepted(before: u32, after: u32, published: u32, epoch: u32, seconds: u32) -> (r: bool)
    ensures
        r == capture_accepted_spec(before, after, published, epoch, seconds),
{
    seqlock_stable(before, after) && published == epoch && is_positive_f32_bits(seconds)
}

/// The capture request and the last published capture.
pub struct CaptureDisplay {
    request: AtomicU32,
    epoch: AtomicU32,
    sequence: AtomicU32,
    published_epoch: AtomicU32,
    power: Vec<AtomicU32>,
    seconds: AtomicU32,
}

impl CaptureDisplay {
    /// Room for every analyzer point.
    pub closed spec fn wf(&self) -> bool {
        self.power@.len() == ANALYZER_POINTS
    }

    /// No capture requested, nothing published.
    pub fn new() -> (r: Self)
        ensures
            r.wf(),
    {
        let mut power: Vec<AtomicU32> = Vec::new();
        let mut i: usize = 0;
        while i < ANALYZER_POINTS
            invariant
                i <= ANALYZER_POINTS,
                power@.len() == i,
            decreases ANALYZER_POINTS - i,
        {
            power.push(AtomicU32::new(0));
            i = i + 1;
        }
        CaptureDisplay {
            request: AtomicU32::new(0),
            epoch: AtomicU32::new(0),
            sequence: AtomicU32::new(0),
            published_epoch: AtomicU32::new(0),
            power,
            seconds: AtomicU32::new(0),
        }
    }

    /// Requests a new capture and returns its epoch: the epoch after the
    /// last one handed out, never 0 (which means "stopped"). Which epoch
    /// that is depends on every earlier call, from any thread.
    pub fn begin(&self) -> (r: u32)
        ensures
            r != 0,
            exists|previous: u32| r == next_epoch_spec(previous),
    {
        let previous = self.epoch.fetch_add(1, Ordering::SeqCst);
        let epoch = next_epoch(previous);
        self.request.store(epoch, Ordering::SeqCst);
        epoch
    }

    /// Withdraws the capture request; what was published stays readable.
    pub fn stop(&self) {
        self.request.store(0, Ordering::SeqCst);
    }

    /// The epoch of the requested capture, 0 when none is requested. It is
    /// whatever the editor stored last.
    pub fn requested(&self) -> u32 {
        self.request.load(Ordering::SeqCst)
    }

    /// Publishes the levels of the capture `epoch` and its duration, as
    /// `f32` bits. The sequence is odd while the words are written.
    pub fn publish(&self, epoch: u32, power: &[u32], seconds: u32)
        requires
            self.wf(),
            power@.len() == ANALYZER_POINTS,
    {
        self.sequence.fetch_add(1, Ordering::SeqCst);
        let mut i: usize = 0;
        while i < ANALYZER_POINTS
            invariant
                i <= ANALYZER_POINTS,
                self.wf(),
                power@.len() == ANALYZER_POINTS,
            decreases ANALYZER_POINTS - i,
        {
            self.power[i].store(power[i], Ordering::SeqCst);
            i = i + 1;
        }
        self.published_epoch.store(epoch, Ordering::SeqCst);
        self.seconds.store(seconds, Ordering::SeqCst);
        self.sequence.fetch_add(1, Ordering::SeqCst);
    }

    /// The published levels and duration of capture `epoch`, as `f32` bits.
    /// At most two attempts, never waiting: an attempt counts only if
    /// `capture_accepted` accepts what it read (no publication under way or
    /// happening meanwhile, the capture is `epoch`, its duration positive).
    /// Otherwise `None`, and the editor keeps its previous preview. What the
    /// words hold depends on the audio thread, so only what every accepted
    /// copy shows is stated.
    pub fn read(&self, epoch: u32) -> (r: Option<(Vec<u32>, u32)>)
        requires
            self.wf(),
        ensures
            r matches Some((power, seconds)) ==> power@.len() == ANALYZER_POINTS
                && positive_f32_bits(seconds),
    {
        let mut attempt: usize = 0;
        while attempt < 2
            invariant
                self.wf(),
            decreases 2 - attempt,
        {
            let before = self.sequence.load(Ordering::SeqCst);
            if before % 2 == 0 {
                let published = self.published_epoch.load(Ordering::SeqCst);
                let mut power: Vec<u32> = Vec::new();
                let mut i: usize = 0;
                while i < ANALYZER_POINTS
                    invariant
                        i <= ANALYZER_POINTS,
                        self.wf(),
                        power@.len() == i,
                    decreases ANALYZER_POINTS - i,
                {
                    power.push(self.power[i].load(Ordering::SeqCst));
                    i = i + 1;
                }
                let seconds = self.seconds.load(Ordering::SeqCst);
                let after = self.sequence.load(Ordering::SeqCst);
                if capture_accepted(before, after, published, epoch, seconds) {
                    return Some((power, seconds));
                }
            }
            attempt = attempt + 1;
        }
        None
    }
}

/// A table of `len` atomics holding `value`.
fn filled(len: usize, value: u32) -> (r: Vec<AtomicU32>)
    ensures
        r@.len() == len,
{
    let mut r: Vec<AtomicU32> = Vec::new();
    let mut i: usize = 0;
    while i < len
        invariant
            i <= len,
            r@.len() == i,
        decreases len - i,
    {
        r.push(AtomicU32::new(value));
        i = i + 1;
    }
    r
}

/// Stores `value` in every atomic of `words`.
fn store_each(words: &Vec<AtomicU32>, value: u32) {
    let mut i: usize = 0;
    while i < words.len()
        invariant
            i <= words@.len(),
        decreases words@.len() - i,
    {
        words[i].store(value, Ordering::Release);
        i = i + 1;
    }
}

/// Stores `values` one for one in `words`.
fn store_all(words: &Vec<AtomicU32>, values: &[u32])
    requires
        values@.len() == words@.len(),
{
    let mut i: usize = 0;
    while i < words.len()
        invariant
            i <= words@.len(),
            values@.len() == words@.len(),
        decreases words@.len() - i,
    {
        words[i].store(values[i], Ordering::Release);
        i = i + 1;
    }
}

/// A gain count as a published word, truncated to 32 bits.
fn count_word(len: usize) -> (r: u32)
    ensures
        r == len as u32,
{
    len as u32
}

/// The bins of a published count: as many as were published, at most
/// `PARTICLE_BINS`.
fn bins_of(word: u32) -> (r: usize)
    ensures
        r == (if word < PARTICLE_BINS { word as usize } else { PARTICLE_BINS }),
{
    if word < PARTICLE_BINS as u32 {
        word as usize
    } else {
        PARTICLE_BINS
    }
}

/// The particle windows as the editor last saw them: the gains of the
/// first `bins` bins, the bin width and whether particles are active.
pub struct ParticleObservation {
    pub gains: Vec<u32>,
    pub bins: usize,
    pub bin_hz: u32,
    pub active: bool,
}

impl ParticleObservation {
    /// Nothing observed: every gain open, no bins, a bin width of 1 Hz.
    pub fn new() -> (r: Self)
        ensures
            r.gains@ == Seq::new(PARTICLE_BINS as nat, |i: int| ONE_BITS),
            r.bins == 0,
            r.bin_hz == ONE_BITS,
            !r.active,
    {
        let mut gains: Vec<u32> = Vec::new();
        let mut i: usize = 0;
        while i < PARTICLE_BINS
            invariant
                i <= PARTICLE_BINS,
                gains@ == Seq::new(i as nat, |k: int| ONE_BITS),
            decreases PARTICLE_BINS - i,
        {
            gains.push(ONE_BITS);
            i = i + 1;
            assert(gains@ =~= Seq::new(i as nat, |k: int| ONE_BITS));
        }
        ParticleObservation { gains, bins: 0, bin_hz: ONE_BITS, active: false }
    }
}

/// A particle frame as plain values.
pub struct ParticleFrameView {
    pub gains: Seq<u32>,
    pub bins: usize,
    pub bin_hz: u32,
    pub active: bool,
}

impl View for ParticleObservation {
    type V = ParticleFrameView;

    open spec fn view(&self) -> ParticleFrameView {
        ParticleFrameView { gains: self.gains@, bins: self.bins, bin_hz: self.bin_hz, active: self.active }
    }
}

/// The bins of a published count: as many as were published, at most
/// `PARTICLE_BINS`.
pub open spec fn frame_bins(count: u32) -> usize {
    if count < PARTICLE_BINS {
        count as usize
    } else {
        PARTICLE_BINS
    }
}

/// The frame read from published words: as many bins as the count says,
/// at most `PARTICLE_BINS`, with the published gains and every gain beyond
/// them open; the published bin width; active when its word is not zero.
pub open spec fn particle_frame_spec(count: u32, bin_hz: u32, active: u32, words: Seq<u32>) -> ParticleFrameView {
    ParticleFrameView {
        gains: Seq::new(
            PARTICLE_BINS as nat,
            |i: int|
                if i < frame_bins(count) {
                    words[i]
                } else {
                    ONE_BITS
                },
        ),
        bins: frame_bins(count),
        bin_hz,
        active: active != 0,
    }
}

/// Builds the frame that a reader accepts from the words it read: the
/// count, the bin width, the active word, and the gains (at least as many
/// as the count's bins).
pub fn particle_frame(count: u32, bin_hz: u32, active: u32, words: &[u32]) -> (r: ParticleObservation)
    requires
        words@.len() >= frame_bins(count),
    ensures
        r@ == particle_frame_spec(count, bin_hz, active, words@),
{
    let bins = bins_of(count);
    let mut gains: Vec<u32> = Vec::new();
    let mut i: usize = 0;
    while i < PARTICLE_BINS
        invariant
            i <= PARTICLE_BINS,
            bins == frame_bins(count),
            words@.len() >= bins,
            gains@ == particle_frame_spec(count, bin_hz, active, words@).gains.take(i as int),
        decreases PARTICLE_BINS - i,
    {
        if i < bins {
            gains.push(words[i]);
        } else {
            gains.push(ONE_BITS);
        }
        i = i + 1;
        assert(gains@ =~= particle_frame_spec(count, bin_hz, active, words@).gains.take(i as int));
    }
    assert(gains@ =~= particle_frame_spec(count, bin_hz, active, words@).gains);
    ParticleObservation { gains, bins, bin_hz, active: active != 0 }
}

/// Display data from the audio thread.
pub struct AnalysisDisplay {
    pub capture: CaptureDisplay,
    output_peak: AtomicU32,
    note_levels: Vec<AtomicU32>,
    note_tunings: Vec<AtomicU32>,
    note_timbres: Vec<AtomicU32>,
    spectrum_db: Vec<AtomicU32>,
    sample_rate: AtomicU32,
    tempo_bpm: AtomicU32,
    motion_phase: AtomicU32,
    pub particle_generation: AtomicU32,
    pub particle_words: Vec<AtomicU32>,
}

impl AnalysisDisplay {
    /// Table sizes.
    pub closed spec fn wf(&self) -> bool {
        &&& self.capture.wf()
        &&& self.particle_words@.len() == PARTICLE_WORDS
        &&& self.note_levels@.len() == MIDI_NOTES
        &&& self.note_tunings@.len() == MIDI_NOTES
        &&& self.note_timbres@.len() == MIDI_NOTES
        &&& self.spectrum_db@.len() == ANALYZER_POINTS
    }

    /// Silent notes at rest, a muted spectrum, no particles, 48 kHz and
    /// 120 BPM until the host says otherwise.
    pub fn new() -> (r: Self)
        ensures
            r.wf(),
    {
        AnalysisDisplay {
            capture: CaptureDisplay::new(),
            output_peak: AtomicU32::new(0),
            note_levels: filled(MIDI_NOTES, 0),
            note_tunings: filled(MIDI_NOTES, 0),
            note_timbres: filled(MIDI_NOTES, HALF_BITS),
            spectrum_db: filled(ANALYZER_POINTS, MUTE_DB_BITS),
            sample_rate: AtomicU32::new(DEFAULT_SAMPLE_RATE_BITS),
            tempo_bpm: AtomicU32::new(DEFAULT_TEMPO_BITS),
            motion_phase: AtomicU32::new(0),
            particle_generation: AtomicU32::new(0),
            particle_words: filled(PARTICLE_WORDS, 0),
        }
    }

    /// Raises the held output peak to `peak` if that is higher. For the
    /// non-negative peaks that the audio thread reports, a larger value has
    /// larger bits.
    pub fn store_output_peak(&self, peak: u32) {
        self.output_peak.fetch_max(peak, Ordering::Relaxed);
    }

    /// The held output peak, which is reset to zero.
    pub fn take_output_peak(&self) -> u32 {
        self.output_peak.swap(0, Ordering::Relaxed)
    }

    /// Reports the sample rate.
    pub fn set_sample_rate(&self, sample_rate: u32) {
        self.sample_rate.store(sample_rate, Ordering::Release);
    }

    /// Reports the tempo.
    pub fn store_tempo(&self, tempo_bpm: u32) {
        self.tempo_bpm.store(tempo_bpm, Ordering::Release);
    }

    /// The last reported tempo.
    pub fn tempo(&self) -> u32 {
        self.tempo_bpm.load(Ordering::Acquire)
    }

    /// Reports the level, tuning and timbre of every MIDI note.
    pub fn store_notes(&self, levels: &[u32], tunings: &[u32], timbres: &[u32])
        requires
            self.wf(),
            levels@.len() == MIDI_NOTES,
            tunings@.len() == MIDI_NOTES,
            timbres@.len() == MIDI_NOTES,
    {
        store_all(&self.note_levels, levels);
        store_all(&self.note_tunings, tunings);
        store_all(&self.note_timbres, timbres);
    }

    /// Reports the analyzer spectrum.
    pub fn store_spectrum(&self, spectrum_db: &[u32])
        requires
            self.wf(),
            spectrum_db@.len() == ANALYZER_POINTS,
    {
        store_all(&self.spectrum_db, spectrum_db);
    }

    /// Reports the motion phase.
    pub fn store_motion_phase(&self, phase: u32) {
        self.motion_phase.store(phase, Ordering::Release);
    }

    /// Publishes the particle gains (as many as fit), their count, the bin
    /// width and whether particles are active. The generation is odd while
    /// the words are written; the writer never waits.
    pub fn store_particles(&self, gains: &[u32], bin_hz: u32, active: bool)
        requires
            self.wf(),
    {
        self.particle_generation.fetch_add(1, Ordering::SeqCst);
        let count = if gains.len() < PARTICLE_WORDS {
            gains.len()
        } else {
            PARTICLE_WORDS
        };
        let mut i: usize = 0;
        while i < count
            invariant
                i <= count,
                count <= gains@.len(),
                count <= PARTICLE_WORDS,
                self.wf(),
            decreases count - i,
        {
            self.particle_words[i].store(gains[i], Ordering::SeqCst);
            i = i + 1;
        }
        self.particle_words[PARTICLE_BINS].store(count_word(gains.len()), Ordering::SeqCst);
        self.particle_words[PARTICLE_BINS + 1].store(bin_hz, Ordering::SeqCst);
        self.particle_words[PARTICLE_BINS + 2].store(if active { 1 } else { 0 }, Ordering::SeqCst);
        self.particle_generation.fetch_add(1, Ordering::SeqCst);
    }

    /// Clears every display value: silent notes at rest, a muted spectrum,
    /// no peak, phase zero, and no particles (a bin width of 1 Hz).
    pub fn clear(&self)
        requires
            self.wf(),
    {
        self.output_peak.store(0, Ordering::Relaxed);
        store_each(&self.note_levels, 0);
        store_each(&self.note_tunings, 0);
        store_each(&self.note_timbres, HALF_BITS);
        store_each(&self.spectrum_db, MUTE_DB_BITS);
        self.motion_phase.store(0, Ordering::Release);
        let none: [u32; 0] = [];
        self.store_particles(&none, ONE_BITS, false);
    }

    /// The reported level of a MIDI note.
    pub fn note_level(&self, note: usize) -> u32
        requires
            self.wf(),
            note < MIDI_NOTES,
    {
        self.note_levels[note].load(Ordering::Acquire)
    }

    /// The reported tuning of a MIDI note.
    pub fn note_tuning(&self, note: usize) -> u32
        requires
            self.wf(),
            note < MIDI_NOTES,
    {
        self.note_tunings[note].load(Ordering::Acquire)
    }

    /// The reported timbre of a MIDI note.
    pub fn note_timbre(&self, note: usize) -> u32
        requires
            self.wf(),
            note < MIDI_NOTES,
    {
        self.note_timbres[note].load(Ordering::Acquire)
    }

    /// The reported level of an analyzer point.
    pub fn spectrum_level(&self, index: usize) -> u32
        requires
            self.wf(),
            index < ANALYZER_POINTS,
    {
        self.spectrum_db[index].load(Ordering::Acquire)
    }

    /// The reported sample rate.
    pub fn sample_rate(&self) -> u32 {
        self.sample_rate.load(Ordering::Acquire)
    }

    /// The reported motion phase.
    pub fn motion_phase(&self) -> u32 {
        self.motion_phase.load(Ordering::Acquire)
    }

    /// Reads the published particle windows into `output`, unless a
    /// publication was under way or happened during the read: then `output`
    /// keeps the previous frame. An accepted frame is the one that
    /// `particle_frame` builds from the words read. What the words hold
    /// depends on the audio thread.
    pub fn read_particles(&self, output: &mut ParticleObservation)
        requires
            self.wf(),
        ensures
            final(output)@ == old(output)@ || exists|count: u32, bin_hz: u32, active: u32, words: Seq<u32>|
                words.len() >= frame_bins(count) && final(output)@ == #[trigger] particle_frame_spec(
                    count,
                    bin_hz,
                    active,
                    words,
                ),
    {
        let first = self.particle_generation.load(Ordering::SeqCst);
        if first % 2 != 0 {
            return;
        }
        let count = self.particle_words[PARTICLE_BINS].load(Ordering::SeqCst);
        let bins = bins_of(count);
        let bin_hz = self.particle_words[PARTICLE_BINS + 1].load(Ordering::SeqCst);
        let active = self.particle_words[PARTICLE_BINS + 2].load(Ordering::SeqCst);
        let mut words: Vec<u32> = Vec::new();
        let mut i: usize = 0;
        while i < bins
            invariant
                i <= bins,
                bins <= PARTICLE_BINS,
                self.wf(),
                words@.len() == i,
            decreases bins - i,
        {
            words.push(self.particle_words[i].load(Ordering::SeqCst));
            i = i + 1;
        }
        let second = self.particle_generation.load(Ordering::SeqCst);
        if seqlock_stable(first, second) {
            *output = particle_frame(count, bin_hz, active, words.as_slice());
        }
    }
}

} // verus!
