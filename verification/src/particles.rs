//! The integer decisions of the particle engine: its keyed SplitMix64
//! streams, the key spaces of scheduled Sprinkle streams and of note
//! triggers, how many starts a Sprinkle group has, how many partials a
//! Sprinkle gesture opens, and the note-trigger counter. Every draw is a
//! 24-bit integer; dividing it by 2^24 gives the uniform value in [0, 1).
use vstd::prelude::*;
use vstd::wrapping::u64_specs::wrapping_mul;

verus! {

/// Particle windows that can sound at once.
pub const MAX_PARTICLES: usize = 64;
/// Harmonic windows per Sprinkle gesture.
pub const WINDOWS_PER_PARTICLE: usize = 3;
/// Independent Sprinkle streams.
pub const SPRINKLE_STREAMS: usize = 3;
/// The base seed of every stream.
pub const SEED: u64 = 0x7765_6674_7061_7274;
/// Resolution of a draw: 2^24 values.
pub const DRAW_SCALE: u32 = 16777216;

/// The SplitMix64 finalizer.
pub open spec fn mix_spec(x: u64) -> u64 {
    let a = x ^ (x >> 30u64);
    let b = wrapping_mul(a, 0xbf58_476d_1ce4_e5b9u64);
    let c = b ^ (b >> 27u64);
    let d = wrapping_mul(c, 0x94d0_49bb_1331_11ebu64);
    d ^ (d >> 31u64)
}

/// The 24-bit draw of stream `stream` at key `index`.
pub open spec fn draw_spec(index: u64, stream: u64) -> u32 {
    (mix_spec(
        (SEED ^ wrapping_mul(index, 0x9e37_79b9_7f4a_7c15u64)) ^ wrapping_mul(
            stream,
            0xd1b5_4a32_d192_ed03u64,
        ),
    ) >> 40u64) as u32
}

/// The key of the `index`-th opportunity of Sprinkle stream `lane`: bit 62
/// set, the lane in bits 59 to 61, the index below.
pub open spec fn sprinkle_key_spec(lane: u64, index: u64) -> u64 {
    ((1u64 << 62u64) | (lane << 59u64)) | index
}

/// The key of an immediate note trigger: its reservation index with bit 63
/// set.
pub open spec fn trigger_key_spec(index: u64) -> u64 {
    index ^ (1u64 << 63u64)
}

/// How many of a group's two opportunities start a gesture: a draw below
/// 1/4 gives none, below 3/4 one, else two.
pub open spec fn group_starts(draw: u32) -> u64 {
    if draw < 4194304 {
        0
    } else if draw < 12582912 {
        1
    } else {
        2
    }
}

/// How many partials a Sprinkle gesture opens: a draw below the `f32`
/// value 0.80 gives one, below the `f32` value 0.97 two, else three.
pub open spec fn partial_count_of(draw: u32) -> usize {
    if draw < 13421773 {
        1
    } else if draw < 16273900 {
        2
    } else {
        3
    }
}

/// The SplitMix64 finalizer.
pub fn mix(x: u64) -> (r: u64)
    ensures
        r == mix_spec(x),
{
    let a = x ^ (x >> 30u64);
    let b = a.wrapping_mul(0xbf58_476d_1ce4_e5b9);
    let c = b ^ (b >> 27u64);
    let d = c.wrapping_mul(0x94d0_49bb_1331_11eb);
    d ^ (d >> 31u64)
}

proof fn lemma_shift_40_bound(x: u64)
    by (bit_vector)
    ensures
        x >> 40u64 < 16777216u64,
{
}

/// The 24-bit draw of stream `stream` at key `index`.
pub fn draw(index: u64, stream: u64) -> (r: u32)
    ensures
        r == draw_spec(index, stream),
        r < DRAW_SCALE,
{
    let key = (SEED ^ index.wrapping_mul(0x9e37_79b9_7f4a_7c15)) ^ stream.wrapping_mul(
        0xd1b5_4a32_d192_ed03,
    );
    let m = mix(key);
    proof {
        lemma_shift_40_bound(m);
    }
    (m >> 40u64) as u32
}

/// The key of the `index`-th opportunity of Sprinkle stream `lane`.
pub fn sprinkle_key(lane: usize, index: u64) -> (r: u64)
    ensures
        r == sprinkle_key_spec(lane as u64, index),
{
    ((1u64 << 62u64) | ((lane as u64) << 59u64)) | index
}

/// The key of an immediate note trigger with reservation `index`.
pub fn trigger_key(index: u64) -> (r: u64)
    ensures
        r == trigger_key_spec(index),
{
    index ^ (1u64 << 63u64)
}

/// Whether the `index`-th opportunity of Sprinkle stream `lane` starts a
/// gesture. Opportunities come in groups of two that share one draw; the
/// group's count says how many of the two start.
pub fn sprinkle_emits(lane: usize, index: u64) -> (r: bool)
    ensures
        r == ((index % 2) < group_starts(draw_spec(sprinkle_key_spec(lane as u64, ((index / 2) * 2) as u64), 5))),
{
    let group = index / 2;
    let key = sprinkle_key(lane, group * 2);
    let d = draw(key, 5);
    let count: u64 = if d < 4194304 {
        0
    } else if d < 12582912 {
        1
    } else {
        2
    };
    index % 2 < count
}

/// How many partial windows (one to three) the gesture with key `index`
/// opens.
pub fn partial_count(index: u64) -> (r: usize)
    ensures
        r == partial_count_of(draw_spec(index, 12)),
        1 <= r <= WINDOWS_PER_PARTICLE,
{
    let d = draw(index, 12);
    if d < 13421773 {
        1
    } else if d < 16273900 {
        2
    } else {
        3
    }
}

/// Hands out note-trigger reservations in arrival order, wrapping after
/// 2^64.
pub struct TriggerCounter {
    next: u64,
}

impl TriggerCounter {
    /// The next reservation index.
    pub closed spec fn next_index(&self) -> u64 {
        self.next
    }

    /// Starts at reservation 0.
    pub fn new() -> (r: Self)
        ensures
            r.next_index() == 0,
    {
        TriggerCounter { next: 0 }
    }

    /// Reserves the next index, even if the note is later discarded, so
    /// that later notes keep their variation streams.
    pub fn reserve_trigger(&mut self) -> (r: u64)
        ensures
            r == old(self).next_index(),
            final(self).next_index() == vstd::wrapping::u64_specs::wrapping_add(r, 1),
    {
        let index = self.next;
        self.next = self.next.wrapping_add(1);
        index
    }

    /// Starts over, as after a seek.
    pub fn reset(&mut self)
        ensures
            final(self).next_index() == 0,
    {
        self.next = 0;
    }
}

proof fn lemma_key_bits(lane: u64, index: u64)
    by (bit_vector)
    requires
        lane < 8,
        index < 0x0800_0000_0000_0000u64,
    ensures
        (((1u64 << 62u64) | (lane << 59u64)) | index) >> 62u64 == 1u64,
        ((((1u64 << 62u64) | (lane << 59u64)) | index) >> 59u64) & 7u64 == lane,
        (((1u64 << 62u64) | (lane << 59u64)) | index) & 0x07ff_ffff_ffff_ffffu64 == index,
{
}

proof fn lemma_trigger_bit(index: u64)
    by (bit_vector)
    ensures
        (index ^ (1u64 << 63u64)) >> 63u64 == 1u64 - (index >> 63u64),
{
}

/// Sprinkle stream keys never collide: each lane and index below 2^59 has
/// its own key, every such key has bit 62 set and bit 63 clear, so it lies
/// above every scheduled Cloud opportunity (below 2^62) and apart from every
/// note trigger with a reservation below 2^63.
pub proof fn lemma_sprinkle_keys_are_disjoint(lane: u64, index: u64, lane2: u64, index2: u64, reservation: u64)
    requires
        lane < 8,
        lane2 < 8,
        index < 0x0800_0000_0000_0000u64,
        index2 < 0x0800_0000_0000_0000u64,
        reservation < 0x8000_0000_0000_0000u64,
    ensures
        sprinkle_key_spec(lane, index) == sprinkle_key_spec(lane2, index2) ==> lane == lane2 && index
            == index2,
        0x4000_0000_0000_0000u64 <= sprinkle_key_spec(lane, index) < 0x8000_0000_0000_0000u64,
        trigger_key_spec(reservation) >= 0x8000_0000_0000_0000u64,
{
    lemma_key_bits(lane, index);
    lemma_key_bits(lane2, index2);
    lemma_trigger_bit(reservation);
    assert(reservation >> 63u64 == 0u64) by (bit_vector)
        requires
            reservation < 0x8000_0000_0000_0000u64,
    ;
    let k = sprinkle_key_spec(lane, index);
    assert(k >> 62u64 == 1u64 ==> 0x4000_0000_0000_0000u64 <= k < 0x8000_0000_0000_0000u64)
        by (bit_vector);
    let t = trigger_key_spec(reservation);
    assert(t >> 63u64 == 1u64 ==> t >= 0x8000_0000_0000_0000u64) by (bit_vector);
}

/// Within a Sprinkle group the second opportunity starts a gesture only if
/// the first one does.
pub proof fn lemma_second_start_implies_first(lane: u64, group: u64)
    requires
        lane < 8,
        group < 0x0400_0000_0000_0000u64,
    ensures
        ((2 * group + 1) as u64 % 2) < group_starts(
            draw_spec(sprinkle_key_spec(lane, ((((2 * group + 1) as u64) / 2) * 2) as u64), 5),
        ) ==> ((2 * group) as u64 % 2) < group_starts(
            draw_spec(sprinkle_key_spec(lane, ((((2 * group) as u64) / 2) * 2) as u64), 5),
        ),
{
    assert(((2 * group + 1) as u64) / 2 == group);
    assert(((2 * group) as u64) / 2 == group);
}

/// The inverse of the SplitMix64 finalizer: each xor-shift is undone by
/// xoring in the shifted value again until the shift passes 64 bits, and
/// each multiplication by an odd constant by a multiplication by its
/// inverse modulo 2^64.
pub open spec fn unmix_spec(y: u64) -> u64 {
    let d = y ^ (y >> 31u64) ^ (y >> 62u64);
    let c = wrapping_mul(d, 0x319642b2d24d8ec3u64);
    let b = c ^ (c >> 27u64) ^ (c >> 54u64);
    let a = wrapping_mul(b, 0x96de1b173f119089u64);
    a ^ (a >> 30u64) ^ (a >> 60u64)
}

proof fn lemma_xorshift_30(x: u64)
    by (bit_vector)
    ensures
        ((x ^ (x >> 30u64)) ^ ((x ^ (x >> 30u64)) >> 30u64) ^ ((x ^ (x >> 30u64)) >> 60u64)) == x,
        ((x ^ (x >> 30u64) ^ (x >> 60u64)) ^ ((x ^ (x >> 30u64) ^ (x >> 60u64)) >> 30u64)) == x,
{
}

proof fn lemma_xorshift_27(x: u64)
    by (bit_vector)
    ensures
        ((x ^ (x >> 27u64)) ^ ((x ^ (x >> 27u64)) >> 27u64) ^ ((x ^ (x >> 27u64)) >> 54u64)) == x,
        ((x ^ (x >> 27u64) ^ (x >> 54u64)) ^ ((x ^ (x >> 27u64) ^ (x >> 54u64)) >> 27u64)) == x,
{
}

proof fn lemma_xorshift_31(x: u64)
    by (bit_vector)
    ensures
        ((x ^ (x >> 31u64)) ^ ((x ^ (x >> 31u64)) >> 31u64) ^ ((x ^ (x >> 31u64)) >> 62u64)) == x,
        ((x ^ (x >> 31u64) ^ (x >> 62u64)) ^ ((x ^ (x >> 31u64) ^ (x >> 62u64)) >> 31u64)) == x,
{
}

/// Multiplying by `c` and then by its inverse `i` modulo 2^64 gives back `x`.
proof fn lemma_mul_inverse(x: u64, c: u64, i: u64)
    requires
        (c as nat * i as nat) % 0x1_0000_0000_0000_0000nat == 1,
    ensures
        wrapping_mul(wrapping_mul(x, c), i) == x,
{
    let m: int = 0x1_0000_0000_0000_0000;
    vstd::arithmetic::div_mod::lemma_mul_mod_noop_left(x as int * c as int, i as int, m);
    vstd::arithmetic::mul::lemma_mul_is_associative(x as int, c as int, i as int);
    vstd::arithmetic::div_mod::lemma_mul_mod_noop_right(x as int, c as int * i as int, m);
    assert((x as int * 1) % m == x as int) by {
        vstd::arithmetic::div_mod::lemma_small_mod(x as nat, m as nat);
    }
    assert(wrapping_mul(x, c) as int == (x as int * c as int) % m);
    assert(wrapping_mul(wrapping_mul(x, c), i) as int == (wrapping_mul(x, c) as int * i as int) % m);
}

/// The SplitMix64 finalizer is a bijection of the 64-bit words: `unmix`
/// undoes it and it undoes `unmix`, so two keys never mix to the same
/// value. It keeps zero at zero.
pub proof fn lemma_mix_is_a_bijection(x: u64, y: u64)
    ensures
        unmix_spec(mix_spec(x)) == x,
        mix_spec(unmix_spec(y)) == y,
        mix_spec(x) == mix_spec(y) ==> x == y,
        mix_spec(0) == 0,
{
    let c1: u64 = 0xbf58_476d_1ce4_e5b9;
    let i1: u64 = 0x96de1b173f119089;
    let c2: u64 = 0x94d0_49bb_1331_11eb;
    let i2: u64 = 0x319642b2d24d8ec3;
    assert((c1 as nat * i1 as nat) % 0x1_0000_0000_0000_0000nat == 1);
    assert((c2 as nat * i2 as nat) % 0x1_0000_0000_0000_0000nat == 1);
    assert((i1 as nat * c1 as nat) % 0x1_0000_0000_0000_0000nat == 1);
    assert((i2 as nat * c2 as nat) % 0x1_0000_0000_0000_0000nat == 1);
    // Forward then back.
    let a = x ^ (x >> 30u64);
    let b = wrapping_mul(a, c1);
    let c = b ^ (b >> 27u64);
    let d = wrapping_mul(c, c2);
    lemma_xorshift_31(d);
    lemma_mul_inverse(c, c2, i2);
    lemma_xorshift_27(b);
    lemma_mul_inverse(a, c1, i1);
    lemma_xorshift_30(x);
    // Back then forward.
    let d2 = y ^ (y >> 31u64) ^ (y >> 62u64);
    let c3 = wrapping_mul(d2, i2);
    let b2 = c3 ^ (c3 >> 27u64) ^ (c3 >> 54u64);
    let a2 = wrapping_mul(b2, i1);
    let x2 = a2 ^ (a2 >> 30u64) ^ (a2 >> 60u64);
    lemma_xorshift_30(a2);
    lemma_mul_inverse(b2, i1, c1);
    lemma_xorshift_27(c3);
    lemma_mul_inverse(d2, i2, c2);
    lemma_xorshift_31(y);
    assert(unmix_spec(mix_spec(y)) == y) by {
        let ay = y ^ (y >> 30u64);
        let by_ = wrapping_mul(ay, c1);
        let cy = by_ ^ (by_ >> 27u64);
        let dy = wrapping_mul(cy, c2);
        lemma_xorshift_31(dy);
        lemma_mul_inverse(cy, c2, i2);
        lemma_xorshift_27(by_);
        lemma_mul_inverse(ay, c1, i1);
        lemma_xorshift_30(y);
    }
    assert(0u64 ^ (0u64 >> 30u64) == 0u64) by (bit_vector);
    assert(0u64 ^ (0u64 >> 27u64) == 0u64) by (bit_vector);
    assert(0u64 ^ (0u64 >> 31u64) == 0u64) by (bit_vector);
}

} // verus!
