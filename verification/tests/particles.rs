use lib::particles::{
    draw, mix, partial_count, sprinkle_emits, sprinkle_key, trigger_key, TriggerCounter,
    DRAW_SCALE, SEED,
};

fn reference_mix(mut x: u64) -> u64 {
    x = (x ^ (x >> 30)).wrapping_mul(0xbf58_476d_1ce4_e5b9);
    x = (x ^ (x >> 27)).wrapping_mul(0x94d0_49bb_1331_11eb);
    x ^ (x >> 31)
}

fn reference_random(index: u64, stream: u64) -> f32 {
    (reference_mix(
        SEED ^ index.wrapping_mul(0x9e37_79b9_7f4a_7c15) ^ stream.wrapping_mul(0xd1b5_4a32_d192_ed03),
    ) >> 40) as f32
        / 16_777_216.0
}

#[test]
fn draws_are_the_24_bit_splitmix_values() {
    assert_eq!(mix(0), 0);
    assert_eq!(mix(1), 0x5692_161d_100b_05e5);
    for index in [0_u64, 1, 2, 317, 1 << 62, u64::MAX] {
        for stream in 0..16 {
            let d = draw(index, stream);
            assert!(d < DRAW_SCALE);
            assert_eq!(d as f32 / 16_777_216.0, reference_random(index, stream));
        }
    }
}

#[test]
fn integer_thresholds_agree_with_the_float_draws() {
    for index in 0..5000_u64 {
        let r = reference_random(index, 12);
        let expected = if r < 0.80 { 1 } else if r < 0.97 { 2 } else { 3 };
        assert_eq!(partial_count(index), expected);
        for lane in 0..3 {
            let group = index / 2;
            let draw = reference_random(((1 << 62) | ((lane as u64) << 59)) | group * 2, 5);
            let count = if draw < 0.25 { 0 } else if draw < 0.75 { 1 } else { 2 };
            assert_eq!(sprinkle_emits(lane, index), index % 2 < count);
        }
    }
}

#[test]
fn stream_keys_and_trigger_keys_do_not_collide() {
    assert_eq!(sprinkle_key(0, 0), 1 << 62);
    assert_eq!(sprinkle_key(2, 5), (1 << 62) | (2 << 59) | 5);
    assert_ne!(sprinkle_key(1, 0), sprinkle_key(0, 1 << 59 >> 1));
    assert_eq!(trigger_key(3), 3 | (1 << 63));
    let mut counter = TriggerCounter::new();
    assert_eq!(counter.reserve_trigger(), 0);
    assert_eq!(counter.reserve_trigger(), 1);
    counter.reset();
    assert_eq!(counter.reserve_trigger(), 0);
}

#[test]
fn mix_keeps_zero_and_never_maps_two_keys_to_one() {
    assert_eq!(mix(0), 0);
    let mut seen: Vec<u64> = (0..10_000_u64).map(mix).collect();
    seen.sort_unstable();
    seen.dedup();
    assert_eq!(seen.len(), 10_000);
}
