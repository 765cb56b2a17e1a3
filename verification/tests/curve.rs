use lib::curve::CurveState;
use lib::editor::MANUAL_MASK_POINTS;

#[test]
fn a_new_curve_is_flat_and_reset_flattens_it_again() {
    let curve = CurveState::new();
    assert!(curve.copy_levels().iter().all(|l| f32::from_bits(*l) == 0.0));
    curve.set(42, (-18.0_f32).to_bits());
    curve.set(MANUAL_MASK_POINTS - 1, 9.25_f32.to_bits());
    assert_eq!(f32::from_bits(curve.get(42)), -18.0);
    let levels = curve.copy_levels();
    assert_eq!(levels.len(), MANUAL_MASK_POINTS);
    assert_eq!(f32::from_bits(levels[MANUAL_MASK_POINTS - 1]), 9.25);
    curve.reset();
    assert_eq!(f32::from_bits(curve.get(42)), 0.0);
    assert!(curve.copy_levels().iter().all(|l| *l == 0));
}
