use lib::motion::{
    Direction, FftQuality, MotionDirection, MotionShape, Shape, SpectralMotionShape,
};

#[test]
fn only_sprinkle_and_cloud_are_particle_shapes() {
    for shape in [
        MotionShape::Ripple,
        MotionShape::Harmonic,
        MotionShape::Drift,
        MotionShape::Scan,
        MotionShape::Notch,
        MotionShape::Saw,
    ] {
        assert!(!shape.is_particle());
    }
    assert!(MotionShape::Sprinkle.is_particle());
    assert!(MotionShape::Cloud.is_particle());
}

#[test]
fn stored_shapes_keep_their_identity() {
    let pairs = [
        (SpectralMotionShape::Ripple, MotionShape::Ripple),
        (SpectralMotionShape::Harmonic, MotionShape::Harmonic),
        (SpectralMotionShape::Drift, MotionShape::Drift),
        (SpectralMotionShape::Scan, MotionShape::Scan),
        (SpectralMotionShape::Notch, MotionShape::Notch),
        (SpectralMotionShape::Saw, MotionShape::Saw),
        (SpectralMotionShape::Sprinkle, MotionShape::Sprinkle),
        (SpectralMotionShape::Cloud, MotionShape::Cloud),
    ];
    for (stored, shape) in pairs {
        assert_eq!(MotionShape::from(stored), shape);
    }
}

#[test]
fn resolutions_have_their_sizes_and_plans_in_order() {
    let all = [
        FftQuality::Rough,
        FftQuality::Coarse,
        FftQuality::Responsive,
        FftQuality::Balanced,
        FftQuality::Precise,
    ];
    let sizes: Vec<usize> = all.iter().map(|q| q.size()).collect();
    assert_eq!(sizes, vec![1024, 2048, 4096, 8192, 16_384]);
    for (index, quality) in all.iter().enumerate() {
        assert_eq!(quality.plan_index(), index);
    }
}

#[test]
fn defaults_match_the_host_parameters() {
    assert_eq!(FftQuality::default(), FftQuality::Balanced);
    assert_eq!(SpectralMotionShape::default(), SpectralMotionShape::Drift);
    assert_eq!(MotionShape::default(), MotionShape::Ripple);
    assert_eq!(MotionDirection::default(), MotionDirection::Forward);
    assert_eq!(Shape::default(), Shape::Sprinkle);
    assert_eq!(Direction::default(), Direction::Forward);
}
