//! Motion shapes of the spectral mask, the particle engine's shape and
//! direction, and the host-facing choices that select them.
use vstd::prelude::*;

verus! {

/// The shape that animates the spectral mask.
#[derive(Clone, Copy, Debug, Default, PartialEq, Eq, Structural)]
pub enum MotionShape {
    #[default]
    Ripple,
    Harmonic,
    Drift,
    Scan,
    Notch,
    Saw,
    Sprinkle,
    Cloud,
}

impl MotionShape {
    /// True for the shapes that the particle engine renders.
    pub fn is_particle(self) -> (r: bool)
        ensures
            r <==> (self == MotionShape::Sprinkle || self == MotionShape::Cloud),
    {
        match self {
            MotionShape::Sprinkle | MotionShape::Cloud => true,
            _ => false,
        }
    }
}

/// The two particle families: short harmonic gestures or slow swells.
#[derive(Clone, Copy, Debug, Default, PartialEq, Eq, Structural)]
pub enum Shape {
    #[default]
    Sprinkle,
    Cloud,
}

/// Which way particles travel or which envelope they take.
#[derive(Clone, Copy, Debug, Default, PartialEq, Eq, Structural)]
pub enum Direction {
    #[default]
    Forward,
    Reverse,
    Alternate,
}

/// The motion shape as stored in the host parameter. The order of the
/// variants is the stored index and must not change.
#[derive(Clone, Copy, Debug, Default, PartialEq, Eq, Structural)]
pub enum SpectralMotionShape {
    Ripple,
    Harmonic,
    #[default]
    Drift,
    Scan,
    Notch,
    Saw,
    Sprinkle,
    Cloud,
}

/// The motion direction as stored in the host parameter.
#[derive(Clone, Copy, Debug, Default, PartialEq, Eq, Structural)]
pub enum MotionDirection {
    #[default]
    Forward,
    Reverse,
    Alternate,
}

/// The spectral resolution choice.
#[derive(Clone, Copy, Debug, Default, PartialEq, Eq, Structural)]
pub enum FftQuality {
    Rough,
    Coarse,
    Responsive,
    #[default]
    Balanced,
    Precise,
}

/// The FFT length of the Rough resolution.
pub const ROUGH_FFT_SIZE: usize = 1024;
/// The FFT length of the Coarse resolution.
pub const COARSE_FFT_SIZE: usize = 2048;
/// The FFT length of the Responsive resolution.
pub const MIN_FFT_SIZE: usize = 4096;
/// The FFT length of the default, Balanced resolution.
pub const DEFAULT_FFT_SIZE: usize = 8192;
/// The FFT length of the Precise resolution, the largest.
pub const MAX_FFT_SIZE: usize = 16384;

/// The shape that a stored motion parameter selects: each variant maps to the
/// mask shape of the same name.
pub open spec fn motion_shape_of(value: SpectralMotionShape) -> MotionShape {
    match value {
        SpectralMotionShape::Ripple => MotionShape::Ripple,
        SpectralMotionShape::Harmonic => MotionShape::Harmonic,
        SpectralMotionShape::Drift => MotionShape::Drift,
        SpectralMotionShape::Scan => MotionShape::Scan,
        SpectralMotionShape::Notch => MotionShape::Notch,
        SpectralMotionShape::Saw => MotionShape::Saw,
        SpectralMotionShape::Sprinkle => MotionShape::Sprinkle,
        SpectralMotionShape::Cloud => MotionShape::Cloud,
    }
}

impl From<SpectralMotionShape> for MotionShape {
    fn from(value: SpectralMotionShape) -> (r: Self) {
        match value {
            SpectralMotionShape::Ripple => MotionShape::Ripple,
            SpectralMotionShape::Harmonic => MotionShape::Harmonic,
            SpectralMotionShape::Drift => MotionShape::Drift,
            SpectralMotionShape::Scan => MotionShape::Scan,
            SpectralMotionShape::Notch => MotionShape::Notch,
            SpectralMotionShape::Saw => MotionShape::Saw,
            SpectralMotionShape::Sprinkle => MotionShape::Sprinkle,
            SpectralMotionShape::Cloud => MotionShape::Cloud,
        }
    }
}

impl vstd::std_specs::convert::FromSpecImpl<SpectralMotionShape> for MotionShape {
    open spec fn obeys_from_spec() -> bool {
        true
    }

    open spec fn from_spec(v: SpectralMotionShape) -> MotionShape {
        motion_shape_of(v)
    }
}

impl FftQuality {
    /// The FFT length of each resolution, from 1024 to 16384 samples.
    pub fn size(self) -> (r: usize)
        ensures
            r == match self {
                FftQuality::Rough => 1024usize,
                FftQuality::Coarse => 2048usize,
                FftQuality::Responsive => 4096usize,
                FftQuality::Balanced => 8192usize,
                FftQuality::Precise => 16384usize,
            },
    {
        match self {
            FftQuality::Rough => ROUGH_FFT_SIZE,
            FftQuality::Coarse => COARSE_FFT_SIZE,
            FftQuality::Responsive => MIN_FFT_SIZE,
            FftQuality::Balanced => DEFAULT_FFT_SIZE,
            FftQuality::Precise => MAX_FFT_SIZE,
        }
    }

    /// The position of the resolution's prepared FFT plan, in the order of
    /// increasing size.
    pub fn plan_index(self) -> (r: usize)
        ensures
            r == match self {
                FftQuality::Rough => 0usize,
                FftQuality::Coarse => 1usize,
                FftQuality::Responsive => 2usize,
                FftQuality::Balanced => 3usize,
                FftQuality::Precise => 4usize,
            },
    {
        match self {
            FftQuality::Rough => 0,
            FftQuality::Coarse => 1,
            FftQuality::Responsive => 2,
            FftQuality::Balanced => 3,
            FftQuality::Precise => 4,
        }
    }
}

} // verus!
