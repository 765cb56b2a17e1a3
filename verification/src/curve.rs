//! The manual curve shared by the editor and the audio thread: one level per
//! point of the master mask, held as the bits of an `f32` in decibels. The
//! editor clamps a level before storing it; readers never wait. A read
//! returns whatever some thread stored last, so no contract states it.
use std::sync::atomic::{AtomicU32, Ordering};
use vstd::prelude::*;
use crate::editor::MANUAL_MASK_POINTS;

verus! {

/// The manual curve.
pub struct CurveState {
    points: Vec<AtomicU32>,
}

impl CurveState {
    /// One level per point of the master mask.
    pub closed spec fn wf(&self) -> bool {
        self.points@.len() == MANUAL_MASK_POINTS
    }

    /// A flat curve at 0 dB.
    pub fn new() -> (r: Self)
        ensures
            r.wf(),
    {
        let mut points: Vec<AtomicU32> = Vec::new();
        let mut i: usize = 0;
        while i < MANUAL_MASK_POINTS
            invariant
                i <= MANUAL_MASK_POINTS,
                points@.len() == i,
            decreases MANUAL_MASK_POINTS - i,
        {
            points.push(AtomicU32::new(0));
            i = i + 1;
        }
        CurveState { points }
    }

    /// The level of a point.
    pub fn get(&self, index: usize) -> u32
        requires
            self.wf(),
            index < MANUAL_MASK_POINTS,
    {
        self.points[index].load(Ordering::Acquire)
    }

    /// Stores the level of a point, already clamped by the caller to the
    /// range of its kind of edit.
    pub fn set(&self, index: usize, level: u32)
        requires
            self.wf(),
            index < MANUAL_MASK_POINTS,
    {
        self.points[index].store(level, Ordering::Release);
    }

    /// Flattens the curve to 0 dB.
    pub fn reset(&self)
        requires
            self.wf(),
    {
        let mut i: usize = 0;
        while i < MANUAL_MASK_POINTS
            invariant
                i <= MANUAL_MASK_POINTS,
                self.wf(),
            decreases MANUAL_MASK_POINTS - i,
        {
            self.points[i].store(0, Ordering::Release);
            i = i + 1;
        }
    }

    /// A copy of every level, one per point.
    pub fn copy_levels(&self) -> (r: Vec<u32>)
        requires
            self.wf(),
        ensures
            r@.len() == MANUAL_MASK_POINTS,
    {
        let mut r: Vec<u32> = Vec::new();
        let mut i: usize = 0;
        while i < MANUAL_MASK_POINTS
            invariant
                i <= MANUAL_MASK_POINTS,
                self.wf(),
                r@.len() == i,
            decreases MANUAL_MASK_POINTS - i,
        {
            r.push(self.points[i].load(Ordering::Acquire));
            i = i + 1;
        }
        r
    }
}

} // verus!
