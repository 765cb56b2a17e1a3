use vstd::prelude::*;

pub mod capture;
pub mod curve;
pub mod display;
pub mod editor;
pub mod entries;
pub mod events;
pub mod gestures;
pub mod history;
pub mod motion;
pub mod particles;
pub mod mpe;
pub mod pinned;
pub mod pool;
pub mod snapshot;
pub mod sources;
pub mod transfer;
pub mod tuning;
pub mod voices;

verus! {

} // verus!
