use vstd::prelude::*;

pub mod capture;
pub mod charts;
pub mod encoder;
pub mod mix;
pub mod naming;
pub mod progress;
pub mod protocol;
pub mod queue;
pub mod status;
pub mod text;

verus! {

/// Number of audio frames per second of the mixed track.
pub const SAMPLE_RATE: u64 = 44100;

} // verus!
