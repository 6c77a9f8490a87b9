//! A detected clap, in the fixed-point units the engine decides on.
use vstd::prelude::*;

verus! {

/// A single detected clap, summarizing the signal features the matcher
/// needs. Levels are in thousandths of a decibel; spectral flatness and
/// confidence are in basis points (ten-thousandths, so 1.0 is 10000).
#[derive(Clone, Copy, Debug, PartialEq, Eq, Structural)]
pub struct ClapEvent {
    /// Milliseconds since detection started (frame-index based).
    pub timestamp_ms: u64,
    pub peak_mdb: i32,
    pub above_floor_mdb: i32,
    pub flatness_bp: i32,
    pub confidence_bp: i32,
}

} // verus!
