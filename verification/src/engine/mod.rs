//! The double-clap engine: clap events, pairing, and the user-facing
//! sensitivity setting.
use vstd::prelude::*;

pub mod event;
pub mod matcher;

verus! {

/// How eagerly the engine accepts a double clap. `Low` is the strictest
/// tuning (fewest false triggers), `High` the most permissive (fewest
/// missed claps). Persisted as a user setting.
#[derive(Clone, Copy, Debug, PartialEq, Eq, Structural)]
pub enum Sensitivity {
    Low,
    Medium,
    High,
}

impl Sensitivity {
    /// The stable numeric encoding of a level.
    pub open spec fn code(self) -> u8 {
        match self {
            Sensitivity::Low => 0,
            Sensitivity::Medium => 1,
            Sensitivity::High => 2,
        }
    }

    /// The level an encoded value stands for; unknown codes read as `Medium`.
    pub open spec fn decode(value: u8) -> Sensitivity {
        if value == 0 {
            Sensitivity::Low
        } else if value == 2 {
            Sensitivity::High
        } else {
            Sensitivity::Medium
        }
    }

    /// The default level.
    pub fn default_level() -> (r: Sensitivity)
        ensures
            r == Sensitivity::Medium,
    {
        Sensitivity::Medium
    }

    /// Stable numeric encoding for lock-free sharing across threads.
    pub fn as_u8(self) -> (r: u8)
        ensures
            r == self.code(),
    {
        match self {
            Sensitivity::Low => 0,
            Sensitivity::Medium => 1,
            Sensitivity::High => 2,
        }
    }

    pub fn from_u8(value: u8) -> (r: Sensitivity)
        ensures
            r == Sensitivity::decode(value),
    {
        match value {
            0 => Sensitivity::Low,
            2 => Sensitivity::High,
            _ => Sensitivity::Medium,
        }
    }
}

/// Decoding an encoded level gives the level back.
pub proof fn sensitivity_roundtrip(level: Sensitivity)
    ensures
        Sensitivity::decode(level.code()) == level,
{
}

} // verus!
