//! The one setting of the engine: how often the observer polls.

use vstd::prelude::*;

verus! {

/// The interval between two polls of a cell, in milliseconds.  A lower value
/// mirrors faster and costs more.
#[derive(Clone, Copy, Debug, PartialEq, Eq, Structural)]
pub struct InfoRefershRateMS(pub u64);

/// The interval that is used where none is configured: thirty milliseconds.
pub const DEFAULT_REFRESH_MS: u64 = 30;

impl Default for InfoRefershRateMS {
    fn default() -> (rate: Self)
        ensures
            rate.0 == DEFAULT_REFRESH_MS,
    {
        InfoRefershRateMS(DEFAULT_REFRESH_MS)
    }
}

impl InfoRefershRateMS {
    /// The interval that makes `fps` polls per second, rounded down to whole
    /// milliseconds.
    pub fn from_fps(fps: u16) -> (rate: Self)
        requires
            fps > 0,
        ensures
            rate.0 == 1000int / (fps as int),
    {
        InfoRefershRateMS((1000 / fps) as u64)
    }

    /// As `from_fps`, with the default interval where `fps` is zero.
    pub fn from_fps_or_default(fps: u16) -> (rate: Self)
        ensures
            rate.0 == if fps > 0 {
                1000int / (fps as int)
            } else {
                DEFAULT_REFRESH_MS as int
            },
    {
        if fps > 0 {
            InfoRefershRateMS::from_fps(fps)
        } else {
            InfoRefershRateMS(DEFAULT_REFRESH_MS)
        }
    }
}

} // verus!
