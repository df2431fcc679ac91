//! The control values that the host supplies with each block, and the
//! ranges that they are held to.

use vstd::prelude::*;
use crate::binary32::{clamp, clamped, is_nan, less_than, lt, ZERO};

verus! {

/// One half: a toggle is on when it lies above this.
pub const HALF: u32 = 0x3F00_0000;

/// One: the upper bound of a toggle.
pub const ONE: u32 = 0x3F80_0000;

/// The shortest learn window: a tenth of a second.
pub const LEARN_WINDOW_MIN: u32 = 0x3DCC_CCCD;

/// The longest learn window: thirty seconds.
pub const LEARN_WINDOW_MAX: u32 = 0x41F0_0000;

/// The lowest noise floor: 96 decibels below unity.
pub const NOISE_FLOOR_DB_MIN: u32 = 0xC2C0_0000;

/// The highest noise floor: 60 decibels above unity.
pub const NOISE_FLOOR_DB_MAX: u32 = 0x4270_0000;

/// The control values of one block, as the host supplies them.
#[derive(Clone, Copy, Debug, PartialEq, Eq, Structural)]
pub struct Controls {
    /// The learn toggle.
    pub learn: u32,
    /// The learn window, in seconds.
    pub learn_window: u32,
    /// The noise floor, in decibels.
    pub noise_floor_db: u32,
}

impl Controls {
    /// The controls with each value clamped to its range.
    pub open spec fn within_ranges(self) -> Controls {
        Controls {
            learn: clamped(self.learn, ZERO, ONE),
            learn_window: clamped(self.learn_window, LEARN_WINDOW_MIN, LEARN_WINDOW_MAX),
            noise_floor_db: clamped(self.noise_floor_db, NOISE_FLOOR_DB_MIN, NOISE_FLOOR_DB_MAX),
        }
    }

    /// Whether the learn toggle is on: its value lies above one half.
    pub open spec fn learns(self) -> bool {
        less_than(HALF, self.learn)
    }

    /// Clamps each value to the nearest bound of its range. A value out of
    /// range never stops the audio path.
    pub fn clamp_to_ranges(&self) -> (r: Controls)
        ensures
            r == self.within_ranges(),
    {
        Controls {
            learn: clamp(self.learn, ZERO, ONE),
            learn_window: clamp(self.learn_window, LEARN_WINDOW_MIN, LEARN_WINDOW_MAX),
            noise_floor_db: clamp(self.noise_floor_db, NOISE_FLOOR_DB_MIN, NOISE_FLOOR_DB_MAX),
        }
    }

    /// Tells whether the learn toggle is on.
    pub fn learn_enabled(&self) -> (r: bool)
        ensures
            r == self.learns(),
    {
        lt(HALF, self.learn)
    }
}

/// Clamped controls lie within their ranges, but for a NaN, which stays a
/// NaN; and clamping leaves the learn toggle on or off as it was.
pub proof fn lemma_within_ranges(controls: Controls)
    ensures
        controls.within_ranges().within_ranges() == controls.within_ranges(),
        controls.within_ranges().learns() == controls.learns(),
        !is_nan(controls.learn_window) ==> {
            &&& !less_than(controls.within_ranges().learn_window, LEARN_WINDOW_MIN)
            &&& !less_than(LEARN_WINDOW_MAX, controls.within_ranges().learn_window)
        },
        !is_nan(controls.noise_floor_db) ==> {
            &&& !less_than(controls.within_ranges().noise_floor_db, NOISE_FLOOR_DB_MIN)
            &&& !less_than(NOISE_FLOOR_DB_MAX, controls.within_ranges().noise_floor_db)
        },
{
}

} // verus!
