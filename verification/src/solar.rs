//! Sunrise/sunset pair consumed by the transition curves.
//!
//! The astronomical computation itself (NOAA Julian-century reduction)
//! runs on floating point and local-timezone tables outside this
//! library; the reactor only ever sees the two resulting epochs.

use vstd::prelude::*;

verus! {

/// Sunrise and sunset instants of one calendar day, as Unix epochs.
#[derive(Clone, Copy, PartialEq, Eq, Structural, Debug)]
pub struct SunTimes {
    pub sunrise: i64,
    pub sunset: i64,
}

/// Epoch magnitude accepted by the curve functions; large enough for
/// any realistic clock, small enough that Q16 scaling cannot overflow.
pub const EPOCH_BOUND: i64 = 0x10000000000;

/// A sunrise/sunset pair the curve functions can take without
/// overflow: both epochs within `EPOCH_BOUND`.
pub open spec fn sun_times_bounded(st: SunTimes) -> bool {
    -EPOCH_BOUND <= st.sunrise <= EPOCH_BOUND && -EPOCH_BOUND <= st.sunset <= EPOCH_BOUND
}

} // verus!
