//! Fixed sizes of the model's grids.
use vstd::prelude::*;

verus! {

/// Number of depth levels in every depth profile, surface and bottom included.
pub const DEPTH_PROFILE_COUNT: usize = 101;

/// Number of wavebands resolving the visible spectrum.
pub const NUM_BANDS: usize = 5;

/// Number of hourly time samples across a day; sample `k` lies at hour angle `15k - 180` degrees.
pub const TIME_STEPS: usize = 24;

/// Deepest accepted bottom depth, in millimetres.
pub const MAX_DEPTH_MM: u64 = 12_000_000;

} // verus!
