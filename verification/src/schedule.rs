//! The refill schedule: a batch is due when the cache is empty or a week has
//! passed since the last one.

use vstd::prelude::*;
use crate::clock::{elapsed, elapsed_since, now_ts};
use crate::model::{StateView, WallpaperState, WALLPAPER_BATCH_INTERVAL_SECS};

verus! {

/// A batch is due at time `now`: the cache is empty, or the batch interval
/// has passed since the last batch.
pub open spec fn batch_due(state: StateView, now: int) -> bool {
    state.files.len() == 0 || elapsed(now, state.last_batch_at) >= WALLPAPER_BATCH_INTERVAL_SECS
}

/// Whether a batch is due at time `now`.
pub fn is_batch_due(state: &WallpaperState, now: i64) -> (due: bool)
    ensures
        due == batch_due(state@, now as int),
{
    if state.files.is_empty() {
        return true;
    }
    elapsed_since(now, state.last_batch_at) >= WALLPAPER_BATCH_INTERVAL_SECS
}

/// Whether a batch is due now, by the system clock. An empty cache makes it
/// due whatever the clock says; otherwise the answer is that of
/// `is_batch_due` for the time that was read.
pub fn should_run_weekly_batch(state: &WallpaperState) -> (due: bool)
    ensures
        state@.files.len() == 0 ==> due,
        exists|now: i64| due == #[trigger] batch_due(state@, now as int),
{
    let now = now_ts();
    is_batch_due(state, now)
}

} // verus!
