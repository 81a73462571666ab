//! The two operations that the cache offers to its host: choosing the
//! wallpaper for a lock event, and the scheduled batch that refills the
//! cache. Both settle the cache first: files that are gone from disk are
//! pruned, and the limit is enforced.

use vstd::prelude::*;
use crate::clock::now_ts;
use crate::evict::{
    enforce_wallpaper_limit, evicted, lemma_eviction_counts, lemma_eviction_keeps_sources_unique, paths_of,
    survivors,
};
use crate::model::{StateView, WallpaperState, WALLPAPER_BATCH_SIZE, WALLPAPER_CACHE_LIMIT};
use crate::prefetch::{Prefetch, PrefetchView};
use crate::prune::{
    lemma_pruning_keeps_sources_unique, prune_missing_files, pruned, pruned_state, retain_present,
};
use crate::rotate::{
    after_show, lemma_next_exists, lemma_show_keeps_sources_unique, next_index, next_path, show_next,
};
use crate::schedule::{batch_due, is_batch_due};
use crate::text::{text_of, texts};

verus! {

/// The answer to a lock event.
pub struct LockWallpaper {
    /// The path of the file to show, or `None` for an empty cache.
    pub chosen: Option<String>,
    /// The paths of the files that were evicted and are to be deleted.
    pub evicted: Vec<String>,
}

/// The cache trimmed to its limit.
pub open spec fn trimmed_state(state: StateView) -> StateView {
    StateView { files: survivors(state.files), ..state }
}

/// The cache after a lock event at time `now`, where `present` says which
/// files are on disk: pruned, trimmed, and with the chosen file marked as
/// shown.
pub open spec fn after_lock(state: StateView, present: Seq<bool>, now: int) -> StateView {
    after_show(trimmed_state(pruned_state(state, present)), now)
}

/// The path chosen at a lock event.
pub open spec fn lock_choice(state: StateView, present: Seq<bool>) -> Option<Seq<char>> {
    next_path(trimmed_state(pruned_state(state, present)))
}

/// The paths of the files evicted at a lock event.
pub open spec fn lock_evictions(state: StateView, present: Seq<bool>) -> Seq<Seq<char>> {
    paths_of(evicted(pruned(state.files, present)))
}

/// The round that a scheduled batch starts at time `now`, if one is due.
pub open spec fn weekly_round(state: StateView, now: int) -> Option<PrefetchView> {
    if batch_due(state, now) {
        Some(PrefetchView::begin(state, true, WALLPAPER_BATCH_SIZE as nat, now))
    } else {
        None
    }
}

/// The cache after a scheduled batch that ended at time `now`: stamped and
/// trimmed to its limit.
pub open spec fn after_batch(state: StateView, now: int) -> StateView {
    StateView { files: survivors(state.files), last_batch_at: now, ..state }
}

/// What an optional round holds.
pub open spec fn round_view(round: Option<Prefetch>) -> Option<PrefetchView> {
    match round {
        Some(session) => Some(session@),
        None => None,
    }
}

/// Answers a lock event at time `now`; `present[i]` says whether file `i` is
/// on disk. The cache is pruned and trimmed, the next file in the rotation is
/// chosen and marked as shown at `now`.
pub fn lock_wallpaper_at(state: &mut WallpaperState, present: &Vec<bool>, now: i64) -> (answer: LockWallpaper)
    ensures
        final(state)@ == after_lock(old(state)@, present@, now as int),
        text_of(answer.chosen) == lock_choice(old(state)@, present@),
        texts(answer.evicted@) == lock_evictions(old(state)@, present@),
{
    retain_present(state, present);
    let evicted = enforce_wallpaper_limit(state);
    let chosen = show_next(state, now);
    LockWallpaper { chosen, evicted }
}

/// Answers a lock event now: checks which files are on disk, reads the
/// clock, and answers as `lock_wallpaper_at` does for what it found.
pub fn get_lock_wallpaper(state: &mut WallpaperState) -> (answer: LockWallpaper)
    ensures
        exists|present: Seq<bool>, now: i64|
            present.len() == old(state)@.files.len() && final(state)@ == #[trigger] after_lock(
                old(state)@,
                present,
                now as int,
            ) && text_of(answer.chosen) == lock_choice(old(state)@, present) && texts(answer.evicted@)
                == lock_evictions(old(state)@, present),
{
    prune_missing_files(state);
    let ghost present = choose|present: Seq<bool>|
        present.len() == old(state)@.files.len() && state@ == #[trigger] pruned_state(old(state)@, present);
    let evicted = enforce_wallpaper_limit(state);
    let now = now_ts();
    let chosen = show_next(state, now);
    assert(state@ == after_lock(old(state)@, present, now as int));
    LockWallpaper { chosen, evicted }
}

/// Starts the scheduled batch at time `now` if one is due; `present[i]` says
/// whether file `i` is on disk. The cache is pruned first. A batch that is
/// due gives the round to run; its target is the batch size.
pub fn weekly_batch_at(state: &mut WallpaperState, present: &Vec<bool>, now: i64) -> (round: Option<Prefetch>)
    ensures
        final(state)@ == pruned_state(old(state)@, present@),
        round_view(round) == weekly_round(final(state)@, now as int),
{
    retain_present(state, present);
    if is_batch_due(state, now) {
        Some(Prefetch::begin(state, true, WALLPAPER_BATCH_SIZE, now))
    } else {
        None
    }
}

/// Starts the scheduled batch now if one is due: checks which files are on
/// disk, reads the clock, and decides as `weekly_batch_at` does for what it
/// found.
pub fn begin_weekly_batch(state: &mut WallpaperState) -> (round: Option<Prefetch>)
    ensures
        exists|present: Seq<bool>, now: i64|
            present.len() == old(state)@.files.len() && final(state)@ == #[trigger] pruned_state(
                old(state)@,
                present,
            ) && round_view(round) == #[trigger] weekly_round(final(state)@, now as int),
{
    prune_missing_files(state);
    let ghost present = choose|present: Seq<bool>|
        present.len() == old(state)@.files.len() && state@ == #[trigger] pruned_state(old(state)@, present);
    let now = now_ts();
    let round = if is_batch_due(state, now) {
        Some(Prefetch::begin(state, true, WALLPAPER_BATCH_SIZE, now))
    } else {
        None
    };
    assert(round_view(round) == weekly_round(state@, now as int));
    round
}

/// Ends a scheduled batch at time `now`: the batch is stamped, the cache is
/// trimmed to its limit, and the paths of the evicted files are returned for
/// deletion.
pub fn finish_weekly_batch(state: &mut WallpaperState, now: i64) -> (evicted_paths: Vec<String>)
    ensures
        final(state)@ == after_batch(old(state)@, now as int),
        texts(evicted_paths@) == paths_of(evicted(old(state)@.files)),
{
    state.last_batch_at = now;
    enforce_wallpaper_limit(state)
}

/// Both operations keep the invariant of the cache and leave it within its
/// limit: after a lock event and after a batch no source occurs twice and no
/// more files are held than the limit allows.
pub proof fn lemma_operations_keep_cache_sound(state: StateView, present: Seq<bool>, now: int)
    requires
        state.well_formed(),
    ensures
        pruned_state(state, present).well_formed(),
        after_lock(state, present, now).well_formed(),
        after_lock(state, present, now).files.len() <= WALLPAPER_CACHE_LIMIT,
        after_batch(state, now).well_formed(),
        after_batch(state, now).files.len() <= WALLPAPER_CACHE_LIMIT,
{
    lemma_pruning_keeps_sources_unique(state.files, present);
    let kept = pruned(state.files, present);
    lemma_eviction_keeps_sources_unique(kept);
    lemma_eviction_counts(kept);
    let trimmed = survivors(kept);
    if trimmed.len() > 0 {
        lemma_next_exists(trimmed);
        lemma_show_keeps_sources_unique(trimmed, next_index(trimmed), now);
    }
    lemma_eviction_keeps_sources_unique(state.files);
    lemma_eviction_counts(state.files);
}

} // verus!
