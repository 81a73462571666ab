use wallpaper_cache::clock::{elapsed_since, now_ts};
use wallpaper_cache::model::{WallpaperFile, WallpaperState};
use wallpaper_cache::schedule::{is_batch_due, should_run_weekly_batch};

fn state_with_one_file(last_batch_at: i64) -> WallpaperState {
    let mut state = WallpaperState::new();
    state.files.push(WallpaperFile::new("/tmp/a.jpg".to_string(), "https://example.org/a.jpg".to_string(), 100));
    state.last_batch_at = last_batch_at;
    state
}

#[test]
fn empty_cache_is_always_due() {
    let mut state = WallpaperState::new();
    assert!(is_batch_due(&state, 0));
    state.last_batch_at = 1_000_000;
    assert!(is_batch_due(&state, 1_000_001));
    state.last_batch_at = i64::MAX;
    assert!(is_batch_due(&state, 5));
    assert!(should_run_weekly_batch(&state));
}

#[test]
fn batch_an_hour_ago_is_not_due() {
    let now = 1_700_000_000;
    let state = state_with_one_file(now - 3600);
    assert!(!is_batch_due(&state, now));
    let live = state_with_one_file(now_ts() - 3600);
    assert!(!should_run_weekly_batch(&live));
}

#[test]
fn batch_is_due_exactly_after_seven_days() {
    let state = state_with_one_file(1000);
    assert!(!is_batch_due(&state, 1000 + 604_799));
    assert!(is_batch_due(&state, 1000 + 604_800));
    assert!(is_batch_due(&state, 1000 + 604_801));
}

#[test]
fn elapsed_saturates() {
    assert_eq!(elapsed_since(10, 3), 7);
    assert_eq!(elapsed_since(3, 10), -7);
    assert_eq!(elapsed_since(i64::MAX, -1), i64::MAX);
    assert_eq!(elapsed_since(i64::MIN, 1), i64::MIN);
    assert_eq!(elapsed_since(0, i64::MIN), i64::MAX);
}
