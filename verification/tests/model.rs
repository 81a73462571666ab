use wallpaper_cache::clock::timestamp_from_secs;
use wallpaper_cache::model::{
    WallpaperFile, WallpaperState, WALLPAPER_BATCH_INTERVAL_SECS, WALLPAPER_BATCH_SIZE, WALLPAPER_CACHE_LIMIT,
    WALLPAPER_MIN_INTERVAL_SECS, WALLPAPER_MIN_WIDTH,
};

#[test]
fn limits_of_the_cache() {
    assert_eq!(WALLPAPER_CACHE_LIMIT, 30);
    assert_eq!(WALLPAPER_BATCH_SIZE, 10);
    assert_eq!(WALLPAPER_BATCH_INTERVAL_SECS, 7 * 24 * 60 * 60);
    assert_eq!(WALLPAPER_MIN_INTERVAL_SECS, 1);
    assert_eq!(WALLPAPER_MIN_WIDTH, 1920);
}

#[test]
fn new_state_is_empty() {
    let state = WallpaperState::new();
    assert!(state.files.is_empty());
    assert_eq!(state.next_source_index, 0);
    assert_eq!(state.next_show_index, 0);
    assert_eq!(state.last_download_at, 0);
    assert_eq!(state.last_batch_at, 0);
    assert_eq!(WallpaperState::default(), state);
}

#[test]
fn new_file_was_never_shown() {
    let file = WallpaperFile::new("/c/a.jpg".to_string(), "https://example.org/a.jpg".to_string(), 1234);
    assert_eq!(file.path, "/c/a.jpg");
    assert_eq!(file.source_url, "https://example.org/a.jpg");
    assert_eq!(file.added_at, 1234);
    assert_eq!(file.last_shown_at, 0);
    assert_eq!(file.clone(), file);
}

#[test]
fn a_source_is_added_once() {
    let mut state = WallpaperState::new();
    let first = WallpaperFile::new("/c/a.jpg".to_string(), "https://example.org/a.jpg".to_string(), 1);
    let again = WallpaperFile::new("/c/a2.jpg".to_string(), "https://example.org/a.jpg".to_string(), 2);
    let other = WallpaperFile::new("/c/a.jpg".to_string(), "https://example.org/A.jpg".to_string(), 3);
    assert!(!state.contains_source("https://example.org/a.jpg"));
    assert!(state.add_file(first.clone()));
    assert!(state.contains_source("https://example.org/a.jpg"));
    assert!(!state.contains_source("https://example.org/a.jp"));
    assert!(!state.add_file(again));
    assert_eq!(state.files, vec![first.clone()]);
    assert!(state.add_file(other.clone()));
    assert_eq!(state.files, vec![first, other]);
    assert_eq!(state.clone(), state);
}

#[test]
fn clock_readings_become_timestamps() {
    assert_eq!(timestamp_from_secs(0), 0);
    assert_eq!(timestamp_from_secs(1_700_000_000), 1_700_000_000);
    assert_eq!(timestamp_from_secs(i64::MAX as u64), i64::MAX);
    assert_eq!(timestamp_from_secs(i64::MAX as u64 + 1), i64::MIN);
    assert_eq!(timestamp_from_secs(u64::MAX), -1);
}
