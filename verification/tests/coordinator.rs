use wallpaper_cache::clock::now_ts;
use wallpaper_cache::coordinator::{
    begin_weekly_batch, finish_weekly_batch, get_lock_wallpaper, lock_wallpaper_at, weekly_batch_at,
};
use wallpaper_cache::model::{WallpaperFile, WallpaperState};

fn file(path: &str, added_at: i64, last_shown_at: i64) -> WallpaperFile {
    let mut f = WallpaperFile::new(path.to_string(), format!("https://example.org/{}/{}", added_at, path), added_at);
    f.last_shown_at = last_shown_at;
    f
}

fn state_of(files: Vec<WallpaperFile>) -> WallpaperState {
    let mut state = WallpaperState::new();
    state.files = files;
    state
}

#[test]
fn lock_event_prunes_trims_and_rotates() {
    let mut files: Vec<WallpaperFile> = (0..33).map(|i| file(&format!("/c/{}", i), 100 + i, 0)).collect();
    files[32].last_shown_at = 5;
    let mut state = state_of(files);
    let mut present = vec![true; 33];
    present[31] = false;
    let answer = lock_wallpaper_at(&mut state, &present, 9000);
    assert_eq!(answer.evicted, vec!["/c/0".to_string(), "/c/1".to_string()]);
    assert_eq!(answer.chosen, Some("/c/30".to_string()));
    assert_eq!(state.files.len(), 30);
    assert_eq!(state.files[0].path, "/c/2");
    assert_eq!(state.files[28].path, "/c/30");
    assert_eq!(state.files[28].last_shown_at, 9000);
    assert_eq!(state.files[29].path, "/c/32");
    assert_eq!(state.files[29].last_shown_at, 5);
}

#[test]
fn lock_event_on_an_empty_cache_gives_nothing() {
    let mut state = WallpaperState::new();
    let answer = lock_wallpaper_at(&mut state, &Vec::new(), 9000);
    assert_eq!(answer.chosen, None);
    assert!(answer.evicted.is_empty());
    assert_eq!(state, WallpaperState::new());

    let mut gone = state_of(vec![file("/c/1", 1, 0)]);
    let answer = lock_wallpaper_at(&mut gone, &vec![false], 9000);
    assert_eq!(answer.chosen, None);
    assert_eq!(gone, WallpaperState::new());
}

#[test]
fn lock_event_reads_disk_and_clock() {
    let mut state = state_of(vec![file("/", 100, 0), file("/no/such/file.jpg", 300, 0), file(".", 200, 0)]);
    let before = now_ts();
    let answer = get_lock_wallpaper(&mut state);
    let after = now_ts();
    assert_eq!(answer.chosen, Some(".".to_string()));
    assert!(answer.evicted.is_empty());
    assert_eq!(state.files.len(), 2);
    assert_eq!(state.files[0], file("/", 100, 0));
    assert_eq!(state.files[1].path, ".");
    assert!(before <= state.files[1].last_shown_at && state.files[1].last_shown_at <= after);
    assert!(before > 1_600_000_000);
}

#[test]
fn batch_starts_only_when_due() {
    let mut fresh = state_of(vec![file("/c/1", 1, 0)]);
    fresh.last_batch_at = 10_000;
    assert!(weekly_batch_at(&mut fresh, &vec![true], 10_000 + 3600).is_none());
    assert_eq!(fresh.files.len(), 1);

    let mut emptied = state_of(vec![file("/c/1", 1, 0)]);
    emptied.last_batch_at = 10_000;
    let round = weekly_batch_at(&mut emptied, &vec![false], 10_000 + 3600).unwrap();
    assert!(emptied.files.is_empty());
    assert_eq!(round.target(), 10);
    assert_eq!(round.max_attempts(), 60);
    assert_eq!(round.now(), 13_600);
    assert!(!round.is_done());

    let mut week = state_of(vec![file("/c/1", 1, 0)]);
    week.last_batch_at = 10_000;
    assert!(weekly_batch_at(&mut week, &vec![true], 10_000 + 604_800).is_some());
}

#[test]
fn due_batch_right_after_a_download_has_nothing_to_do() {
    let mut state = WallpaperState::new();
    state.last_download_at = 500;
    let round = weekly_batch_at(&mut state, &Vec::new(), 500).unwrap();
    assert!(round.is_done());
    assert_eq!(round.attempts(), 0);
}

#[test]
fn batch_reads_disk_and_clock() {
    let mut state = state_of(vec![file("/no/such/file.jpg", 1, 0)]);
    state.last_batch_at = now_ts();
    let round = begin_weekly_batch(&mut state).unwrap();
    assert!(state.files.is_empty());
    assert!(!round.is_done());
    let mut kept = state_of(vec![file("/", 1, 0)]);
    kept.last_batch_at = now_ts();
    assert!(begin_weekly_batch(&mut kept).is_none());
    assert_eq!(kept.files.len(), 1);
}

#[test]
fn finished_batch_is_stamped_and_trimmed() {
    let files: Vec<WallpaperFile> = (0..31).map(|i| file(&format!("/c/{}", i), 1000 - i, 0)).collect();
    let mut state = state_of(files);
    state.last_batch_at = 3;
    state.last_download_at = 4;
    let evicted = finish_weekly_batch(&mut state, 7777);
    assert_eq!(evicted, vec!["/c/30".to_string()]);
    assert_eq!(state.files.len(), 30);
    assert_eq!(state.last_batch_at, 7777);
    assert_eq!(state.last_download_at, 4);
    assert_eq!(state.files[0].path, "/c/29");
}
