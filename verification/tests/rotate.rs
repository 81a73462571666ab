use wallpaper_cache::model::{WallpaperFile, WallpaperState};
use wallpaper_cache::rotate::{next_wallpaper_index, show_next};

fn file(name: &str, added_at: i64, last_shown_at: i64) -> WallpaperFile {
    let mut f = WallpaperFile::new(format!("/cache/{}.jpg", name), format!("https://example.org/{}.jpg", name), added_at);
    f.last_shown_at = last_shown_at;
    f
}

fn state_of(files: Vec<WallpaperFile>) -> WallpaperState {
    let mut state = WallpaperState::new();
    state.files = files;
    state
}

#[test]
fn empty_cache_has_no_wallpaper() {
    let mut state = WallpaperState::new();
    assert_eq!(next_wallpaper_index(&state), None);
    assert_eq!(show_next(&mut state, 1234), None);
    assert_eq!(state, WallpaperState::new());
}

#[test]
fn newest_never_shown_file_is_chosen() {
    let mut state = state_of(vec![file("a", 100, 0), file("b", 200, 0), file("c", 300, 0)]);
    assert_eq!(show_next(&mut state, 5000), Some("/cache/c.jpg".to_string()));
    assert_eq!(
        state,
        state_of(vec![file("a", 100, 0), file("b", 200, 0), file("c", 300, 5000)])
    );
}

#[test]
fn never_shown_files_come_before_shown_ones() {
    let state = state_of(vec![file("a", 900, 10), file("b", 100, 0), file("c", 800, 1)]);
    assert_eq!(next_wallpaper_index(&state), Some(1));
}

#[test]
fn never_shown_ties_take_the_later_file() {
    let state = state_of(vec![file("a", 7, 0), file("b", 7, 0), file("c", 6, 0), file("d", 7, 3)]);
    assert_eq!(next_wallpaper_index(&state), Some(1));
}

#[test]
fn least_recently_shown_is_chosen_when_all_were_shown() {
    let state = state_of(vec![file("a", 100, 50), file("b", 200, 40), file("c", 300, 60)]);
    assert_eq!(next_wallpaper_index(&state), Some(1));
}

#[test]
fn shown_ties_take_the_newest_then_the_earlier_file() {
    let state = state_of(vec![file("a", 100, 40), file("b", 300, 40), file("c", 200, 40), file("d", 999, 41)]);
    assert_eq!(next_wallpaper_index(&state), Some(1));
    let same = state_of(vec![file("a", 100, 40), file("b", 100, 40)]);
    assert_eq!(next_wallpaper_index(&same), Some(0));
}

#[test]
fn no_file_is_shown_twice_in_a_row() {
    let mut state = state_of(vec![file("a", 1, 0), file("b", 2, 0), file("c", 2, 7)]);
    let first = show_next(&mut state, 100);
    let second = show_next(&mut state, 101);
    assert_eq!(first, Some("/cache/b.jpg".to_string()));
    assert_eq!(second, Some("/cache/a.jpg".to_string()));
    assert_ne!(first, second);
}

#[test]
fn every_file_is_shown_once_before_any_repeats() {
    let mut state = state_of((0..6).map(|i| file(&format!("f{}", i), 10 * i, 0)).collect());
    let mut order: Vec<String> = Vec::new();
    for tick in 0..6 {
        order.push(show_next(&mut state, 1000 + tick).unwrap());
    }
    let expected: Vec<String> = (0..6).rev().map(|i| format!("/cache/f{}.jpg", i)).collect();
    assert_eq!(order, expected);
    let again: Vec<String> = (0..6).map(|tick| show_next(&mut state, 2000 + tick).unwrap()).collect();
    assert_eq!(again, expected);
}

#[test]
fn showing_at_time_zero_leaves_the_file_unshown() {
    let mut state = state_of(vec![file("a", 1, 0), file("b", 2, 0)]);
    assert_eq!(show_next(&mut state, 0), Some("/cache/b.jpg".to_string()));
    assert_eq!(show_next(&mut state, 0), Some("/cache/b.jpg".to_string()));
}
