//! The rotation policy: which cached file is shown next. Files that were
//! never shown come first, newest first; after that the file shown longest
//! ago, and among those the newest.

use vstd::prelude::*;
use crate::model::{unique_sources, FileView, StateView, WallpaperState};
use crate::text::text_of;

verus! {

/// Some file was never shown.
pub open spec fn has_never_shown(files: Seq<FileView>) -> bool {
    exists|i: int| 0 <= i < files.len() && (#[trigger] files[i]).last_shown_at == 0
}

/// Among files never shown, file `i` is shown rather than file `j`: it is
/// newer, or as new and later in the cache.
pub open spec fn fresher(files: Seq<FileView>, i: int, j: int) -> bool {
    files[i].added_at > files[j].added_at || (files[i].added_at == files[j].added_at && i >= j)
}

/// Among files all shown before, file `i` is shown rather than file `j`: it
/// was shown longer ago, or as long ago and is newer, or equal in both and
/// earlier in the cache.
pub open spec fn staler(files: Seq<FileView>, i: int, j: int) -> bool {
    files[i].last_shown_at < files[j].last_shown_at || (files[i].last_shown_at
        == files[j].last_shown_at && (files[i].added_at > files[j].added_at || (files[i].added_at
        == files[j].added_at && i <= j)))
}

/// File `i` is the best of the never-shown files among the first `n`.
pub open spec fn newest_unshown(files: Seq<FileView>, n: int, i: int) -> bool {
    &&& 0 <= i < n
    &&& files[i].last_shown_at == 0
    &&& forall|j: int| 0 <= j < n && (#[trigger] files[j]).last_shown_at == 0 ==> fresher(files, i, j)
}

/// File `i` is the best of the first `n` files, taken as all shown before.
pub open spec fn stalest(files: Seq<FileView>, n: int, i: int) -> bool {
    &&& 0 <= i < n
    &&& forall|j: int| 0 <= j < n ==> #[trigger] staler(files, i, j)
}

/// File `i` is the one to show next.
pub open spec fn is_next(files: Seq<FileView>, i: int) -> bool {
    if has_never_shown(files) {
        newest_unshown(files, files.len() as int, i)
    } else {
        stalest(files, files.len() as int, i)
    }
}

/// The index of the file to show next. It means something only for a cache
/// that holds a file.
pub open spec fn next_index(files: Seq<FileView>) -> int {
    choose|i: int| is_next(files, i)
}

/// The files after file `i` was shown at time `now`.
pub open spec fn mark_shown(files: Seq<FileView>, i: int, now: int) -> Seq<FileView> {
    files.update(i, FileView { last_shown_at: now, ..files[i] })
}

/// The cache after its next file was shown at time `now`. An empty cache
/// stays as it is.
pub open spec fn after_show(state: StateView, now: int) -> StateView {
    if state.files.len() == 0 {
        state
    } else {
        StateView { files: mark_shown(state.files, next_index(state.files), now), ..state }
    }
}

/// The path of the file that is shown next, if the cache holds a file.
pub open spec fn next_path(state: StateView) -> Option<Seq<char>> {
    if state.files.len() == 0 {
        None
    } else {
        Some(state.files[next_index(state.files)].path)
    }
}

/// At most one file is the one to show next.
pub proof fn lemma_next_is_unique(files: Seq<FileView>, i: int, j: int)
    requires
        is_next(files, i),
        is_next(files, j),
    ensures
        i == j,
{
    if has_never_shown(files) {
        assert(fresher(files, i, j));
    } else {
        assert(staler(files, i, j));
        assert(staler(files, j, i));
    }
}

/// A cache that holds a file has a file to show next, and `next_index` is it.
pub proof fn lemma_next_exists(files: Seq<FileView>)
    requires
        files.len() > 0,
    ensures
        is_next(files, next_index(files)),
{
    if has_never_shown(files) {
        let i = lemma_newest_unshown_exists(files, files.len() as int);
        assert(is_next(files, i));
    } else {
        let i = lemma_stalest_exists(files, files.len() as int);
        assert(is_next(files, i));
    }
}

proof fn lemma_newest_unshown_exists(files: Seq<FileView>, n: int) -> (i: int)
    requires
        0 <= n <= files.len(),
        exists|k: int| 0 <= k < n && (#[trigger] files[k]).last_shown_at == 0,
    ensures
        newest_unshown(files, n, i),
    decreases n,
{
    let last = n - 1;
    if exists|k: int| 0 <= k < last && (#[trigger] files[k]).last_shown_at == 0 {
        let b = lemma_newest_unshown_exists(files, last);
        if files[last].last_shown_at == 0 && files[last].added_at >= files[b].added_at {
            assert forall|j: int| 0 <= j < n && (#[trigger] files[j]).last_shown_at == 0 implies fresher(
                files,
                last,
                j,
            ) by {
                if j < last {
                    assert(fresher(files, b, j));
                }
            }
            last
        } else {
            assert forall|j: int| 0 <= j < n && (#[trigger] files[j]).last_shown_at == 0 implies fresher(
                files,
                b,
                j,
            ) by {
                if j < last {
                    assert(fresher(files, b, j));
                }
            }
            b
        }
    } else {
        last
    }
}

proof fn lemma_stalest_exists(files: Seq<FileView>, n: int) -> (i: int)
    requires
        0 < n <= files.len(),
    ensures
        stalest(files, n, i),
    decreases n,
{
    if n == 1 {
        0
    } else {
        let last = n - 1;
        let b = lemma_stalest_exists(files, last);
        if staler(files, b, last) {
            assert forall|j: int| 0 <= j < n implies #[trigger] staler(files, b, j) by {}
            b
        } else {
            assert forall|j: int| 0 <= j < n implies #[trigger] staler(files, last, j) by {
                if j < last {
                    assert(staler(files, b, j));
                }
            }
            last
        }
    }
}

/// The index of the file to show next, if the cache holds one.
pub fn next_wallpaper_index(state: &WallpaperState) -> (choice: Option<usize>)
    ensures
        choice is None <==> state@.files.len() == 0,
        choice matches Some(i) ==> is_next(state@.files, i as int) && i == next_index(state@.files),
{
    let n = state.files.len();
    if n == 0 {
        return None;
    }
    let ghost files = state@.files;
    let mut unshown: Option<usize> = None;
    let mut i: usize = 0;
    while i < n
        invariant
            i <= n,
            n == state.files.len(),
            files == state@.files,
            unshown is None ==> forall|k: int| 0 <= k < i ==> (#[trigger] files[k]).last_shown_at != 0,
            unshown matches Some(b) ==> newest_unshown(files, i as int, b as int),
        decreases n - i,
    {
        if state.files[i].last_shown_at == 0 {
            let better = match unshown {
                None => true,
                Some(b) => state.files[i].added_at >= state.files[b].added_at,
            };
            if better {
                proof {
                    assert forall|j: int|
                        0 <= j < i + 1 && (#[trigger] files[j]).last_shown_at == 0 implies fresher(
                        files,
                        i as int,
                        j,
                    ) by {
                        if j < i {
                            assert(fresher(files, unshown->0 as int, j));
                        }
                    }
                }
                unshown = Some(i);
            }
        }
        i = i + 1;
    }
    if let Some(b) = unshown {
        proof {
            lemma_next_exists(files);
            lemma_next_is_unique(files, b as int, next_index(files));
        }
        return Some(b);
    }
    let mut best: usize = 0;
    let mut k: usize = 1;
    while k < n
        invariant
            1 <= k <= n,
            n == state.files.len(),
            files == state@.files,
            stalest(files, k as int, best as int),
        decreases n - k,
    {
        let f = &state.files[k];
        let b = &state.files[best];
        if f.last_shown_at < b.last_shown_at || (f.last_shown_at == b.last_shown_at && f.added_at
            > b.added_at) {
            proof {
                assert forall|j: int| 0 <= j < k + 1 implies #[trigger] staler(files, k as int, j) by {
                    if j < k {
                        assert(staler(files, best as int, j));
                    }
                }
            }
            best = k;
        } else {
            proof {
                assert forall|j: int| 0 <= j < k + 1 implies #[trigger] staler(files, best as int, j) by {
                    if j < k {
                        assert(staler(files, best as int, j));
                    }
                }
            }
        }
        k = k + 1;
    }
    proof {
        lemma_next_exists(files);
        lemma_next_is_unique(files, best as int, next_index(files));
    }
    Some(best)
}

/// Picks the file to show next, records `now` as the time it was shown and
/// returns its path. An empty cache is left as it is and gives `None`.
pub fn show_next(state: &mut WallpaperState, now: i64) -> (chosen: Option<String>)
    ensures
        text_of(chosen) == next_path(old(state)@),
        final(state)@ == after_show(old(state)@, now as int),
{
    match next_wallpaper_index(state) {
        None => None,
        Some(i) => {
            let ghost before = state@.files;
            let path = state.files[i].path.clone();
            state.files[i].last_shown_at = now;
            assert(state@.files =~= mark_shown(before, i as int, now as int));
            Some(path)
        },
    }
}

/// While a file waits that was never shown, the next file is one of those,
/// and none of them is newer: every file is shown once before any is shown
/// again.
pub proof fn lemma_never_shown_go_first(files: Seq<FileView>)
    requires
        has_never_shown(files),
    ensures
        0 <= next_index(files) < files.len(),
        files[next_index(files)].last_shown_at == 0,
        forall|j: int|
            0 <= j < files.len() && (#[trigger] files[j]).last_shown_at == 0 ==> files[j].added_at
                <= files[next_index(files)].added_at,
{
    lemma_next_exists(files);
    let i = next_index(files);
    assert forall|j: int| 0 <= j < files.len() && (#[trigger] files[j]).last_shown_at == 0 implies files[j].added_at
        <= files[i].added_at by {
        assert(fresher(files, i, j));
    }
}

/// Once every file was shown, the next file is the one shown longest ago,
/// and of the files shown at that time none is newer.
pub proof fn lemma_least_recently_shown_next(files: Seq<FileView>)
    requires
        files.len() > 0,
        !has_never_shown(files),
    ensures
        0 <= next_index(files) < files.len(),
        forall|j: int|
            0 <= j < files.len() ==> files[next_index(files)].last_shown_at <= (#[trigger] files[j]).last_shown_at,
        forall|j: int|
            0 <= j < files.len() && (#[trigger] files[j]).last_shown_at == files[next_index(
                files,
            )].last_shown_at ==> files[j].added_at <= files[next_index(files)].added_at,
{
    lemma_next_exists(files);
    let i = next_index(files);
    assert forall|j: int| 0 <= j < files.len() implies files[i].last_shown_at <= (#[trigger] files[j]).last_shown_at by {
        assert(staler(files, i, j));
    }
    assert forall|j: int|
        0 <= j < files.len() && (#[trigger] files[j]).last_shown_at
            == files[i].last_shown_at implies files[j].added_at <= files[i].added_at by {
        assert(staler(files, i, j));
    }
}

/// While two or more files wait that were never shown, no file is shown twice
/// in a row. The time of the first showing must not be zero, which stands for
/// "never".
pub proof fn lemma_no_immediate_repeat(files: Seq<FileView>, a: int, b: int, now: int)
    requires
        0 <= a < b < files.len(),
        files[a].last_shown_at == 0,
        files[b].last_shown_at == 0,
        now != 0,
    ensures
        next_index(mark_shown(files, next_index(files), now)) != next_index(files),
{
    lemma_never_shown_go_first(files);
    let first = next_index(files);
    let then = mark_shown(files, first, now);
    let other = if first == a { b } else { a };
    assert(then[other].last_shown_at == 0);
    lemma_never_shown_go_first(then);
}

/// Showing a file changes no source, so it keeps the sources unique.
pub proof fn lemma_show_keeps_sources_unique(files: Seq<FileView>, i: int, now: int)
    requires
        unique_sources(files),
        0 <= i < files.len(),
    ensures
        unique_sources(mark_shown(files, i, now)),
{
    let then = mark_shown(files, i, now);
    assert forall|x: int, y: int| 0 <= x < y < then.len() implies (#[trigger] then[x]).source_url != (
    #[trigger] then[y]).source_url by {
        assert(then[x].source_url == files[x].source_url);
    }
}

} // verus!
