//! The eviction policy: when the cache holds more files than its limit, the
//! oldest by acquisition time leave first.

use vstd::prelude::*;
use vstd::set_lib::{lemma_int_range, lemma_len_subset, lemma_subset_equality, set_int_range};
use crate::model::{
    file_views, unique_sources, FileView, StateView, WallpaperFile, WallpaperState, WALLPAPER_CACHE_LIMIT,
};
use crate::text::texts;

verus! {

/// Where a file acquired at `added_at` goes into `sorted`: before the first
/// file that is not older than it.
pub open spec fn insertion_point(sorted: Seq<FileView>, added_at: int) -> int
    decreases sorted.len(),
{
    if sorted.len() == 0 || added_at <= sorted[0].added_at {
        0
    } else {
        1 + insertion_point(sorted.drop_first(), added_at)
    }
}

/// The files ordered by acquisition time, oldest first. Files acquired at the
/// same time keep the order they had.
pub open spec fn oldest_first(files: Seq<FileView>) -> Seq<FileView>
    decreases files.len(),
{
    if files.len() == 0 {
        files
    } else {
        let rest = oldest_first(files.drop_first());
        rest.insert(insertion_point(rest, files[0].added_at), files[0])
    }
}

/// How many files must leave a cache of `len` files.
pub open spec fn excess(len: nat) -> nat {
    if len > WALLPAPER_CACHE_LIMIT {
        (len - WALLPAPER_CACHE_LIMIT) as nat
    } else {
        0
    }
}

/// The files that eviction removes, in the order in which they leave.
pub open spec fn evicted(files: Seq<FileView>) -> Seq<FileView> {
    if files.len() <= WALLPAPER_CACHE_LIMIT {
        Seq::empty()
    } else {
        oldest_first(files).take(excess(files.len()) as int)
    }
}

/// The files that eviction keeps. A cache within its limit is left as it is.
pub open spec fn survivors(files: Seq<FileView>) -> Seq<FileView> {
    if files.len() <= WALLPAPER_CACHE_LIMIT {
        files
    } else {
        oldest_first(files).skip(excess(files.len()) as int)
    }
}

/// The paths of `files`, in the same order.
pub open spec fn paths_of(files: Seq<FileView>) -> Seq<Seq<char>> {
    files.map_values(|f: FileView| f.path)
}

/// File `i` leaves before file `j`: it is older, or as old and earlier in
/// the cache.
pub open spec fn leaves_before(files: Seq<FileView>, i: int, j: int) -> bool {
    files[i].added_at < files[j].added_at || (files[i].added_at == files[j].added_at && i < j)
}

/// `after` holds the files of `before`, file `order[k]` at place `k`, and
/// each file leaves before the ones behind it.
pub open spec fn arranges_by_age(before: Seq<FileView>, after: Seq<FileView>, order: Seq<int>) -> bool {
    &&& order.len() == before.len()
    &&& after.len() == before.len()
    &&& forall|k: int| 0 <= k < order.len() ==> 0 <= #[trigger] order[k] < before.len()
    &&& forall|k: int| 0 <= k < order.len() ==> #[trigger] after[k] == before[order[k]]
    &&& forall|k: int, l: int|
        0 <= k < l < order.len() ==> leaves_before(before, #[trigger] order[k], #[trigger] order[l])
}

/// No file stands before an older one.
pub open spec fn age_sorted(files: Seq<FileView>) -> bool {
    forall|i: int, j: int|
        0 <= i <= j < files.len() ==> (#[trigger] files[i]).added_at <= (#[trigger] files[j]).added_at
}

proof fn lemma_insertion_point(sorted: Seq<FileView>, added_at: int)
    ensures
        0 <= insertion_point(sorted, added_at) <= sorted.len(),
        forall|k: int|
            0 <= k < insertion_point(sorted, added_at) ==> (#[trigger] sorted[k]).added_at < added_at,
        insertion_point(sorted, added_at) < sorted.len() ==> added_at
            <= sorted[insertion_point(sorted, added_at)].added_at,
    decreases sorted.len(),
{
    if sorted.len() > 0 && added_at > sorted[0].added_at {
        let rest = sorted.drop_first();
        lemma_insertion_point(rest, added_at);
        let p = insertion_point(rest, added_at);
        assert forall|k: int| 0 <= k < p + 1 implies (#[trigger] sorted[k]).added_at < added_at by {
            if k > 0 {
                assert(sorted[k] == rest[k - 1]);
            }
        }
    }
}

/// The length of the ordered files is that of the files.
pub proof fn lemma_oldest_first_len(files: Seq<FileView>)
    ensures
        oldest_first(files).len() == files.len(),
    decreases files.len(),
{
    if files.len() > 0 {
        let rest = oldest_first(files.drop_first());
        lemma_oldest_first_len(files.drop_first());
        lemma_insertion_point(rest, files[0].added_at);
    }
}

/// `oldest_first` is a stable sort by acquisition time: it rearranges the
/// files so that each leaves before the ones behind it. The result is the
/// rearrangement.
pub proof fn lemma_oldest_first_arranges(files: Seq<FileView>) -> (order: Seq<int>)
    ensures
        arranges_by_age(files, oldest_first(files), order),
    decreases files.len(),
{
    if files.len() == 0 {
        Seq::empty()
    } else {
        let tail = files.drop_first();
        let rest = oldest_first(tail);
        let inner = lemma_oldest_first_arranges(tail);
        let first = files[0];
        let p = insertion_point(rest, first.added_at);
        lemma_insertion_point(rest, first.added_at);
        // The first file enters the ordered rest at place `p`; the files of
        // the rest keep their places among themselves, one index further on.
        let after = rest.insert(p, first);
        let order = inner.map_values(|x: int| x + 1).insert(p, 0int);
        assert forall|k: int| 0 <= k < order.len() implies 0 <= #[trigger] order[k] < files.len()
            && after[k] == files[order[k]] by {}
        assert forall|k: int, l: int| 0 <= k < l < order.len() implies leaves_before(
            files,
            #[trigger] order[k],
            #[trigger] order[l],
        ) by {}
        order
    }
}

/// An arrangement by age names every file of the cache: each index stands
/// at some place of `order`.
proof fn lemma_arrangement_names_every_file(before: Seq<FileView>, after: Seq<FileView>, order: Seq<int>, i: int) -> (k:
    int)
    requires
        arranges_by_age(before, after, order),
        0 <= i < before.len(),
    ensures
        0 <= k < order.len(),
        order[k] == i,
{
    assert forall|a: int, b: int| 0 <= a < order.len() && 0 <= b < order.len() && a != b implies order[a]
        != order[b] by {
        if a < b {
            assert(leaves_before(before, order[a], order[b]));
        } else {
            assert(leaves_before(before, order[b], order[a]));
        }
    }
    order.unique_seq_to_set();
    let all = set_int_range(0, before.len() as int);
    lemma_int_range(0, before.len() as int);
    assert(order.to_set().subset_of(all)) by {
        assert forall|x: int| order.to_set().contains(x) implies all.contains(x) by {
            let k = choose|k: int| 0 <= k < order.len() && order[k] == x;
            assert(0 <= order[k] < before.len());
        }
    }
    lemma_len_subset(order.to_set(), all);
    lemma_subset_equality(order.to_set(), all);
    assert(all.contains(i));
    choose|k: int| 0 <= k < order.len() && order[k] == i
}

/// There is one arrangement by age only: the order of the files after a
/// stable sort is determined by the files before it.
pub proof fn lemma_arrangement_is_unique(
    before: Seq<FileView>,
    first: Seq<FileView>,
    first_order: Seq<int>,
    second: Seq<FileView>,
    second_order: Seq<int>,
)
    requires
        arranges_by_age(before, first, first_order),
        arranges_by_age(before, second, second_order),
    ensures
        first_order == second_order,
        first == second,
{
    assert forall|k: int| 0 <= k < before.len() implies first_order[k] == second_order[k] by {
        lemma_orders_agree(before, first, first_order, second, second_order, k);
    }
    assert(first_order =~= second_order);
    assert forall|k: int| 0 <= k < before.len() implies first[k] == second[k] by {
        assert(first[k] == before[first_order[k]]);
        assert(second[k] == before[second_order[k]]);
    }
}

proof fn lemma_orders_agree(
    before: Seq<FileView>,
    first: Seq<FileView>,
    first_order: Seq<int>,
    second: Seq<FileView>,
    second_order: Seq<int>,
    k: int,
)
    requires
        arranges_by_age(before, first, first_order),
        arranges_by_age(before, second, second_order),
        0 <= k < before.len(),
    ensures
        first_order[k] == second_order[k],
    decreases k,
{
    assert forall|m: int| 0 <= m < k implies first_order[m] == second_order[m] by {
        lemma_orders_agree(before, first, first_order, second, second_order, m);
    }
    let x = first_order[k];
    let y = second_order[k];
    if x != y {
        let in_second = lemma_arrangement_names_every_file(before, second, second_order, x);
        let in_first = lemma_arrangement_names_every_file(before, first, first_order, y);
        if in_second < k {
            assert(leaves_before(before, first_order[in_second], first_order[k]));
        } else if in_first < k {
            assert(leaves_before(before, second_order[in_first], second_order[k]));
        } else {
            assert(leaves_before(before, second_order[k], second_order[in_second]));
            assert(leaves_before(before, first_order[k], first_order[in_first]));
        }
    }
}

/// An arrangement by age is sorted by age.
pub proof fn lemma_arranged_is_sorted(before: Seq<FileView>, after: Seq<FileView>, order: Seq<int>)
    requires
        arranges_by_age(before, after, order),
    ensures
        age_sorted(after),
{
    assert forall|i: int, j: int| 0 <= i <= j < after.len() implies (#[trigger] after[i]).added_at <= (
    #[trigger] after[j]).added_at by {
        if i < j {
            assert(leaves_before(before, order[i], order[j]));
        }
    }
}

/// The ordered files are sorted by age.
pub proof fn lemma_oldest_first_sorted(files: Seq<FileView>)
    ensures
        age_sorted(oldest_first(files)),
{
    let order = lemma_oldest_first_arranges(files);
    lemma_arranged_is_sorted(files, oldest_first(files), order);
}

proof fn lemma_insertion_point_found(sorted: Seq<FileView>, added_at: int, p: int)
    requires
        0 <= p <= sorted.len(),
        forall|k: int| 0 <= k < p ==> (#[trigger] sorted[k]).added_at < added_at,
        p < sorted.len() ==> added_at <= sorted[p].added_at,
    ensures
        insertion_point(sorted, added_at) == p,
    decreases sorted.len(),
{
    if p > 0 {
        let rest = sorted.drop_first();
        assert forall|k: int| 0 <= k < p - 1 implies (#[trigger] rest[k]).added_at < added_at by {
            assert(rest[k] == sorted[k + 1]);
        }
        lemma_insertion_point_found(rest, added_at, p - 1);
    }
}

/// The place at which a file acquired at `added_at` enters `sorted`.
fn find_insertion_point(sorted: &Vec<WallpaperFile>, added_at: i64) -> (p: usize)
    ensures
        p == insertion_point(file_views(sorted@), added_at as int),
        p <= sorted.len(),
{
    let mut p: usize = 0;
    while p < sorted.len() && sorted[p].added_at < added_at
        invariant
            p <= sorted.len(),
            forall|k: int| 0 <= k < p ==> (#[trigger] file_views(sorted@)[k]).added_at < added_at,
        decreases sorted.len() - p,
    {
        p = p + 1;
    }
    proof {
        lemma_insertion_point_found(file_views(sorted@), added_at as int, p as int);
    }
    p
}

/// Orders the files by acquisition time, oldest first, keeping files of one
/// age in the order they had.
pub fn sort_oldest_first(files: &mut Vec<WallpaperFile>)
    ensures
        file_views(final(files)@) == oldest_first(file_views(old(files)@)),
{
    let ghost orig = file_views(files@);
    let mut sorted: Vec<WallpaperFile> = Vec::new();
    assert(orig.skip(files.len() as int) =~= Seq::empty());
    assert(file_views(sorted@) =~= Seq::empty());
    while files.len() > 0
        invariant
            files.len() <= orig.len(),
            file_views(files@) == orig.take(files.len() as int),
            file_views(sorted@) == oldest_first(orig.skip(files.len() as int)),
        decreases files.len(),
    {
        let ghost n = files.len() as int;
        let ghost before = file_views(files@);
        let file = files.pop().unwrap();
        let p = find_insertion_point(&sorted, file.added_at);
        sorted.insert(p, file);
        proof {
            assert(file@ == before[n - 1]);
            assert(orig.skip(n - 1).drop_first() =~= orig.skip(n));
        }
    }
    *files = sorted;
}

/// Trims the cache to its limit. While more files are held than the limit
/// allows, the oldest by acquisition time leaves; the paths of the files that
/// left are returned, in that order, so that their bytes can be deleted.
pub fn enforce_wallpaper_limit(state: &mut WallpaperState) -> (removed: Vec<String>)
    ensures
        final(state)@ == (StateView { files: survivors(old(state)@.files), ..old(state)@ }),
        texts(removed@) == paths_of(evicted(old(state)@.files)),
{
    let mut removed: Vec<String> = Vec::new();
    let ghost orig = state@.files;
    if state.files.len() <= WALLPAPER_CACHE_LIMIT {
        return removed;
    }
    sort_oldest_first(&mut state.files);
    let ghost sorted = oldest_first(orig);
    proof {
        lemma_oldest_first_len(orig);
    }
    while state.files.len() > WALLPAPER_CACHE_LIMIT
        invariant
            orig == old(state)@.files,
            sorted == oldest_first(orig),
            sorted.len() == orig.len(),
            orig.len() > WALLPAPER_CACHE_LIMIT,
            state.files.len() >= WALLPAPER_CACHE_LIMIT,
            removed.len() + state.files.len() == sorted.len(),
            file_views(state.files@) == sorted.skip(removed.len() as int),
            texts(removed@) == paths_of(sorted.take(removed.len() as int)),
            state.next_source_index == old(state).next_source_index,
            state.next_show_index == old(state).next_show_index,
            state.last_download_at == old(state).last_download_at,
            state.last_batch_at == old(state).last_batch_at,
        decreases state.files.len(),
    {
        let ghost k = removed.len() as int;
        let ghost held = file_views(state.files@);
        let ghost gone = texts(removed@);
        let oldest = state.files.remove(0);
        assert(oldest@ == held[0]);
        removed.push(oldest.path);
        proof {
            assert(file_views(state.files@) =~= held.remove(0));
            assert(texts(removed@) =~= gone.push(sorted[k].path));
        }
    }
    removed
}

/// Eviction never leaves more files than the limit, and removes exactly as
/// many as the cache held above it.
pub proof fn lemma_eviction_counts(files: Seq<FileView>)
    ensures
        survivors(files).len() <= WALLPAPER_CACHE_LIMIT,
        evicted(files).len() == excess(files.len()),
        evicted(files).len() + survivors(files).len() == files.len(),
        files.len() >= WALLPAPER_CACHE_LIMIT ==> survivors(files).len() == WALLPAPER_CACHE_LIMIT,
{
    lemma_oldest_first_len(files);
}

/// Eviction takes the oldest files: no file that leaves was acquired after
/// one that stays, and the files leave oldest first.
pub proof fn lemma_eviction_takes_oldest(files: Seq<FileView>)
    ensures
        forall|i: int, j: int|
            0 <= i < evicted(files).len() && 0 <= j < survivors(files).len() ==> (
            #[trigger] evicted(files)[i]).added_at <= (#[trigger] survivors(files)[j]).added_at,
        age_sorted(evicted(files)),
{
    lemma_oldest_first_len(files);
    lemma_oldest_first_sorted(files);
    let sorted = oldest_first(files);
    let n = excess(files.len()) as int;
    if files.len() > WALLPAPER_CACHE_LIMIT {
        assert forall|i: int, j: int|
            0 <= i < evicted(files).len() && 0 <= j < survivors(files).len() implies (
        #[trigger] evicted(files)[i]).added_at <= (#[trigger] survivors(files)[j]).added_at by {
            assert(evicted(files)[i] == sorted[i]);
            assert(survivors(files)[j] == sorted[n + j]);
        }
        assert forall|i: int, j: int| 0 <= i <= j < evicted(files).len() implies (
        #[trigger] evicted(files)[i]).added_at <= (#[trigger] evicted(files)[j]).added_at by {
            assert(evicted(files)[i] == sorted[i]);
            assert(evicted(files)[j] == sorted[j]);
        }
    }
}

/// Eviction neither invents nor loses a file: the files that leave, followed
/// by those that stay, are the files of the cache rearranged by age. The
/// result is the rearrangement.
pub proof fn lemma_eviction_rearranges(files: Seq<FileView>) -> (order: Seq<int>)
    requires
        files.len() > WALLPAPER_CACHE_LIMIT,
    ensures
        arranges_by_age(files, evicted(files) + survivors(files), order),
{
    let order = lemma_oldest_first_arranges(files);
    lemma_oldest_first_len(files);
    order
}

/// Every file that stays was in the cache before.
pub proof fn lemma_survivors_come_from_cache(files: Seq<FileView>, j: int) -> (i: int)
    requires
        0 <= j < survivors(files).len(),
    ensures
        0 <= i < files.len(),
        survivors(files)[j] == files[i],
{
    if files.len() <= WALLPAPER_CACHE_LIMIT {
        j
    } else {
        let order = lemma_oldest_first_arranges(files);
        lemma_oldest_first_len(files);
        order[excess(files.len()) + j]
    }
}

/// Eviction keeps the cache free of duplicate sources.
pub proof fn lemma_eviction_keeps_sources_unique(files: Seq<FileView>)
    requires
        unique_sources(files),
    ensures
        unique_sources(survivors(files)),
{
    if files.len() > WALLPAPER_CACHE_LIMIT {
        let order = lemma_oldest_first_arranges(files);
        lemma_oldest_first_len(files);
        let n = excess(files.len()) as int;
        let kept = survivors(files);
        assert forall|a: int, b: int| 0 <= a < b < kept.len() implies (#[trigger] kept[a]).source_url != (
        #[trigger] kept[b]).source_url by {
            assert(kept[a] == files[order[n + a]]);
            assert(kept[b] == files[order[n + b]]);
            assert(leaves_before(files, order[n + a], order[n + b]));
        }
    }
}

} // verus!
