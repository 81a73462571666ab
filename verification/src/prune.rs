//! Pruning: dropping the records whose file is no longer on disk.

use vstd::prelude::*;
use crate::model::{file_views, unique_sources, FileView, StateView, WallpaperState};

verus! {

/// Whether file `i` stays: its flag says it is present. A file without a
/// flag stays, since nothing says that it is gone.
pub open spec fn stays(present: Seq<bool>, i: int) -> bool {
    i >= present.len() || present[i]
}

/// Of the first `n` files, those that stay, in their order.
pub open spec fn kept(files: Seq<FileView>, present: Seq<bool>, n: int) -> Seq<FileView>
    decreases n,
{
    if n <= 0 {
        Seq::empty()
    } else if stays(present, n - 1) {
        kept(files, present, n - 1).push(files[n - 1])
    } else {
        kept(files, present, n - 1)
    }
}

/// The files that pruning keeps.
pub open spec fn pruned(files: Seq<FileView>, present: Seq<bool>) -> Seq<FileView> {
    kept(files, present, files.len() as int)
}

/// The cache with the files pruned that `present` says are gone.
pub open spec fn pruned_state(state: StateView, present: Seq<bool>) -> StateView {
    StateView { files: pruned(state.files, present), ..state }
}

/// `places` lists, in rising order, exactly the indices below `n` of the
/// files that stay.
pub open spec fn lists_stayers(present: Seq<bool>, n: int, places: Seq<int>) -> bool {
    &&& forall|k: int| 0 <= k < places.len() ==> 0 <= #[trigger] places[k] < n && stays(present, places[k])
    &&& forall|k: int, l: int| 0 <= k < l < places.len() ==> #[trigger] places[k] < #[trigger] places[l]
    &&& forall|i: int|
        0 <= i < n && #[trigger] stays(present, i) ==> exists|k: int|
            0 <= k < places.len() && #[trigger] places[k] == i
}

/// Pruning removes exactly the files that are gone and leaves every other
/// file as it was, in its order: the files kept are the files at the indices
/// that stay. The result lists those indices.
pub proof fn lemma_kept_exact(files: Seq<FileView>, present: Seq<bool>, n: int) -> (places: Seq<int>)
    requires
        0 <= n <= files.len(),
    ensures
        lists_stayers(present, n, places),
        places.len() == kept(files, present, n).len(),
        forall|k: int| 0 <= k < places.len() ==> #[trigger] kept(files, present, n)[k] == files[places[k]],
    decreases n,
{
    if n == 0 {
        Seq::empty()
    } else {
        let inner = lemma_kept_exact(files, present, n - 1);
        if stays(present, n - 1) {
            let places = inner.push(n - 1);
            assert forall|i: int| 0 <= i < n && #[trigger] stays(present, i) implies exists|k: int|
                0 <= k < places.len() && #[trigger] places[k] == i by {
                if i < n - 1 {
                    let k = choose|k: int| 0 <= k < inner.len() && #[trigger] inner[k] == i;
                    assert(places[k] == i);
                } else {
                    assert(places[inner.len() as int] == i);
                }
            }
            places
        } else {
            assert forall|i: int| 0 <= i < n && #[trigger] stays(present, i) implies exists|k: int|
                0 <= k < inner.len() && #[trigger] inner[k] == i by {
                assert(i < n - 1);
            }
            inner
        }
    }
}

/// Pruning keeps the cache free of duplicate sources.
pub proof fn lemma_pruning_keeps_sources_unique(files: Seq<FileView>, present: Seq<bool>)
    requires
        unique_sources(files),
    ensures
        unique_sources(pruned(files, present)),
{
    let places = lemma_kept_exact(files, present, files.len() as int);
    let rest = pruned(files, present);
    assert forall|a: int, b: int| 0 <= a < b < rest.len() implies (#[trigger] rest[a]).source_url != (
    #[trigger] rest[b]).source_url by {
        assert(rest[a] == files[places[a]]);
        assert(rest[b] == files[places[b]]);
        assert(places[a] < places[b]);
    }
}

/// Drops the files whose flag in `present` is false; `present[i]` speaks of
/// file `i`. The other files stay as they are, in their order.
pub fn retain_present(state: &mut WallpaperState, present: &Vec<bool>)
    ensures
        final(state)@ == pruned_state(old(state)@, present@),
{
    let ghost orig = state@.files;
    let total = state.files.len();
    let mut at: usize = 0;
    let mut seen: usize = 0;
    while seen < total
        invariant
            orig == old(state)@.files,
            total == orig.len(),
            seen <= total,
            at <= seen,
            at == kept(orig, present@, seen as int).len(),
            file_views(state.files@) == kept(orig, present@, seen as int) + orig.skip(seen as int),
            state.next_source_index == old(state).next_source_index,
            state.next_show_index == old(state).next_show_index,
            state.last_download_at == old(state).last_download_at,
            state.last_batch_at == old(state).last_batch_at,
        decreases total - seen,
    {
        let ghost held = file_views(state.files@);
        let ghost front = kept(orig, present@, seen as int);
        assert(held.len() == front.len() + (total - seen));
        let keep = seen >= present.len() || present[seen];
        if keep {
            at = at + 1;
        } else {
            state.files.remove(at);
            assert(file_views(state.files@) =~= held.remove(at as int));
        }
        seen = seen + 1;
    }
}

/// Asks `std::path::Path::exists` whether something stands at `path`.
/// Nothing is claimed of the answer: it depends on what is on disk when the
/// call is made.
#[verifier::external_body]
fn path_exists(path: &str) -> (found: bool) {
    std::path::Path::new(path).exists()
}

/// Drops the records whose file is not on disk at the moment of the call.
/// Which files those are is not known in advance; whichever they are, the
/// cache is pruned by them as `retain_present` prunes.
pub fn prune_missing_files(state: &mut WallpaperState)
    ensures
        exists|present: Seq<bool>|
            present.len() == old(state)@.files.len() && final(state)@ == #[trigger] pruned_state(
                old(state)@,
                present,
            ),
{
    let mut present: Vec<bool> = Vec::new();
    let mut i: usize = 0;
    while i < state.files.len()
        invariant
            i <= state.files.len(),
            present.len() == i,
            *state == *old(state),
        decreases state.files.len() - i,
    {
        let found = path_exists(state.files[i].path.as_str());
        present.push(found);
        i = i + 1;
    }
    retain_present(state, &present);
}

} // verus!
