//! The cache's durable data: one record per acquired image and the state that
//! holds them, each with its mathematical view.

use vstd::prelude::*;

verus! {

/// Largest number of files the cache keeps.
pub const WALLPAPER_CACHE_LIMIT: usize = 30;

/// Number of new files one scheduled batch tries to add.
pub const WALLPAPER_BATCH_SIZE: usize = 10;

/// Seconds between two scheduled batches: seven days.
pub const WALLPAPER_BATCH_INTERVAL_SECS: i64 = 604800;

/// Seconds that must lie between two download rounds.
pub const WALLPAPER_MIN_INTERVAL_SECS: i64 = 1;

/// Smallest acceptable image width, in pixels.
pub const WALLPAPER_MIN_WIDTH: u32 = 1920;

/// One acquired image.
#[derive(Debug, PartialEq, Eq)]
pub struct WallpaperFile {
    /// Where the downloaded bytes are stored.
    pub path: String,
    /// When the image was acquired, in seconds.
    pub added_at: i64,
    /// Where the bytes came from; the key for deduplication.
    pub source_url: String,
    /// When the image was last shown, in seconds; `0` means never.
    pub last_shown_at: i64,
}

/// What a [`WallpaperFile`] holds, as plain mathematical values.
pub struct FileView {
    pub path: Seq<char>,
    pub added_at: int,
    pub source_url: Seq<char>,
    pub last_shown_at: int,
}

impl View for WallpaperFile {
    type V = FileView;

    open spec fn view(&self) -> FileView {
        FileView {
            path: self.path@,
            added_at: self.added_at as int,
            source_url: self.source_url@,
            last_shown_at: self.last_shown_at as int,
        }
    }
}

/// The whole durable cache.
#[derive(Debug, PartialEq, Eq)]
pub struct WallpaperState {
    /// The cached files. Their order carries no meaning.
    pub files: Vec<WallpaperFile>,
    /// Kept for older documents; nothing reads it.
    pub next_source_index: usize,
    /// Kept for older documents; nothing reads it.
    pub next_show_index: usize,
    /// When the last download succeeded, in seconds.
    pub last_download_at: i64,
    /// When the last scheduled batch completed, in seconds.
    pub last_batch_at: i64,
}

/// What a [`WallpaperState`] holds, as plain mathematical values.
pub struct StateView {
    pub files: Seq<FileView>,
    pub next_source_index: nat,
    pub next_show_index: nat,
    pub last_download_at: int,
    pub last_batch_at: int,
}

/// The views of a sequence of files, in the same order.
pub open spec fn file_views(files: Seq<WallpaperFile>) -> Seq<FileView> {
    files.map_values(|f: WallpaperFile| f@)
}

impl View for WallpaperState {
    type V = StateView;

    open spec fn view(&self) -> StateView {
        StateView {
            files: file_views(self.files@),
            next_source_index: self.next_source_index as nat,
            next_show_index: self.next_show_index as nat,
            last_download_at: self.last_download_at as int,
            last_batch_at: self.last_batch_at as int,
        }
    }
}

/// No two files come from the same source.
pub open spec fn unique_sources(files: Seq<FileView>) -> bool {
    forall|i: int, j: int|
        0 <= i < j < files.len() ==> (#[trigger] files[i]).source_url != (#[trigger] files[j]).source_url
}

/// Some file in `files` comes from `url`.
pub open spec fn has_source(files: Seq<FileView>, url: Seq<char>) -> bool {
    exists|i: int| 0 <= i < files.len() && (#[trigger] files[i]).source_url == url
}

/// The files after an attempt to add `file`: a file from a new source goes
/// to the end, a file from a source that is cached already is turned down.
pub open spec fn with_file(files: Seq<FileView>, file: FileView) -> Seq<FileView> {
    if has_source(files, file.source_url) {
        files
    } else {
        files.push(file)
    }
}

/// Adding a file never makes a duplicate: a cache with unique sources keeps
/// them unique, whatever file is offered.
pub proof fn lemma_adding_keeps_sources_unique(files: Seq<FileView>, file: FileView)
    requires
        unique_sources(files),
    ensures
        unique_sources(with_file(files, file)),
{
    if !has_source(files, file.source_url) {
        let after = files.push(file);
        assert forall|i: int, j: int| 0 <= i < j < after.len() implies (#[trigger] after[i]).source_url != (
        #[trigger] after[j]).source_url by {
            if j < files.len() {
                assert(after[j] == files[j]);
            }
        }
    }
}

impl StateView {
    /// The state a cache starts from: no files, every counter and time zero.
    pub open spec fn empty() -> StateView {
        StateView {
            files: Seq::empty(),
            next_source_index: 0,
            next_show_index: 0,
            last_download_at: 0,
            last_batch_at: 0,
        }
    }

    /// The invariant of a cache: every source occurs once.
    pub open spec fn well_formed(self) -> bool {
        unique_sources(self.files)
    }
}

impl WallpaperFile {
    /// A record for a file that was just acquired and never shown.
    pub fn new(path: String, source_url: String, added_at: i64) -> (file: WallpaperFile)
        ensures
            file@ == (FileView {
                path: path@,
                added_at: added_at as int,
                source_url: source_url@,
                last_shown_at: 0,
            }),
    {
        WallpaperFile { path, added_at, source_url, last_shown_at: 0 }
    }
}

impl WallpaperState {
    /// The empty cache.
    pub fn new() -> (state: WallpaperState)
        ensures
            state@ == StateView::empty(),
            state@.well_formed(),
            state.files@.len() == 0,
    {
        let state = WallpaperState {
            files: Vec::new(),
            next_source_index: 0,
            next_show_index: 0,
            last_download_at: 0,
            last_batch_at: 0,
        };
        assert(state@.files =~= Seq::empty());
        state
    }

    /// Whether a file from `url` is already cached.
    pub fn contains_source(&self, url: &str) -> (found: bool)
        ensures
            found == has_source(self@.files, url@),
    {
        let key: String = url.to_owned();
        let mut i: usize = 0;
        while i < self.files.len()
            invariant
                i <= self.files.len(),
                key@ == url@,
                forall|k: int| 0 <= k < i ==> (#[trigger] self@.files[k]).source_url != url@,
            decreases self.files.len() - i,
        {
            if self.files[i].source_url == key {
                assert(self@.files[i as int].source_url == url@);
                return true;
            }
            i = i + 1;
        }
        false
    }
}

impl WallpaperState {
    /// Adds `file` unless a file from its source is cached already, and says
    /// whether it was added.
    pub fn add_file(&mut self, file: WallpaperFile) -> (added: bool)
        ensures
            added == !has_source(old(self)@.files, file@.source_url),
            final(self)@ == (StateView { files: with_file(old(self)@.files, file@), ..old(self)@ }),
            old(self)@.well_formed() ==> final(self)@.well_formed(),
    {
        if self.contains_source(file.source_url.as_str()) {
            return false;
        }
        proof {
            if self@.well_formed() {
                lemma_adding_keeps_sources_unique(self@.files, file@);
            }
        }
        let ghost before = self@.files;
        self.files.push(file);
        assert(self@.files =~= before.push(file@));
        true
    }
}

impl Clone for WallpaperFile {
    fn clone(&self) -> (copy: WallpaperFile)
        ensures
            copy == *self,
    {
        WallpaperFile {
            path: self.path.clone(),
            added_at: self.added_at,
            source_url: self.source_url.clone(),
            last_shown_at: self.last_shown_at,
        }
    }
}

impl Clone for WallpaperState {
    fn clone(&self) -> (copy: WallpaperState)
        ensures
            copy@ == self@,
            copy.files@ == self.files@,
    {
        let mut files: Vec<WallpaperFile> = Vec::new();
        let mut i: usize = 0;
        while i < self.files.len()
            invariant
                i <= self.files.len(),
                files@ == self.files@.take(i as int),
            decreases self.files.len() - i,
        {
            files.push(self.files[i].clone());
            i = i + 1;
        }
        assert(files@ =~= self.files@);
        WallpaperState {
            files,
            next_source_index: self.next_source_index,
            next_show_index: self.next_show_index,
            last_download_at: self.last_download_at,
            last_batch_at: self.last_batch_at,
        }
    }
}

impl Default for WallpaperState {
    fn default() -> (state: WallpaperState)
        ensures
            state@ == StateView::empty(),
    {
        WallpaperState::new()
    }
}

} // verus!
