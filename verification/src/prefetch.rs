//! The refill session: the decisions of one download round, as a state
//! machine. The session says what to fetch or store next; the caller does
//! it and reports what came of it. No failure ends the round: a failed step
//! moves on to the next candidate or the next attempt.

use vstd::prelude::*;
use crate::clock::{elapsed, elapsed_since};
use crate::extract::{
    extract_jpg_urls, extract_light_ids, extract_upload_urls, page_ids, page_images, page_uploads,
};
use crate::model::{
    has_source, lemma_adding_keeps_sources_unique, unique_sources, FileView, StateView, WallpaperFile,
    WallpaperState, WALLPAPER_MIN_INTERVAL_SECS,
};
use crate::naming::{default_hash, detail_address, detail_url, file_name, file_name_for, str_hash};
use crate::text::{text_of, texts};
use crate::validate::{judgement, sniffed_dimensions, validate_image};

verus! {

/// What the session asks its caller to do next.
#[derive(Debug)]
pub enum Step {
    /// Fetch a listing page and report it with `on_listing`.
    Listing,
    /// Fetch the detail page at `url` and report it with `on_detail`.
    Detail { url: String },
    /// Fetch the bytes at `url` and report them with `on_image`.
    Image { url: String },
    /// Write the bytes last fetched to a file named `file_name` and report
    /// its path with `on_stored`.
    Store { source_url: String, file_name: String },
    /// Nothing: the round is over.
    Done,
}

/// What a [`Step`] holds, as plain mathematical values.
pub enum StepView {
    Listing,
    Detail { url: Seq<char> },
    Image { url: Seq<char> },
    Store { source_url: Seq<char>, file_name: Seq<char> },
    Done,
}

impl View for Step {
    type V = StepView;

    open spec fn view(&self) -> StepView {
        match self {
            Step::Listing => StepView::Listing,
            Step::Detail { url } => StepView::Detail { url: url@ },
            Step::Image { url } => StepView::Image { url: url@ },
            Step::Store { source_url, file_name } => StepView::Store {
                source_url: source_url@,
                file_name: file_name@,
            },
            Step::Done => StepView::Done,
        }
    }
}

/// One download round.
pub struct Prefetch {
    step: Step,
    now: i64,
    target: usize,
    max_attempts: usize,
    attempts: usize,
    added: usize,
    from_detail: bool,
    detail: Vec<String>,
    detail_pos: usize,
    uploads: Vec<String>,
    upload_pos: usize,
}

/// What a [`Prefetch`] holds, as plain mathematical values.
pub struct PrefetchView {
    /// What the caller is to do next.
    pub step: StepView,
    /// The time of the round; new files are stamped with it.
    pub now: int,
    /// How many files the round tries to add.
    pub target: nat,
    /// How many listing pages the round may fetch.
    pub max_attempts: nat,
    /// How many listing pages the round has asked for.
    pub attempts: nat,
    /// How many files the round has added.
    pub added: nat,
    /// Whether the candidate in hand came from a detail page.
    pub from_detail: bool,
    /// The image links of the detail page that are still to be tried.
    pub detail: Seq<Seq<char>>,
    /// The upload links of the listing page that are still to be tried.
    pub uploads: Seq<Seq<char>>,
}

/// The number of listing pages a round with this target may fetch: six per
/// file wanted, at least twelve, and no more than a `usize` holds.
pub open spec fn attempt_budget(target: nat) -> nat {
    if target * 6 > usize::MAX {
        usize::MAX as nat
    } else if target * 6 < 12 {
        12
    } else {
        target * 6
    }
}

/// Whether a download round may start at `now`: downloads are allowed and
/// the minimum interval has passed since the last download.
pub open spec fn may_download(state: StateView, allow_download: bool, now: int) -> bool {
    allow_download && elapsed(now, state.last_download_at) >= WALLPAPER_MIN_INTERVAL_SECS
}

/// Whether the fetched bytes are an acceptable image; a failed fetch is not.
pub open spec fn image_accepted(bytes: Option<Seq<u8>>) -> bool {
    match bytes {
        Some(content) => judgement(sniffed_dimensions(content)) is Ok,
        None => false,
    }
}

/// What optional bytes hold.
pub open spec fn bytes_of(bytes: Option<&[u8]>) -> Option<Seq<u8>> {
    match bytes {
        Some(content) => Some(content@),
        None => None,
    }
}

/// The hash of the address of the candidate in hand, if there is one.
pub open spec fn candidate_hash(step: StepView) -> u64 {
    match step {
        StepView::Image { url } => str_hash(url),
        _ => 0,
    }
}

/// The record of a file stored at `path` in a round at time `now`.
pub open spec fn new_file(path: Seq<char>, source_url: Seq<char>, now: int) -> FileView {
    FileView { path, added_at: now, source_url, last_shown_at: 0 }
}

impl PrefetchView {
    /// The invariant of a session: the attempts stay within the budget and
    /// the files added within the target, and while the round goes on it has
    /// asked for a listing page and has not reached its target.
    pub open spec fn wf(self) -> bool {
        &&& self.attempts <= self.max_attempts
        &&& self.added <= self.target
        &&& self.step !is Done ==> 1 <= self.attempts && self.added < self.target
    }

    /// The next attempt: another listing page while attempts and target
    /// allow, else the end of the round.
    pub open spec fn next_attempt(self) -> PrefetchView {
        if self.attempts < self.max_attempts && self.added < self.target {
            PrefetchView {
                step: StepView::Listing,
                attempts: self.attempts + 1,
                from_detail: false,
                detail: Seq::empty(),
                uploads: Seq::empty(),
                ..self
            }
        } else {
            PrefetchView {
                step: StepView::Done,
                from_detail: false,
                detail: Seq::empty(),
                uploads: Seq::empty(),
                ..self
            }
        }
    }

    /// The next upload link, or the next attempt when none is left. What was
    /// left of a detail page is given up.
    pub open spec fn next_upload(self) -> PrefetchView {
        if self.uploads.len() == 0 {
            self.next_attempt()
        } else {
            PrefetchView {
                step: StepView::Image { url: self.uploads[0] },
                from_detail: false,
                detail: Seq::empty(),
                uploads: self.uploads.drop_first(),
                ..self
            }
        }
    }

    /// The next image link of the detail page, or the upload links when none
    /// is left.
    pub open spec fn next_detail(self) -> PrefetchView {
        if self.detail.len() == 0 {
            self.next_upload()
        } else {
            PrefetchView {
                step: StepView::Image { url: self.detail[0] },
                from_detail: true,
                detail: self.detail.drop_first(),
                ..self
            }
        }
    }

    /// The next candidate from where the last one came from.
    pub open spec fn next_candidate(self) -> PrefetchView {
        if self.from_detail {
            self.next_detail()
        } else {
            self.next_upload()
        }
    }

    /// The session at the start of a round for `target` files at time `now`.
    pub open spec fn begin(state: StateView, allow_download: bool, target: nat, now: int) -> PrefetchView {
        let idle = PrefetchView {
            step: StepView::Done,
            now,
            target,
            max_attempts: attempt_budget(target),
            attempts: 0,
            added: 0,
            from_detail: false,
            detail: Seq::empty(),
            uploads: Seq::empty(),
        };
        if may_download(state, allow_download, now) {
            idle.next_attempt()
        } else {
            idle
        }
    }

    /// After a listing page that could not be fetched: the next attempt.
    pub open spec fn after_listing_failure(self) -> PrefetchView {
        if self.step is Listing {
            self.next_attempt()
        } else {
            self
        }
    }

    /// After a listing page that gave the detail ids `ids` and the upload
    /// links `uploads`. With ids, the detail page of the one that `pick`
    /// selects comes next; without, the upload links.
    pub open spec fn after_listing(self, ids: Seq<Seq<char>>, uploads: Seq<Seq<char>>, pick: nat) -> PrefetchView {
        if !(self.step is Listing) {
            self
        } else if ids.len() > 0 {
            PrefetchView {
                step: StepView::Detail { url: detail_address(ids[(pick % ids.len()) as int]) },
                from_detail: false,
                detail: Seq::empty(),
                uploads,
                ..self
            }
        } else {
            (PrefetchView { uploads, ..self }).next_upload()
        }
    }

    /// After a detail page that could not be fetched: the upload links.
    pub open spec fn after_detail_failure(self) -> PrefetchView {
        if self.step is Detail {
            self.next_upload()
        } else {
            self
        }
    }

    /// After a detail page that gave the image links `candidates`: the first
    /// of them comes next.
    pub open spec fn after_detail(self, candidates: Seq<Seq<char>>) -> PrefetchView {
        if self.step is Detail {
            (PrefetchView { detail: candidates, ..self }).next_detail()
        } else {
            self
        }
    }

    /// After the candidate in hand was fetched and judged; `cached` are the
    /// files of the cache and `hash` is the hash of the candidate's address.
    /// A candidate that was not accepted gives way to the next one. An
    /// accepted one whose source is cached already is skipped, and the upload
    /// links follow. Any other accepted one is to be stored.
    pub open spec fn after_image(self, cached: Seq<FileView>, accepted: bool, hash: u64) -> PrefetchView {
        match self.step {
            StepView::Image { url } => if !accepted {
                self.next_candidate()
            } else if has_source(cached, url) {
                self.next_upload()
            } else {
                PrefetchView {
                    step: StepView::Store { source_url: url, file_name: file_name(hash, self.now) },
                    ..self
                }
            },
            _ => self,
        }
    }

    /// Whether the report `path` of a store step adds a file to `cached`:
    /// the file was written and its source is still new.
    pub open spec fn adds_file(self, cached: Seq<FileView>, path: Option<Seq<char>>) -> bool {
        self.step matches StepView::Store { source_url, .. } && path is Some && !has_source(
            cached,
            source_url,
        )
    }

    /// The session after a store step was reported. A file that was added
    /// counts; after one from a detail page the next attempt follows, after
    /// one from an upload link the next upload link, unless the target is
    /// reached. A file that was not added leads to the upload links.
    pub open spec fn after_store(self, cached: Seq<FileView>, path: Option<Seq<char>>) -> PrefetchView {
        if !(self.step is Store) {
            self
        } else if self.adds_file(cached, path) {
            let counted = PrefetchView { added: self.added + 1, ..self };
            if self.from_detail || counted.added >= self.target {
                counted.next_attempt()
            } else {
                counted.next_upload()
            }
        } else {
            self.next_upload()
        }
    }

    /// The cache after a store step was reported: a file that was added
    /// stands at the end, never shown, and the time of the last download is
    /// that of the round.
    pub open spec fn cache_after_store(self, state: StateView, path: Option<Seq<char>>) -> StateView {
        if self.adds_file(state.files, path) {
            StateView {
                files: state.files.push(new_file(path->0, self.step->source_url, self.now)),
                last_download_at: self.now,
                ..state
            }
        } else {
            state
        }
    }
}

impl View for Prefetch {
    type V = PrefetchView;

    closed spec fn view(&self) -> PrefetchView {
        PrefetchView {
            step: self.step@,
            now: self.now as int,
            target: self.target as nat,
            max_attempts: self.max_attempts as nat,
            attempts: self.attempts as nat,
            added: self.added as nat,
            from_detail: self.from_detail,
            detail: texts(self.detail@).skip(self.detail_pos as int),
            uploads: texts(self.uploads@).skip(self.upload_pos as int),
        }
    }
}

/// Picks a number below `bound` with `rand::Rng::gen_range` on the
/// generator of the thread, as `rand::thread_rng` gives it. Every call may
/// give another number; all that is known of it is its range. An empty range
/// makes `gen_range` panic, so `bound` must not be zero.
#[verifier::external_body]
fn random_index(bound: usize) -> (index: usize)
    requires
        bound > 0,
    ensures
        index < bound,
{
    rand::Rng::gen_range(&mut rand::thread_rng(), 0..bound)
}

impl Prefetch {
    #[verifier::type_invariant]
    spec fn holds_invariant(self) -> bool {
        &&& self@.wf()
        &&& self.detail_pos <= self.detail.len()
        &&& self.upload_pos <= self.uploads.len()
    }

    /// Starts a round that tries to add `target` files at time `now`. The
    /// round is over at once when downloads are not allowed, when the last
    /// download was less than the minimum interval ago, or when the target
    /// is zero.
    pub fn begin(state: &WallpaperState, allow_download: bool, target: usize, now: i64) -> (session: Prefetch)
        ensures
            session@ == PrefetchView::begin(state@, allow_download, target as nat, now as int),
            session@.wf(),
    {
        let max_attempts: usize = match target.checked_mul(6) {
            Some(wanted) => if wanted < 12 {
                12
            } else {
                wanted
            },
            None => usize::MAX,
        };
        let mut session = Prefetch {
            step: Step::Done,
            now,
            target,
            max_attempts,
            attempts: 0,
            added: 0,
            from_detail: false,
            detail: Vec::new(),
            detail_pos: 0,
            uploads: Vec::new(),
            upload_pos: 0,
        };
        assert(session@.detail =~= Seq::empty());
        assert(session@.uploads =~= Seq::empty());
        if allow_download && elapsed_since(now, state.last_download_at) >= WALLPAPER_MIN_INTERVAL_SECS {
            session.start_attempt();
        }
        session
    }

    /// What the caller is to do next.
    pub fn step(&self) -> (step: &Step)
        ensures
            step@ == self@.step,
    {
        &self.step
    }

    /// Whether the round is over.
    pub fn is_done(&self) -> (done: bool)
        ensures
            done == (self@.step is Done),
    {
        match self.step {
            Step::Done => true,
            _ => false,
        }
    }

    /// How many listing pages the round has asked for.
    pub fn attempts(&self) -> (attempts: usize)
        ensures
            attempts == self@.attempts,
    {
        self.attempts
    }

    /// How many listing pages the round may ask for.
    pub fn max_attempts(&self) -> (max_attempts: usize)
        ensures
            max_attempts == self@.max_attempts,
    {
        self.max_attempts
    }

    /// How many files the round has added.
    pub fn added(&self) -> (added: usize)
        ensures
            added == self@.added,
    {
        self.added
    }

    /// How many files the round tries to add.
    pub fn target(&self) -> (target: usize)
        ensures
            target == self@.target,
    {
        self.target
    }

    /// The time of the round.
    pub fn now(&self) -> (now: i64)
        ensures
            now == self@.now,
    {
        self.now
    }

    fn start_attempt(&mut self)
        ensures
            final(self)@ == old(self)@.next_attempt(),
            final(self)@.wf(),
    {
        proof {
            use_type_invariant(&*self);
        }
        self.from_detail = false;
        self.detail_pos = 0;
        self.detail = Vec::new();
        self.upload_pos = 0;
        self.uploads = Vec::new();
        assert(self@.detail =~= Seq::empty());
        assert(self@.uploads =~= Seq::empty());
        if self.attempts < self.max_attempts && self.added < self.target {
            self.attempts = self.attempts + 1;
            self.step = Step::Listing;
        } else {
            self.step = Step::Done;
        }
    }

    fn start_upload(&mut self)
        requires
            old(self)@.added < old(self)@.target,
            1 <= old(self)@.attempts,
        ensures
            final(self)@ == old(self)@.next_upload(),
            final(self)@.wf(),
    {
        proof {
            use_type_invariant(&*self);
        }
        if self.upload_pos >= self.uploads.len() {
            self.start_attempt();
        } else {
            let ghost left = self@.uploads;
            let url = self.uploads[self.upload_pos].clone();
            self.upload_pos = self.upload_pos + 1;
            assert(self@.uploads =~= left.drop_first());
            self.from_detail = false;
            self.detail_pos = 0;
            self.detail = Vec::new();
            assert(self@.detail =~= Seq::empty());
            self.step = Step::Image { url };
        }
    }

    fn start_detail(&mut self)
        requires
            old(self)@.added < old(self)@.target,
            1 <= old(self)@.attempts,
        ensures
            final(self)@ == old(self)@.next_detail(),
            final(self)@.wf(),
    {
        proof {
            use_type_invariant(&*self);
        }
        if self.detail_pos >= self.detail.len() {
            self.start_upload();
        } else {
            let ghost left = self@.detail;
            let url = self.detail[self.detail_pos].clone();
            self.detail_pos = self.detail_pos + 1;
            assert(self@.detail =~= left.drop_first());
            self.from_detail = true;
            self.step = Step::Image { url };
        }
    }

    /// Reports that the listing page could not be fetched.
    pub fn skip_listing(&mut self)
        ensures
            final(self)@ == old(self)@.after_listing_failure(),
            final(self)@.wf(),
    {
        proof {
            use_type_invariant(&*self);
        }
        if let Step::Listing = self.step {
            self.start_attempt();
        }
    }

    /// Reports what a listing page gave: its detail ids and its upload
    /// links. `pick` chooses among the ids, by its remainder.
    pub fn use_listing(&mut self, ids: Vec<String>, uploads: Vec<String>, pick: usize)
        ensures
            final(self)@ == old(self)@.after_listing(texts(ids@), texts(uploads@), pick as nat),
            final(self)@.wf(),
    {
        proof {
            use_type_invariant(&*self);
        }
        if let Step::Listing = self.step {
            self.upload_pos = 0;
            self.uploads = uploads;
            assert(self@.uploads =~= texts(uploads@));
            if ids.len() > 0 {
                let url = detail_url(ids[pick % ids.len()].as_str());
                self.from_detail = false;
                self.detail_pos = 0;
                self.detail = Vec::new();
                assert(self@.detail =~= Seq::empty());
                self.step = Step::Detail { url };
            } else {
                self.start_upload();
            }
        }
    }

    /// Reports that the detail page could not be fetched.
    pub fn skip_detail(&mut self)
        ensures
            final(self)@ == old(self)@.after_detail_failure(),
            final(self)@.wf(),
    {
        proof {
            use_type_invariant(&*self);
        }
        if let Step::Detail { .. } = self.step {
            self.start_upload();
        }
    }

    /// Reports the image links that a detail page gave.
    pub fn use_detail(&mut self, candidates: Vec<String>)
        ensures
            final(self)@ == old(self)@.after_detail(texts(candidates@)),
            final(self)@.wf(),
    {
        proof {
            use_type_invariant(&*self);
        }
        if let Step::Detail { .. } = self.step {
            self.detail_pos = 0;
            self.detail = candidates;
            assert(self@.detail =~= texts(candidates@));
            self.start_detail();
        }
    }

    /// Reports the judgement on the candidate in hand: whether its bytes are
    /// an acceptable image, and the hash of its address.
    pub fn judge_image(&mut self, state: &WallpaperState, accepted: bool, hash: u64)
        ensures
            final(self)@ == old(self)@.after_image(state@.files, accepted, hash),
            final(self)@.wf(),
    {
        proof {
            use_type_invariant(&*self);
        }
        let url = match &self.step {
            Step::Image { url } => url.clone(),
            _ => {
                return ;
            },
        };
        if !accepted {
            if self.from_detail {
                self.start_detail();
            } else {
                self.start_upload();
            }
        } else if state.contains_source(url.as_str()) {
            self.start_upload();
        } else {
            let file_name = file_name_for(hash, self.now);
            self.step = Step::Store { source_url: url, file_name };
        }
    }

    /// Reports a store step: the path of the file that was written, or
    /// `None` when writing failed. A file whose source is new is added to the
    /// cache; a source is never added twice.
    pub fn on_stored(&mut self, state: &mut WallpaperState, path: Option<String>)
        ensures
            final(self)@ == old(self)@.after_store(old(state)@.files, text_of(path)),
            final(state)@ == old(self)@.cache_after_store(old(state)@, text_of(path)),
            final(self)@.wf(),
            unique_sources(old(state)@.files) ==> unique_sources(final(state)@.files),
    {
        proof {
            use_type_invariant(&*self);
        }
        let source_url = match &self.step {
            Step::Store { source_url, .. } => source_url.clone(),
            _ => {
                return ;
            },
        };
        match path {
            Some(stored) => {
                if state.add_file(WallpaperFile::new(stored, source_url, self.now)) {
                    state.last_download_at = self.now;
                    let counted: usize = self.added + 1;
                    let was_detail = self.from_detail;
                    self.step = Step::Done;
                    self.added = counted;
                    if was_detail || counted >= self.target {
                        self.start_attempt();
                    } else {
                        self.start_upload();
                    }
                } else {
                    self.start_upload();
                }
            },
            None => {
                self.start_upload();
            },
        }
    }

    /// Reports a listing page, or `None` when it could not be fetched. The
    /// page is scanned for detail ids and upload links; among the ids one is
    /// picked at random, so the contract holds for some pick.
    pub fn on_listing(&mut self, page: Option<&str>)
        ensures
            final(self)@.wf(),
            page is None ==> final(self)@ == old(self)@.after_listing_failure(),
            page matches Some(html) ==> exists|pick: nat| final(self)@ == #[trigger] old(self)@.after_listing(
                page_ids(html@),
                page_uploads(html@),
                pick,
            ),
    {
        match page {
            None => {
                self.skip_listing();
            },
            Some(html) => {
                let ids = extract_light_ids(html);
                let uploads = extract_upload_urls(html);
                let pick: usize = if ids.len() > 0 {
                    random_index(ids.len())
                } else {
                    0
                };
                self.use_listing(ids, uploads, pick);
            },
        }
    }

    /// Reports a detail page, or `None` when it could not be fetched. The
    /// page is scanned for image links.
    pub fn on_detail(&mut self, page: Option<&str>)
        ensures
            final(self)@.wf(),
            page is None ==> final(self)@ == old(self)@.after_detail_failure(),
            page matches Some(html) ==> final(self)@ == old(self)@.after_detail(page_images(html@)),
    {
        match page {
            None => {
                self.skip_detail();
            },
            Some(html) => {
                let candidates = extract_jpg_urls(html);
                self.use_detail(candidates);
            },
        }
    }

    /// Reports the bytes of the candidate in hand, or `None` when they could
    /// not be fetched. The bytes are validated as an image and the
    /// candidate's address is checked against the cache.
    pub fn on_image(&mut self, state: &WallpaperState, bytes: Option<&[u8]>)
        ensures
            final(self)@.wf(),
            final(self)@ == old(self)@.after_image(
                state@.files,
                image_accepted(bytes_of(bytes)),
                candidate_hash(old(self)@.step),
            ),
    {
        let accepted = match bytes {
            Some(content) => validate_image(content).is_ok(),
            None => false,
        };
        let hash: u64 = match &self.step {
            Step::Image { url } => default_hash(url.as_str()),
            _ => 0,
        };
        self.judge_image(state, accepted, hash);
    }
}

/// How far a step is from the end of its attempt.
pub open spec fn stage(step: StepView) -> nat {
    match step {
        StepView::Listing => 3,
        StepView::Detail { .. } => 2,
        StepView::Image { .. } => 1,
        StepView::Store { .. } => 1,
        StepView::Done => 0,
    }
}

/// The listing pages that a session may still ask for; none once it is over.
pub open spec fn attempts_left(session: PrefetchView) -> nat {
    if session.step is Done || session.attempts > session.max_attempts {
        0
    } else {
        (session.max_attempts - session.attempts) as nat
    }
}

/// The candidates that a session still holds; none once it is over.
pub open spec fn candidates_left(session: PrefetchView) -> nat {
    if session.step is Done {
        0
    } else {
        session.detail.len() + session.uploads.len()
    }
}

/// One for a candidate that is still to be fetched, zero otherwise.
pub open spec fn fetch_pending(session: PrefetchView) -> nat {
    if session.step is Image {
        1
    } else {
        0
    }
}

/// `later` is closer to the end of the round than `earlier`: by the listing
/// pages left, then by the stage of the attempt, then by the candidates left,
/// then by whether the candidate in hand is fetched already.
pub open spec fn closer_to_end(later: PrefetchView, earlier: PrefetchView) -> bool {
    decreases_to!(
        attempts_left(earlier), stage(earlier.step), candidates_left(earlier), fetch_pending(earlier) =>
        attempts_left(later), stage(later.step), candidates_left(later), fetch_pending(later)
    )
}

/// `later` belongs to the round of `earlier`: target, budget and time are
/// the same, nothing was taken back, and the invariant holds.
pub open spec fn same_round(earlier: PrefetchView, later: PrefetchView) -> bool {
    &&& later.wf()
    &&& later.target == earlier.target
    &&& later.max_attempts == earlier.max_attempts
    &&& later.now == earlier.now
    &&& later.attempts >= earlier.attempts
    &&& later.added >= earlier.added
}

/// A fresh session is as `begin` was told: it has the target and the time
/// that were given and the budget that goes with the target, has added
/// nothing, and is over at once when no download may start.
pub proof fn lemma_round_begins_within_bounds(state: StateView, allow_download: bool, target: nat, now: int)
    ensures
        PrefetchView::begin(state, allow_download, target, now).wf(),
        PrefetchView::begin(state, allow_download, target, now).target == target,
        PrefetchView::begin(state, allow_download, target, now).now == now,
        PrefetchView::begin(state, allow_download, target, now).max_attempts == attempt_budget(target),
        PrefetchView::begin(state, allow_download, target, now).added == 0,
        PrefetchView::begin(state, allow_download, target, now).attempts <= 1,
        !may_download(state, allow_download, now) ==> PrefetchView::begin(
            state,
            allow_download,
            target,
            now,
        ).step is Done,
{
}

/// A session keeps its invariant, its target, its budget and its time
/// through every report: no round adds more files than its target or asks
/// for more listing pages than its budget allows.
pub proof fn lemma_round_stays_within_bounds(
    session: PrefetchView,
    cached: Seq<FileView>,
    ids: Seq<Seq<char>>,
    links: Seq<Seq<char>>,
    pick: nat,
    accepted: bool,
    hash: u64,
    path: Option<Seq<char>>,
)
    requires
        session.wf(),
    ensures
        same_round(session, session.after_listing_failure()),
        same_round(session, session.after_listing(ids, links, pick)),
        same_round(session, session.after_detail_failure()),
        same_round(session, session.after_detail(links)),
        same_round(session, session.after_image(cached, accepted, hash)),
        same_round(session, session.after_store(cached, path)),
        session.added <= session.target,
        session.attempts <= session.max_attempts,
{
}

/// Every report that a session waits for brings it closer to its end, so a
/// round ends after finitely many steps, whatever the pages hold.
pub proof fn lemma_round_makes_progress(
    session: PrefetchView,
    cached: Seq<FileView>,
    ids: Seq<Seq<char>>,
    links: Seq<Seq<char>>,
    pick: nat,
    accepted: bool,
    hash: u64,
    path: Option<Seq<char>>,
)
    requires
        session.wf(),
    ensures
        session.step is Listing ==> closer_to_end(session.after_listing_failure(), session)
            && closer_to_end(session.after_listing(ids, links, pick), session),
        session.step is Detail ==> closer_to_end(session.after_detail_failure(), session) && closer_to_end(
            session.after_detail(links),
            session,
        ),
        session.step is Image ==> closer_to_end(session.after_image(cached, accepted, hash), session),
        session.step is Store ==> closer_to_end(session.after_store(cached, path), session),
{
}

/// A file is stored only for a source that the cache does not hold, and only
/// after its bytes were accepted: no duplicate is downloaded to a file.
pub proof fn lemma_store_only_new_sources(session: PrefetchView, cached: Seq<FileView>, accepted: bool, hash: u64)
    requires
        session.step is Image,
    ensures
        session.after_image(cached, accepted, hash).step matches StepView::Store { source_url, file_name }
            ==> accepted && !has_source(cached, source_url) && source_url == session.step->Image_url
            && file_name == crate::naming::file_name(hash, session.now),
        accepted && !has_source(cached, session.step->Image_url) ==> session.after_image(
            cached,
            accepted,
            hash,
        ).step is Store,
{
}

/// Reporting a store step never makes a duplicate record: a cache with
/// unique sources keeps them unique. The cache grows by one file exactly
/// when the session counts one more, and otherwise stays as it is.
pub proof fn lemma_store_keeps_sources_unique(session: PrefetchView, state: StateView, path: Option<Seq<char>>)
    requires
        session.wf(),
    ensures
        unique_sources(state.files) ==> unique_sources(session.cache_after_store(state, path).files),
        session.cache_after_store(state, path).files.len() - state.files.len() == session.after_store(
            state.files,
            path,
        ).added - session.added,
        session.adds_file(state.files, path) ==> session.cache_after_store(state, path).files
            == state.files.push(new_file(path->0, session.step->source_url, session.now)),
        !session.adds_file(state.files, path) ==> session.cache_after_store(state, path) == state,
{
    if session.adds_file(state.files, path) && unique_sources(state.files) {
        lemma_adding_keeps_sources_unique(
            state.files,
            new_file(path->0, session.step->source_url, session.now),
        );
    }
}

} // verus!
