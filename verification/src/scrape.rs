//! The decisions of a scrape run, as a state machine.
//!
//! A run walks listing pages `1..=pages` of a city. For each page it discovers profile
//! stubs (an empty page ends the run), and for each stub it waits, scrapes the profile,
//! and then either prints it or, when persisting, upserts it, saves its source and,
//! when downloading photos, processes and records each photo. Failures are counted and
//! the run goes on. A persisted run ends by recording its totals and status.
//!
//! The caller performs each [`ScrapeAction`] and reports how it went as a
//! [`ScrapeEvent`]; [`ScrapeState::next`] gives the following state and action.

use vstd::prelude::*;

use crate::entropy::random_u64;

verus! {

/// Which pause a run takes.
#[derive(Debug, Clone, Copy, PartialEq, Eq, Structural)]
pub enum DelayKind {
    /// Before each profile scrape: 2 to 5 seconds.
    BeforeProfile,
    /// Between two listing pages: 3 to 7 seconds.
    BetweenPages,
}

/// The pause of `kind` in milliseconds, drawn from the random number `r`.
pub open spec fn delay_for(kind: DelayKind, r: u64) -> u64 {
    match kind {
        DelayKind::BeforeProfile => (2000 + r % 3000) as u64,
        DelayKind::BetweenPages => (3000 + r % 4000) as u64,
    }
}

/// The pause of `kind` in milliseconds, drawn from the random number `r`.
pub fn delay_ms_for(kind: DelayKind, r: u64) -> (ms: u64)
    ensures
        ms == delay_for(kind, r),
{
    match kind {
        DelayKind::BeforeProfile => 2000 + r % 3000,
        DelayKind::BetweenPages => 3000 + r % 4000,
    }
}

/// A random pause of `kind`, in milliseconds.
pub fn delay_ms(kind: DelayKind) -> (ms: u64)
    ensures
        exists|r: u64| ms == delay_for(kind, r),
        kind == DelayKind::BeforeProfile ==> 2000 <= ms < 5000,
        kind == DelayKind::BetweenPages ==> 3000 <= ms < 7000,
{
    let r = random_u64();
    delay_ms_for(kind, r)
}

/// The counters of a run.
#[derive(Debug, Clone, Copy, PartialEq, Eq, Structural)]
pub struct ScrapeTotals {
    pub found: i32,
    pub new: i32,
    pub updated: i32,
    pub photos: i32,
    pub errors: i32,
}

/// Where a run stands: what it is waiting to hear about.
#[derive(Debug, Clone, Copy, PartialEq, Eq, Structural)]
pub enum Stage {
    Discovering,
    DelayingProfile,
    Scraping,
    Upserting,
    SavingSource,
    ProcessingPhoto,
    RecordingPhoto,
    Printing,
    DelayingPage,
    Completing,
    Done,
}

/// What the caller is to do next.
#[derive(Debug, Clone, Copy, PartialEq, Eq, Structural)]
pub enum ScrapeAction {
    /// Discover the profile stubs of listing page `page`.
    Discover { page: u32 },
    /// Pause (see [`delay_ms`]).
    Sleep { kind: DelayKind },
    /// Scrape the profile of stub `stub` of the current page.
    Scrape { stub: usize },
    /// Upsert the scraped profile.
    Upsert,
    /// Save the scraped profile's source.
    SaveSource,
    /// Download and store photo `position` of the scraped profile.
    ProcessPhoto { position: usize },
    /// Record stored photo `position` of the scraped profile.
    RecordPhoto { position: usize },
    /// Print the scraped profile.
    Print,
    /// Record the run's totals; `with_errors` says whether the status is
    /// `completed_with_errors` (else `completed`).
    CompleteRun { totals: ScrapeTotals, with_errors: bool },
    /// The run is over.
    Finish { totals: ScrapeTotals },
}

/// How the last action went.
#[derive(Debug, Clone, Copy, PartialEq, Eq, Structural)]
pub enum ScrapeEvent {
    /// The page held this many stubs.
    Discovered(usize),
    DiscoverFailed,
    Slept,
    /// The profile was scraped; it has this many photo URLs.
    Scraped(usize),
    ScrapeFailed,
    /// The profile was upserted; `true` where it is new.
    Upserted(bool),
    UpsertFailed,
    /// The source was saved (`true`) or not.
    SourceSaved(bool),
    /// The photo was downloaded and stored (`true`) or not.
    PhotoProcessed(bool),
    /// The photo was recorded (`true`) or not.
    PhotoRecorded(bool),
    Printed,
    Completed,
}

/// The state of a run.
#[derive(Debug, Clone, Copy, PartialEq, Eq, Structural)]
pub struct ScrapeState {
    pub pages: u32,
    pub persist: bool,
    pub download_photos: bool,
    /// The listing page in hand.
    pub page: u32,
    /// Stubs on the page in hand, and the index of the one in hand.
    pub stubs: usize,
    pub stub: usize,
    /// Photo URLs of the profile in hand, and the index of the one in hand.
    pub photos: usize,
    pub photo: usize,
    pub totals: ScrapeTotals,
    pub stage: Stage,
}

pub open spec fn status_with_errors(t: ScrapeTotals) -> bool {
    t.errors > 0
}

/// The status text that a run's totals give.
pub open spec fn status_text(t: ScrapeTotals) -> Seq<char> {
    if status_with_errors(t) {
        "completed_with_errors"@
    } else {
        "completed"@
    }
}

/// The status text that a run's totals give.
pub fn status_of(t: ScrapeTotals) -> (r: &'static str)
    ensures
        r@ == status_text(t),
{
    if t.errors > 0 {
        "completed_with_errors"
    } else {
        "completed"
    }
}

impl ScrapeState {
    /// The state is consistent: the page, stub and photo in hand exist.
    pub open spec fn wf(self) -> bool {
        &&& self.totals.found >= 0
        &&& self.totals.new >= 0
        &&& self.totals.updated >= 0
        &&& self.totals.photos >= 0
        &&& self.totals.errors >= 0
        &&& (self.stage != Stage::Completing && self.stage != Stage::Done) ==> 1 <= self.page
            <= self.pages
        &&& (self.stage == Stage::DelayingProfile || self.stage == Stage::Scraping || self.stage
            == Stage::Upserting || self.stage == Stage::SavingSource || self.stage
            == Stage::ProcessingPhoto || self.stage == Stage::RecordingPhoto || self.stage
            == Stage::Printing) ==> self.stub < self.stubs
        &&& (self.stage == Stage::ProcessingPhoto || self.stage == Stage::RecordingPhoto)
            ==> self.photo < self.photos
        &&& (self.stage == Stage::Upserting || self.stage == Stage::SavingSource || self.stage
            == Stage::ProcessingPhoto || self.stage == Stage::RecordingPhoto) ==> self.persist
        &&& (self.stage == Stage::ProcessingPhoto || self.stage == Stage::RecordingPhoto)
            ==> self.download_photos
        &&& self.stage == Stage::Printing ==> !self.persist
        &&& self.stage == Stage::Completing ==> self.persist
    }

    /// `event` answers the action of the stage the run is in.
    pub open spec fn expects(self, event: ScrapeEvent) -> bool {
        match event {
            ScrapeEvent::Discovered(_) | ScrapeEvent::DiscoverFailed => self.stage
                == Stage::Discovering,
            ScrapeEvent::Slept => self.stage == Stage::DelayingProfile || self.stage
                == Stage::DelayingPage,
            ScrapeEvent::Scraped(_) | ScrapeEvent::ScrapeFailed => self.stage == Stage::Scraping,
            ScrapeEvent::Upserted(_) | ScrapeEvent::UpsertFailed => self.stage
                == Stage::Upserting,
            ScrapeEvent::SourceSaved(_) => self.stage == Stage::SavingSource,
            ScrapeEvent::PhotoProcessed(_) => self.stage == Stage::ProcessingPhoto,
            ScrapeEvent::PhotoRecorded(_) => self.stage == Stage::RecordingPhoto,
            ScrapeEvent::Printed => self.stage == Stage::Printing,
            ScrapeEvent::Completed => self.stage == Stage::Completing,
        }
    }

    /// The counter that `event` raises stays within `i32`.
    pub open spec fn fits(self, event: ScrapeEvent) -> bool {
        match event {
            ScrapeEvent::Discovered(n) => self.totals.found + n <= i32::MAX,
            ScrapeEvent::DiscoverFailed | ScrapeEvent::ScrapeFailed | ScrapeEvent::UpsertFailed
            | ScrapeEvent::SourceSaved(false) | ScrapeEvent::PhotoProcessed(false)
            | ScrapeEvent::PhotoRecorded(false) => self.totals.errors < i32::MAX,
            ScrapeEvent::Upserted(true) => self.totals.new < i32::MAX,
            ScrapeEvent::Upserted(false) => self.totals.updated < i32::MAX,
            ScrapeEvent::PhotoRecorded(true) => self.totals.photos < i32::MAX,
            _ => true,
        }
    }
}

/// `event` reports a failure, which the run counts as an error.
pub open spec fn is_failure(event: ScrapeEvent) -> bool {
    match event {
        ScrapeEvent::DiscoverFailed | ScrapeEvent::ScrapeFailed | ScrapeEvent::UpsertFailed
        | ScrapeEvent::SourceSaved(false) | ScrapeEvent::PhotoProcessed(false)
        | ScrapeEvent::PhotoRecorded(false) => true,
        _ => false,
    }
}

/// The end of the run: a persisted run records its totals, any other is over.
pub open spec fn spec_finish(s: ScrapeState) -> (ScrapeState, ScrapeAction) {
    if s.persist {
        (
            ScrapeState { stage: Stage::Completing, ..s },
            ScrapeAction::CompleteRun { totals: s.totals, with_errors: status_with_errors(s.totals) },
        )
    } else {
        (ScrapeState { stage: Stage::Done, ..s }, ScrapeAction::Finish { totals: s.totals })
    }
}

/// On to the next listing page, or the end of the run after the last.
pub open spec fn spec_next_page(s: ScrapeState) -> (ScrapeState, ScrapeAction) {
    if s.page < s.pages {
        (
            ScrapeState { page: (s.page + 1) as u32, stage: Stage::Discovering, ..s },
            ScrapeAction::Discover { page: (s.page + 1) as u32 },
        )
    } else {
        spec_finish(s)
    }
}

/// A page's stubs are done: pause before the next page, or end the run after the last.
pub open spec fn spec_end_page(s: ScrapeState) -> (ScrapeState, ScrapeAction) {
    if s.page < s.pages {
        (
            ScrapeState { stage: Stage::DelayingPage, ..s },
            ScrapeAction::Sleep { kind: DelayKind::BetweenPages },
        )
    } else {
        spec_finish(s)
    }
}

/// A stub is done: pause before the next one, or end the page.
pub open spec fn spec_next_stub(s: ScrapeState) -> (ScrapeState, ScrapeAction) {
    if s.stub + 1 < s.stubs {
        (
            ScrapeState { stub: (s.stub + 1) as usize, stage: Stage::DelayingProfile, ..s },
            ScrapeAction::Sleep { kind: DelayKind::BeforeProfile },
        )
    } else {
        spec_end_page(ScrapeState { stub: s.stubs, ..s })
    }
}

/// Photo `from` of the profile in hand, or the next stub where there is none.
pub open spec fn spec_photo_from(s: ScrapeState, from: usize) -> (ScrapeState, ScrapeAction) {
    if from < s.photos {
        (
            ScrapeState { photo: from, stage: Stage::ProcessingPhoto, ..s },
            ScrapeAction::ProcessPhoto { position: from },
        )
    } else {
        spec_next_stub(s)
    }
}

pub open spec fn with_error(t: ScrapeTotals) -> ScrapeTotals {
    ScrapeTotals { errors: (t.errors + 1) as i32, ..t }
}

/// The state and action that follow `event` in state `s`.
pub open spec fn spec_next(s: ScrapeState, event: ScrapeEvent) -> (ScrapeState, ScrapeAction) {
    match event {
        ScrapeEvent::Discovered(n) => if n == 0 {
            spec_finish(s)
        } else {
            (
                ScrapeState {
                    stubs: n,
                    stub: 0,
                    totals: ScrapeTotals { found: (s.totals.found + n) as i32, ..s.totals },
                    stage: Stage::DelayingProfile,
                    ..s
                },
                ScrapeAction::Sleep { kind: DelayKind::BeforeProfile },
            )
        },
        ScrapeEvent::DiscoverFailed => spec_next_page(
            ScrapeState { totals: with_error(s.totals), ..s },
        ),
        ScrapeEvent::Slept => if s.stage == Stage::DelayingProfile {
            (ScrapeState { stage: Stage::Scraping, ..s }, ScrapeAction::Scrape { stub: s.stub })
        } else {
            spec_next_page(s)
        },
        ScrapeEvent::Scraped(k) => if s.persist {
            (
                ScrapeState { photos: k, photo: 0, stage: Stage::Upserting, ..s },
                ScrapeAction::Upsert,
            )
        } else {
            (ScrapeState { photos: k, photo: 0, stage: Stage::Printing, ..s }, ScrapeAction::Print)
        },
        ScrapeEvent::ScrapeFailed => spec_next_stub(ScrapeState { totals: with_error(s.totals), ..s }),
        ScrapeEvent::Upserted(is_new) => (
            ScrapeState {
                totals: if is_new {
                    ScrapeTotals { new: (s.totals.new + 1) as i32, ..s.totals }
                } else {
                    ScrapeTotals { updated: (s.totals.updated + 1) as i32, ..s.totals }
                },
                stage: Stage::SavingSource,
                ..s
            },
            ScrapeAction::SaveSource,
        ),
        ScrapeEvent::UpsertFailed => spec_next_stub(ScrapeState { totals: with_error(s.totals), ..s }),
        ScrapeEvent::SourceSaved(ok) => {
            let s1 = if ok {
                s
            } else {
                ScrapeState { totals: with_error(s.totals), ..s }
            };
            if s1.download_photos {
                spec_photo_from(s1, 0)
            } else {
                spec_next_stub(s1)
            }
        },
        ScrapeEvent::PhotoProcessed(ok) => if ok {
            (
                ScrapeState { stage: Stage::RecordingPhoto, ..s },
                ScrapeAction::RecordPhoto { position: s.photo },
            )
        } else {
            spec_photo_from(ScrapeState { totals: with_error(s.totals), ..s }, (s.photo + 1) as usize)
        },
        ScrapeEvent::PhotoRecorded(ok) => {
            let t = if ok {
                ScrapeTotals { photos: (s.totals.photos + 1) as i32, ..s.totals }
            } else {
                with_error(s.totals)
            };
            spec_photo_from(ScrapeState { totals: t, ..s }, (s.photo + 1) as usize)
        },
        ScrapeEvent::Printed => spec_next_stub(s),
        ScrapeEvent::Completed => (
            ScrapeState { stage: Stage::Done, ..s },
            ScrapeAction::Finish { totals: s.totals },
        ),
    }
}

/// The start of a run over `pages` listing pages.
pub open spec fn spec_start(pages: u32, persist: bool, download_photos: bool) -> (
    ScrapeState,
    ScrapeAction,
) {
    let s = ScrapeState {
        pages,
        persist,
        download_photos,
        page: 1,
        stubs: 0,
        stub: 0,
        photos: 0,
        photo: 0,
        totals: ScrapeTotals { found: 0, new: 0, updated: 0, photos: 0, errors: 0 },
        stage: Stage::Discovering,
    };
    if pages >= 1 {
        (s, ScrapeAction::Discover { page: 1 })
    } else {
        spec_finish(s)
    }
}

impl ScrapeState {
    /// The start of a run over `pages` listing pages.
    pub fn start(pages: u32, persist: bool, download_photos: bool) -> (r: (ScrapeState, ScrapeAction))
        ensures
            r == spec_start(pages, persist, download_photos),
            r.0.wf(),
    {
        let s = ScrapeState {
            pages,
            persist,
            download_photos,
            page: 1,
            stubs: 0,
            stub: 0,
            photos: 0,
            photo: 0,
            totals: ScrapeTotals { found: 0, new: 0, updated: 0, photos: 0, errors: 0 },
            stage: Stage::Discovering,
        };
        if pages >= 1 {
            (s, ScrapeAction::Discover { page: 1 })
        } else {
            finish(s)
        }
    }

    /// Whether `event` answers the action of the stage the run is in.
    pub fn expects_exec(&self, event: ScrapeEvent) -> (b: bool)
        ensures
            b == self.expects(event),
    {
        match event {
            ScrapeEvent::Discovered(_) | ScrapeEvent::DiscoverFailed => self.stage
                == Stage::Discovering,
            ScrapeEvent::Slept => self.stage == Stage::DelayingProfile || self.stage
                == Stage::DelayingPage,
            ScrapeEvent::Scraped(_) | ScrapeEvent::ScrapeFailed => self.stage == Stage::Scraping,
            ScrapeEvent::Upserted(_) | ScrapeEvent::UpsertFailed => self.stage
                == Stage::Upserting,
            ScrapeEvent::SourceSaved(_) => self.stage == Stage::SavingSource,
            ScrapeEvent::PhotoProcessed(_) => self.stage == Stage::ProcessingPhoto,
            ScrapeEvent::PhotoRecorded(_) => self.stage == Stage::RecordingPhoto,
            ScrapeEvent::Printed => self.stage == Stage::Printing,
            ScrapeEvent::Completed => self.stage == Stage::Completing,
        }
    }

    /// Whether the counter that `event` raises stays within `i32`.
    pub fn fits_exec(&self, event: ScrapeEvent) -> (b: bool)
        requires
            self.wf(),
        ensures
            b == self.fits(event),
    {
        match event {
            ScrapeEvent::Discovered(n) => n <= (i32::MAX - self.totals.found) as usize,
            ScrapeEvent::DiscoverFailed | ScrapeEvent::ScrapeFailed | ScrapeEvent::UpsertFailed
            | ScrapeEvent::SourceSaved(false) | ScrapeEvent::PhotoProcessed(false)
            | ScrapeEvent::PhotoRecorded(false) => self.totals.errors < i32::MAX,
            ScrapeEvent::Upserted(true) => self.totals.new < i32::MAX,
            ScrapeEvent::Upserted(false) => self.totals.updated < i32::MAX,
            ScrapeEvent::PhotoRecorded(true) => self.totals.photos < i32::MAX,
            _ => true,
        }
    }

    /// The state and action that follow `event`.
    pub fn next(&self, event: ScrapeEvent) -> (r: (ScrapeState, ScrapeAction))
        requires
            self.wf(),
            self.expects(event),
            self.fits(event),
        ensures
            r == spec_next(*self, event),
            r.0.wf(),
    {
        let s = *self;
        match event {
            ScrapeEvent::Discovered(n) => {
                if n == 0 {
                    finish(s)
                } else {
                    let found = s.totals.found + n as i32;
                    (
                        ScrapeState {
                            stubs: n,
                            stub: 0,
                            totals: ScrapeTotals { found, ..s.totals },
                            stage: Stage::DelayingProfile,
                            ..s
                        },
                        ScrapeAction::Sleep { kind: DelayKind::BeforeProfile },
                    )
                }
            },
            ScrapeEvent::DiscoverFailed => next_page(ScrapeState { totals: add_error(s.totals), ..s }),
            ScrapeEvent::Slept => {
                if s.stage == Stage::DelayingProfile {
                    (ScrapeState { stage: Stage::Scraping, ..s }, ScrapeAction::Scrape { stub: s.stub })
                } else {
                    next_page(s)
                }
            },
            ScrapeEvent::Scraped(k) => {
                if s.persist {
                    (
                        ScrapeState { photos: k, photo: 0, stage: Stage::Upserting, ..s },
                        ScrapeAction::Upsert,
                    )
                } else {
                    (
                        ScrapeState { photos: k, photo: 0, stage: Stage::Printing, ..s },
                        ScrapeAction::Print,
                    )
                }
            },
            ScrapeEvent::ScrapeFailed => next_stub(ScrapeState { totals: add_error(s.totals), ..s }),
            ScrapeEvent::Upserted(is_new) => {
                let totals = if is_new {
                    ScrapeTotals { new: s.totals.new + 1, ..s.totals }
                } else {
                    ScrapeTotals { updated: s.totals.updated + 1, ..s.totals }
                };
                (ScrapeState { totals, stage: Stage::SavingSource, ..s }, ScrapeAction::SaveSource)
            },
            ScrapeEvent::UpsertFailed => next_stub(ScrapeState { totals: add_error(s.totals), ..s }),
            ScrapeEvent::SourceSaved(ok) => {
                let s1 = if ok {
                    s
                } else {
                    ScrapeState { totals: add_error(s.totals), ..s }
                };
                if s1.download_photos {
                    photo_from(s1, 0)
                } else {
                    next_stub(s1)
                }
            },
            ScrapeEvent::PhotoProcessed(ok) => {
                if ok {
                    (
                        ScrapeState { stage: Stage::RecordingPhoto, ..s },
                        ScrapeAction::RecordPhoto { position: s.photo },
                    )
                } else {
                    photo_from(ScrapeState { totals: add_error(s.totals), ..s }, s.photo + 1)
                }
            },
            ScrapeEvent::PhotoRecorded(ok) => {
                let t = if ok {
                    ScrapeTotals { photos: s.totals.photos + 1, ..s.totals }
                } else {
                    add_error(s.totals)
                };
                photo_from(ScrapeState { totals: t, ..s }, s.photo + 1)
            },
            ScrapeEvent::Printed => next_stub(s),
            ScrapeEvent::Completed => (
                ScrapeState { stage: Stage::Done, ..s },
                ScrapeAction::Finish { totals: s.totals },
            ),
        }
    }
}

fn add_error(t: ScrapeTotals) -> (r: ScrapeTotals)
    requires
        t.errors < i32::MAX,
    ensures
        r == with_error(t),
{
    ScrapeTotals { errors: t.errors + 1, ..t }
}

fn finish(s: ScrapeState) -> (r: (ScrapeState, ScrapeAction))
    requires
        s.totals.found >= 0 && s.totals.new >= 0 && s.totals.updated >= 0 && s.totals.photos >= 0
            && s.totals.errors >= 0,
    ensures
        r == spec_finish(s),
        r.0.wf(),
{
    if s.persist {
        (
            ScrapeState { stage: Stage::Completing, ..s },
            ScrapeAction::CompleteRun { totals: s.totals, with_errors: s.totals.errors > 0 },
        )
    } else {
        (ScrapeState { stage: Stage::Done, ..s }, ScrapeAction::Finish { totals: s.totals })
    }
}

fn next_page(s: ScrapeState) -> (r: (ScrapeState, ScrapeAction))
    requires
        s.totals.found >= 0 && s.totals.new >= 0 && s.totals.updated >= 0 && s.totals.photos >= 0
            && s.totals.errors >= 0,
        1 <= s.page <= s.pages,
    ensures
        r == spec_next_page(s),
        r.0.wf(),
{
    if s.page < s.pages {
        (
            ScrapeState { page: s.page + 1, stage: Stage::Discovering, ..s },
            ScrapeAction::Discover { page: s.page + 1 },
        )
    } else {
        finish(s)
    }
}

fn next_stub(s: ScrapeState) -> (r: (ScrapeState, ScrapeAction))
    requires
        s.totals.found >= 0 && s.totals.new >= 0 && s.totals.updated >= 0 && s.totals.photos >= 0
            && s.totals.errors >= 0,
        1 <= s.page <= s.pages,
        s.stub < s.stubs,
    ensures
        r == spec_next_stub(s),
        r.0.wf(),
{
    if s.stub + 1 < s.stubs {
        (
            ScrapeState { stub: s.stub + 1, stage: Stage::DelayingProfile, ..s },
            ScrapeAction::Sleep { kind: DelayKind::BeforeProfile },
        )
    } else {
        let s1 = ScrapeState { stub: s.stubs, ..s };
        if s1.page < s1.pages {
            (
                ScrapeState { stage: Stage::DelayingPage, ..s1 },
                ScrapeAction::Sleep { kind: DelayKind::BetweenPages },
            )
        } else {
            finish(s1)
        }
    }
}

fn photo_from(s: ScrapeState, from: usize) -> (r: (ScrapeState, ScrapeAction))
    requires
        s.totals.found >= 0 && s.totals.new >= 0 && s.totals.updated >= 0 && s.totals.photos >= 0
            && s.totals.errors >= 0,
        1 <= s.page <= s.pages,
        s.stub < s.stubs,
        s.persist,
        s.download_photos,
    ensures
        r == spec_photo_from(s, from),
        r.0.wf(),
{
    if from < s.photos {
        (
            ScrapeState { photo: from, stage: Stage::ProcessingPhoto, ..s },
            ScrapeAction::ProcessPhoto { position: from },
        )
    } else {
        next_stub(s)
    }
}


/// How one step moves the counters: each failure adds exactly one error and nothing
/// else does; a discovered page adds its stubs to `found`; an upsert adds one to
/// `new` or `updated`; a recorded photo adds one to `photos`. No counter ever falls.
pub proof fn lemma_step_counts(s: ScrapeState, event: ScrapeEvent)
    requires
        s.wf(),
        s.expects(event),
        s.fits(event),
    ensures
        ({
            let t = spec_next(s, event).0.totals;
            &&& t.errors == s.totals.errors + if is_failure(event) {
                1int
            } else {
                0int
            }
            &&& t.found == s.totals.found + match event {
                ScrapeEvent::Discovered(n) => n as int,
                _ => 0int,
            }
            &&& t.new == s.totals.new + if event == ScrapeEvent::Upserted(true) {
                1int
            } else {
                0int
            }
            &&& t.updated == s.totals.updated + if event == ScrapeEvent::Upserted(false) {
                1int
            } else {
                0int
            }
            &&& t.photos == s.totals.photos + if event == ScrapeEvent::PhotoRecorded(true) {
                1int
            } else {
                0int
            }
        }),
{
}

/// A run that does not persist never upserts, saves a source or handles photos; a run
/// that does not download photos never handles photos; a run that persists never
/// prints. Every step keeps the state consistent.
pub proof fn lemma_step_respects_options(s: ScrapeState, event: ScrapeEvent)
    requires
        s.wf(),
        s.expects(event),
        s.fits(event),
    ensures
        spec_next(s, event).0.wf(),
        spec_next(s, event).0.persist == s.persist,
        spec_next(s, event).0.download_photos == s.download_photos,
        spec_next(s, event).0.pages == s.pages,
        !s.persist ==> !(spec_next(s, event).1 is Upsert || spec_next(s, event).1 is SaveSource
            || spec_next(s, event).1 is ProcessPhoto || spec_next(s, event).1 is RecordPhoto
            || spec_next(s, event).1 is CompleteRun),
        !s.download_photos ==> !(spec_next(s, event).1 is ProcessPhoto || spec_next(s, event).1 is RecordPhoto),
        s.persist ==> !(spec_next(s, event).1 is Print),
        spec_next(s, event).1 matches ScrapeAction::CompleteRun { totals, with_errors } ==> (
        with_errors == (totals.errors > 0) && totals == spec_next(s, event).0.totals),
{
}

/// A listing page without profiles ends the run, whatever page it was and however many
/// pages remain: a persisted run goes on to record its totals, any other is over, the
/// totals stay as they were, and no further page is discovered.
pub proof fn lemma_empty_page_ends_run(s: ScrapeState)
    requires
        s.wf(),
        s.expects(ScrapeEvent::Discovered(0)),
    ensures
        ({
            let (t, a) = spec_next(s, ScrapeEvent::Discovered(0));
            &&& t.totals == s.totals
            &&& !(a is Discover)
            &&& s.persist ==> t.stage == Stage::Completing && a == ScrapeAction::CompleteRun {
                totals: s.totals,
                with_errors: s.totals.errors > 0,
            }
            &&& !s.persist ==> t.stage == Stage::Done && a == ScrapeAction::Finish {
                totals: s.totals,
            }
        }),
{
}

} // verus!
