use arachne::scrape::{
    delay_ms, delay_ms_for, status_of, DelayKind, ScrapeAction, ScrapeEvent, ScrapeState, ScrapeTotals,
};

fn step(s: &ScrapeState, e: ScrapeEvent) -> (ScrapeState, ScrapeAction) {
    assert!(s.expects_exec(e) && s.fits_exec(e));
    s.next(e)
}

#[test]
fn delays_are_in_range() {
    assert_eq!(delay_ms_for(DelayKind::BeforeProfile, 0), 2000);
    assert_eq!(delay_ms_for(DelayKind::BeforeProfile, 2999), 4999);
    assert_eq!(delay_ms_for(DelayKind::BeforeProfile, 3000), 2000);
    assert_eq!(delay_ms_for(DelayKind::BetweenPages, 3999), 6999);
    assert_eq!(delay_ms_for(DelayKind::BetweenPages, u64::MAX), 3000 + u64::MAX % 4000);
    for _ in 0..100 {
        let d = delay_ms(DelayKind::BeforeProfile);
        assert!((2000..5000).contains(&d));
        let d = delay_ms(DelayKind::BetweenPages);
        assert!((3000..7000).contains(&d));
    }
}

#[test]
fn printing_run_over_two_pages() {
    let (s, a) = ScrapeState::start(2, false, false);
    assert_eq!(a, ScrapeAction::Discover { page: 1 });
    let (s, a) = step(&s, ScrapeEvent::Discovered(2));
    assert_eq!(a, ScrapeAction::Sleep { kind: DelayKind::BeforeProfile });
    let (s, a) = step(&s, ScrapeEvent::Slept);
    assert_eq!(a, ScrapeAction::Scrape { stub: 0 });
    let (s, a) = step(&s, ScrapeEvent::Scraped(3));
    assert_eq!(a, ScrapeAction::Print);
    let (s, a) = step(&s, ScrapeEvent::Printed);
    assert_eq!(a, ScrapeAction::Sleep { kind: DelayKind::BeforeProfile });
    let (s, a) = step(&s, ScrapeEvent::Slept);
    assert_eq!(a, ScrapeAction::Scrape { stub: 1 });
    let (s, a) = step(&s, ScrapeEvent::ScrapeFailed);
    assert_eq!(a, ScrapeAction::Sleep { kind: DelayKind::BetweenPages });
    let (s, a) = step(&s, ScrapeEvent::Slept);
    assert_eq!(a, ScrapeAction::Discover { page: 2 });
    let (_, a) = step(&s, ScrapeEvent::Discovered(0));
    assert_eq!(
        a,
        ScrapeAction::Finish { totals: ScrapeTotals { found: 2, new: 0, updated: 0, photos: 0, errors: 1 } }
    );
}

#[test]
fn discover_failure_skips_the_page_delay() {
    let (s, _) = ScrapeState::start(3, false, false);
    let (s, a) = step(&s, ScrapeEvent::DiscoverFailed);
    assert_eq!(a, ScrapeAction::Discover { page: 2 });
    let (s, a) = step(&s, ScrapeEvent::DiscoverFailed);
    assert_eq!(a, ScrapeAction::Discover { page: 3 });
    let (s, a) = step(&s, ScrapeEvent::DiscoverFailed);
    assert_eq!(s.totals.errors, 3);
    assert_eq!(a, ScrapeAction::Finish { totals: s.totals });
}

#[test]
fn persisted_run_with_photos() {
    let (s, a) = ScrapeState::start(1, true, true);
    assert_eq!(a, ScrapeAction::Discover { page: 1 });
    let (s, _) = step(&s, ScrapeEvent::Discovered(1));
    let (s, _) = step(&s, ScrapeEvent::Slept);
    let (s, a) = step(&s, ScrapeEvent::Scraped(2));
    assert_eq!(a, ScrapeAction::Upsert);
    let (s, a) = step(&s, ScrapeEvent::Upserted(true));
    assert_eq!(a, ScrapeAction::SaveSource);
    let (s, a) = step(&s, ScrapeEvent::SourceSaved(false));
    assert_eq!(a, ScrapeAction::ProcessPhoto { position: 0 });
    let (s, a) = step(&s, ScrapeEvent::PhotoProcessed(true));
    assert_eq!(a, ScrapeAction::RecordPhoto { position: 0 });
    let (s, a) = step(&s, ScrapeEvent::PhotoRecorded(true));
    assert_eq!(a, ScrapeAction::ProcessPhoto { position: 1 });
    let (s, a) = step(&s, ScrapeEvent::PhotoProcessed(false));
    let totals = ScrapeTotals { found: 1, new: 1, updated: 0, photos: 1, errors: 2 };
    assert_eq!(a, ScrapeAction::CompleteRun { totals, with_errors: true });
    assert_eq!(status_of(totals), "completed_with_errors");
    let (_, a) = step(&s, ScrapeEvent::Completed);
    assert_eq!(a, ScrapeAction::Finish { totals });
}

#[test]
fn persisted_run_without_photos_and_no_pages() {
    let (_, a) = ScrapeState::start(0, true, false);
    let totals = ScrapeTotals { found: 0, new: 0, updated: 0, photos: 0, errors: 0 };
    assert_eq!(a, ScrapeAction::CompleteRun { totals, with_errors: false });
    assert_eq!(status_of(totals), "completed");
    let (s, _) = ScrapeState::start(1, true, false);
    let (s, _) = step(&s, ScrapeEvent::Discovered(1));
    let (s, _) = step(&s, ScrapeEvent::Slept);
    let (s, _) = step(&s, ScrapeEvent::Scraped(5));
    let (s, _) = step(&s, ScrapeEvent::Upserted(false));
    let (s, a) = step(&s, ScrapeEvent::SourceSaved(true));
    assert_eq!(s.totals.updated, 1);
    assert_eq!(a, ScrapeAction::CompleteRun { totals: s.totals, with_errors: false });
}

#[test]
fn events_out_of_turn_and_overflow_are_detected() {
    let (s, _) = ScrapeState::start(1, false, false);
    assert!(!s.expects_exec(ScrapeEvent::Printed));
    assert!(s.fits_exec(ScrapeEvent::Discovered(i32::MAX as usize)));
    assert!(!s.fits_exec(ScrapeEvent::Discovered(i32::MAX as usize + 1)));
}
