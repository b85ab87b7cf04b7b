use harvest_sync::driver::{
    backoff_delay, ceiling, Action, Config, HarvestError, PageTally, Phase, SyncDriver, SyncEvent,
};
use harvest_sync::store::ApplyError;

fn config() -> Config {
    Config { poll_interval_ms: 5000, backoff_base_ms: 100, backoff_max_ms: 1000 }
}

#[test]
fn ceiling_doubles_up_to_the_maximum() {
    let c = config();
    assert_eq!(ceiling(&c, 0), 100);
    assert_eq!(ceiling(&c, 1), 200);
    assert_eq!(ceiling(&c, 2), 400);
    assert_eq!(ceiling(&c, 3), 800);
    assert_eq!(ceiling(&c, 4), 1000);
    assert_eq!(ceiling(&c, u32::MAX), 1000);
    let zero = Config { poll_interval_ms: 1, backoff_base_ms: 0, backoff_max_ms: 1000 };
    assert_eq!(ceiling(&zero, u32::MAX), 0);
    let small = Config { poll_interval_ms: 1, backoff_base_ms: 500, backoff_max_ms: 100 };
    assert_eq!(ceiling(&small, 0), 100);
    let huge = Config { poll_interval_ms: 1, backoff_base_ms: 1, backoff_max_ms: u64::MAX };
    assert_eq!(ceiling(&huge, 63), 1 << 63);
    assert_eq!(ceiling(&huge, 64), u64::MAX);
}

#[test]
fn jitter_takes_off_at_most_half() {
    let c = config();
    assert_eq!(backoff_delay(&c, 3, 0), 800);
    assert_eq!(backoff_delay(&c, 3, 250), 550);
    assert_eq!(backoff_delay(&c, 3, 400), 400);
    assert_eq!(backoff_delay(&c, 3, 401), 800);
    assert_eq!(backoff_delay(&c, 0, 7), 93);
    for jitter in [0, 1, 17, 499, 500, 501, u64::MAX] {
        let d = backoff_delay(&c, 9, jitter);
        assert!(500 <= d && d <= 1000);
    }
}

#[test]
fn errors_are_classified() {
    assert!(HarvestError::Timeout.is_retryable());
    assert!(HarvestError::Transport.is_retryable());
    assert!(HarvestError::Status(500).is_retryable());
    assert!(HarvestError::Status(503).is_retryable());
    assert!(HarvestError::Status(599).is_retryable());
    assert!(!HarvestError::Status(600).is_retryable());
    assert!(!HarvestError::Status(499).is_retryable());
    assert!(!HarvestError::Status(404).is_retryable());
    assert!(!HarvestError::Malformed.is_retryable());
}

#[test]
fn a_quiet_cycle_runs_through_every_phase() {
    let mut d = SyncDriver::new(config(), 0);
    assert_eq!(d.phase, Phase::Idle);
    assert_eq!(d.step(SyncEvent::Tick), Action::Fetch { since: 0 });
    assert_eq!(d.phase, Phase::Fetching);
    assert_eq!(
        d.step(SyncEvent::Fetched { includes_items_until: 1000, has_more: false }),
        Action::ApplyPage
    );
    assert_eq!(d.phase, Phase::Applying);
    assert_eq!(d.step(SyncEvent::Applied { invalid: 0 }), Action::Save { watermark: 1000 });
    assert_eq!(d.phase, Phase::Advancing);
    assert_eq!(d.watermark, 0);
    assert_eq!(d.step(SyncEvent::Saved), Action::Wait { millis: 5000 });
    assert_eq!(d.phase, Phase::Idle);
    assert_eq!(d.watermark, 1000);

    // The next poll brings nothing new: no save, no error.
    assert_eq!(d.step(SyncEvent::Tick), Action::Fetch { since: 1000 });
    assert_eq!(
        d.step(SyncEvent::Fetched { includes_items_until: 1000, has_more: false }),
        Action::ApplyPage
    );
    assert_eq!(d.step(SyncEvent::Applied { invalid: 0 }), Action::Wait { millis: 5000 });
    assert_eq!(d.watermark, 1000);
    assert_eq!(d.phase, Phase::Idle);
}

#[test]
fn backlog_is_drained_without_delay() {
    let mut d = SyncDriver::new(config(), 0);
    d.step(SyncEvent::Tick);
    d.step(SyncEvent::Fetched { includes_items_until: 10, has_more: true });
    d.step(SyncEvent::Applied { invalid: 0 });
    assert_eq!(d.step(SyncEvent::Saved), Action::Fetch { since: 10 });
    assert_eq!(d.phase, Phase::Fetching);
}

#[test]
fn skipped_items_are_counted_and_do_not_block() {
    let mut d = SyncDriver::new(config(), 0);
    d.step(SyncEvent::Tick);
    d.step(SyncEvent::Fetched { includes_items_until: 10, has_more: false });
    assert_eq!(d.step(SyncEvent::Applied { invalid: 3 }), Action::Save { watermark: 10 });
    assert_eq!(d.skipped, 3);
    d.step(SyncEvent::Saved);
    assert_eq!(d.watermark, 10);
    d.step(SyncEvent::Tick);
    d.step(SyncEvent::Fetched { includes_items_until: 10, has_more: false });
    d.step(SyncEvent::Applied { invalid: u64::MAX });
    assert_eq!(d.skipped, u64::MAX);
}

#[test]
fn failures_back_off_and_success_resets() {
    let mut d = SyncDriver::new(config(), 0);
    d.step(SyncEvent::Tick);
    assert_eq!(
        d.step(SyncEvent::FetchFailed { error: HarvestError::Timeout, jitter: 0 }),
        Action::Wait { millis: 100 }
    );
    assert_eq!(d.phase, Phase::Backoff);
    assert_eq!(d.failures, 1);
    d.step(SyncEvent::Tick);
    assert_eq!(
        d.step(SyncEvent::FetchFailed { error: HarvestError::Status(502), jitter: 0 }),
        Action::Wait { millis: 200 }
    );
    d.step(SyncEvent::Tick);
    assert_eq!(
        d.step(SyncEvent::FetchFailed { error: HarvestError::Malformed, jitter: 0 }),
        Action::Wait { millis: 1000 }
    );
    assert_eq!(d.failures, 3);
    assert_eq!(d.step(SyncEvent::Tick), Action::Fetch { since: 0 });
    d.step(SyncEvent::Fetched { includes_items_until: 5, has_more: false });
    assert_eq!(d.step(SyncEvent::ApplyUnavailable { jitter: 0 }), Action::Wait { millis: 800 });
    assert_eq!(d.watermark, 0);
    assert_eq!(d.step(SyncEvent::Tick), Action::Fetch { since: 0 });
    d.step(SyncEvent::Fetched { includes_items_until: 5, has_more: false });
    assert_eq!(d.step(SyncEvent::Applied { invalid: 0 }), Action::Save { watermark: 5 });
    assert_eq!(d.step(SyncEvent::SaveFailed { jitter: 0 }), Action::Wait { millis: 1000 });
    assert_eq!(d.watermark, 0);
    assert_eq!(d.step(SyncEvent::Tick), Action::Fetch { since: 0 });
    d.step(SyncEvent::Fetched { includes_items_until: 5, has_more: false });
    d.step(SyncEvent::Applied { invalid: 0 });
    d.step(SyncEvent::Saved);
    assert_eq!(d.failures, 0);
    assert_eq!(d.watermark, 5);
}

#[test]
fn stop_waits_for_the_page_under_way() {
    let mut d = SyncDriver::new(config(), 0);
    d.step(SyncEvent::Tick);
    d.step(SyncEvent::Fetched { includes_items_until: 10, has_more: true });
    assert_eq!(d.step(SyncEvent::Stop), Action::Continue);
    assert_eq!(d.phase, Phase::Applying);
    assert_eq!(d.step(SyncEvent::Applied { invalid: 0 }), Action::Save { watermark: 10 });
    assert_eq!(d.step(SyncEvent::Saved), Action::Halt);
    assert_eq!(d.phase, Phase::Stopped);
    assert_eq!(d.watermark, 10);
    assert_eq!(d.step(SyncEvent::Tick), Action::Halt);
    assert_eq!(d.phase, Phase::Stopped);
}

#[test]
fn stop_between_pages_is_immediate() {
    for prepare in [0, 1, 2] {
        let mut d = SyncDriver::new(config(), 0);
        if prepare >= 1 {
            d.step(SyncEvent::Tick);
        }
        if prepare >= 2 {
            d.step(SyncEvent::FetchFailed { error: HarvestError::Transport, jitter: 1 });
        }
        assert_eq!(d.step(SyncEvent::Stop), Action::Halt);
        assert_eq!(d.phase, Phase::Stopped);
    }
}

#[test]
fn stray_events_are_ignored() {
    let mut d = SyncDriver::new(config(), 42);
    let before = d;
    assert_eq!(d.step(SyncEvent::Saved), Action::Continue);
    assert_eq!(d.step(SyncEvent::Applied { invalid: 1 }), Action::Continue);
    assert_eq!(d, before);
}

#[test]
fn watermark_is_monotonic_over_any_run() {
    let events = [
        SyncEvent::Tick,
        SyncEvent::Fetched { includes_items_until: 50, has_more: true },
        SyncEvent::Applied { invalid: 0 },
        SyncEvent::Saved,
        SyncEvent::Fetched { includes_items_until: 20, has_more: false },
        SyncEvent::Applied { invalid: 0 },
        SyncEvent::Saved,
        SyncEvent::Tick,
        SyncEvent::FetchFailed { error: HarvestError::Timeout, jitter: 3 },
        SyncEvent::Tick,
        SyncEvent::Fetched { includes_items_until: 70, has_more: false },
        SyncEvent::ApplyUnavailable { jitter: 9 },
        SyncEvent::Tick,
        SyncEvent::Fetched { includes_items_until: 70, has_more: false },
        SyncEvent::Applied { invalid: 2 },
        SyncEvent::SaveFailed { jitter: 1 },
        SyncEvent::Stop,
    ];
    let mut d = SyncDriver::new(config(), 30);
    let mut seen = d.watermark;
    for (n, e) in events.iter().enumerate() {
        d.step(*e);
        assert!(d.watermark >= seen);
        seen = d.watermark;
        if n % 5 == 4 {
            // A crash: a new driver resumes from what was durable.
            d = SyncDriver::new(config(), d.watermark);
        }
    }
    assert_eq!(seen, 50);
}

#[test]
fn tally_counts_invalid_and_gives_up_on_unavailable() {
    let t = PageTally::new();
    assert_eq!(t.invalid, 0);
    let t = t.record(Ok(())).unwrap();
    assert_eq!(t.invalid, 0);
    let t = t.record(Err(ApplyError::Invalid)).unwrap();
    let t = t.record(Err(ApplyError::Invalid)).unwrap();
    assert_eq!(t.invalid, 2);
    assert_eq!(t.record(Err(ApplyError::Unavailable)), None);
    assert_eq!(PageTally { invalid: u64::MAX }.record(Err(ApplyError::Invalid)).unwrap().invalid, u64::MAX);
    assert_eq!(PageTally::report(Some(t), 9), SyncEvent::Applied { invalid: 2 });
    assert_eq!(PageTally::report(None, 9), SyncEvent::ApplyUnavailable { jitter: 9 });
}
