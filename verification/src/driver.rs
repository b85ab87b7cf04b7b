//! The control loop as a state machine.
//!
//! The driver decides; its caller acts. After each action the caller hands
//! back what happened, and the driver names the next action. Fetching,
//! writing and waiting thus stay outside, and every decision is in here.

use vstd::prelude::*;
use vstd::arithmetic::power2::{lemma2_to64, lemma_pow2_pos, lemma_pow2_unfold, pow2};
use crate::model::Timestamp;
use crate::store::ApplyError;
use crate::sync::advanced;

verus! {

/// Why a page could not be had.
#[derive(Debug, Clone, Copy, PartialEq, Eq, Structural)]
pub enum HarvestError {
    /// The request ran out of time.
    Timeout,
    /// The connection failed.
    Transport,
    /// Upstream answered with a status other than success.
    Status(u16),
    /// The body could not be decoded, or held an item of unknown kind.
    Malformed,
}

impl HarvestError {
    /// Whether trying again soon can help (model): time-outs, failures of
    /// the connection and server errors (5xx) are passing; other statuses
    /// and a malformed body are not.
    pub open spec fn retryable(self) -> bool {
        match self {
            HarvestError::Timeout => true,
            HarvestError::Transport => true,
            HarvestError::Status(code) => 500 <= code <= 599,
            HarvestError::Malformed => false,
        }
    }

    /// Whether trying again soon can help.
    pub fn is_retryable(&self) -> (r: bool)
        ensures
            r == self.retryable(),
    {
        match self {
            HarvestError::Timeout => true,
            HarvestError::Transport => true,
            HarvestError::Status(code) => 500 <= *code && *code <= 599,
            HarvestError::Malformed => false,
        }
    }
}

/// The intervals of the loop, in milliseconds.
#[derive(Debug, Clone, Copy, PartialEq, Eq, Structural)]
pub struct Config {
    /// How long to rest when upstream has nothing more.
    pub poll_interval_ms: u64,
    /// The wait after a first failure, before jitter.
    pub backoff_base_ms: u64,
    /// The longest wait after a failure.
    pub backoff_max_ms: u64,
}

/// The wait before jitter after `failures` earlier failures in a row: the
/// base, doubled for each of them, never above the maximum.
pub open spec fn backoff_ceiling(base: nat, max: nat, failures: nat) -> nat
    decreases failures,
{
    if failures == 0 {
        if base < max {
            base
        } else {
            max
        }
    } else {
        let doubled = 2 * backoff_ceiling(base, max, (failures - 1) as nat);
        if doubled < max {
            doubled
        } else {
            max
        }
    }
}

/// A wait with jitter: the ceiling less up to half of it.
pub open spec fn jittered(ceiling: nat, jitter: nat) -> nat {
    (ceiling - jitter % (ceiling / 2 + 1)) as nat
}

proof fn lemma_ceiling_stays_capped(base: nat, max: nat, i: nat, n: nat)
    requires
        i <= n,
        backoff_ceiling(base, max, i) == max,
    ensures
        backoff_ceiling(base, max, n) == max,
    decreases n,
{
    if i < n {
        lemma_ceiling_stays_capped(base, max, i, (n - 1) as nat);
    }
}

proof fn lemma_ceiling_of_nothing(max: nat, n: nat)
    ensures
        backoff_ceiling(0, max, n) == 0,
    decreases n,
{
    if n > 0 {
        lemma_ceiling_of_nothing(max, (n - 1) as nat);
    }
}

/// The ceiling never exceeds the maximum and never shrinks as failures
/// mount.
pub proof fn law_backoff_bounded_and_growing(base: nat, max: nat, failures: nat)
    ensures
        backoff_ceiling(base, max, failures) <= max,
        backoff_ceiling(base, max, failures) <= backoff_ceiling(base, max, failures + 1),
    decreases failures,
{
    if failures > 0 {
        law_backoff_bounded_and_growing(base, max, (failures - 1) as nat);
    }
}

/// The ceiling is the base times two to the number of failures, unless
/// that exceeds the maximum.
pub proof fn law_backoff_is_capped_exponential(base: nat, max: nat, failures: nat)
    ensures
        backoff_ceiling(base, max, failures) == if base * pow2(failures) < max {
            base * pow2(failures)
        } else {
            max
        },
    decreases failures,
{
    if failures == 0 {
        lemma2_to64();
    } else {
        let n = (failures - 1) as nat;
        law_backoff_is_capped_exponential(base, max, n);
        lemma_pow2_unfold(failures);
        lemma_pow2_pos(n);
        assert(base * pow2(failures) == 2 * (base * pow2(n))) by (nonlinear_arith)
            requires
                pow2(failures) == 2 * pow2(n),
        ;
    }
}

/// The wait before jitter after `failures` earlier failures in a row.
pub fn ceiling(config: &Config, failures: u32) -> (c: u64)
    ensures
        c as nat == backoff_ceiling(
            config.backoff_base_ms as nat,
            config.backoff_max_ms as nat,
            failures as nat,
        ),
{
    let base: u64 = config.backoff_base_ms;
    let max: u64 = config.backoff_max_ms;
    if base == 0 {
        proof {
            lemma_ceiling_of_nothing(max as nat, failures as nat);
        }
        return 0;
    }
    let mut c: u64 = if base < max {
        base
    } else {
        max
    };
    let mut i: u32 = 0;
    while i < failures && c < max
        invariant
            i <= failures,
            c <= max,
            c as nat == backoff_ceiling(base as nat, max as nat, i as nat),
        decreases failures - i,
    {
        c = if c > max / 2 {
            max
        } else {
            c * 2
        };
        i += 1;
    }
    proof {
        if i < failures {
            lemma_ceiling_stays_capped(base as nat, max as nat, i as nat, failures as nat);
        }
    }
    c
}

/// The wait after a failure: the ceiling for this many earlier failures,
/// less a share of up to half of it that `jitter` picks.
pub fn backoff_delay(config: &Config, failures: u32, jitter: u64) -> (ms: u64)
    ensures
        ms as nat == jittered(
            backoff_ceiling(
                config.backoff_base_ms as nat,
                config.backoff_max_ms as nat,
                failures as nat,
            ),
            jitter as nat,
        ),
        ms <= config.backoff_max_ms,
{
    let c: u64 = ceiling(config, failures);
    proof {
        law_backoff_bounded_and_growing(
            config.backoff_base_ms as nat,
            config.backoff_max_ms as nat,
            failures as nat,
        );
    }
    c - jitter % (c / 2 + 1)
}

/// Where the loop stands.
#[derive(Debug, Clone, Copy, PartialEq, Eq, Structural)]
pub enum Phase {
    /// Resting until the next poll.
    Idle,
    /// A page has been asked for.
    Fetching,
    /// A page is being applied.
    Applying,
    /// The new watermark is being persisted.
    Advancing,
    /// Waiting after a failure.
    Backoff,
    /// Stopped for good.
    Stopped,
}

/// What the caller reports to the driver.
#[derive(Debug, Clone, Copy, PartialEq, Eq, Structural)]
pub enum SyncEvent {
    /// The loop starts, or a wait is over.
    Tick,
    /// A page has arrived.
    Fetched { includes_items_until: Timestamp, has_more: bool },
    /// No page could be had. `jitter` is a number drawn at random.
    FetchFailed { error: HarvestError, jitter: u64 },
    /// Every item of the page was applied or skipped as invalid.
    Applied { invalid: u64 },
    /// The store could not be reached in the middle of the page.
    ApplyUnavailable { jitter: u64 },
    /// The watermark is durable.
    Saved,
    /// The watermark could not be persisted.
    SaveFailed { jitter: u64 },
    /// The operator asks the loop to stop.
    Stop,
}

/// What the driver asks of its caller.
#[derive(Debug, Clone, Copy, PartialEq, Eq, Structural)]
pub enum Action {
    /// Ask upstream for the changes since this instant, itself included.
    Fetch { since: Timestamp },
    /// Apply the page that has arrived, item by item, in feed order.
    ApplyPage,
    /// Persist this watermark.
    Save { watermark: Timestamp },
    /// Wait this many milliseconds, then report a tick.
    Wait { millis: u64 },
    /// Go on with what is under way.
    Continue,
    /// End the loop.
    Halt,
}

/// The state of the control loop.
#[derive(Debug, Clone, Copy, PartialEq, Eq, Structural)]
pub struct SyncDriver {
    pub config: Config,
    pub phase: Phase,
    /// The last watermark known to be durable.
    pub watermark: Timestamp,
    /// The promise of the page under way.
    pub target: Timestamp,
    /// Whether the page under way is followed by another.
    pub has_more: bool,
    /// Whether a stop was asked for while a page was under way.
    pub stop_requested: bool,
    /// Failures in a row since the last completed cycle.
    pub failures: u32,
    /// Items skipped as invalid so far.
    pub skipped: u64,
}

/// The state and action after a failure that is waited out.
pub open spec fn after_failure(d: SyncDriver, millis: u64) -> (SyncDriver, Action) {
    if d.stop_requested {
        (SyncDriver { phase: Phase::Stopped, ..d }, Action::Halt)
    } else {
        (
            SyncDriver {
                phase: Phase::Backoff,
                failures: if d.failures < u32::MAX {
                    (d.failures + 1) as u32
                } else {
                    d.failures
                },
                ..d
            },
            Action::Wait { millis },
        )
    }
}

/// The state and action once a cycle is complete.
pub open spec fn after_cycle(d: SyncDriver) -> (SyncDriver, Action) {
    if d.stop_requested {
        (SyncDriver { phase: Phase::Stopped, failures: 0, ..d }, Action::Halt)
    } else if d.has_more {
        (SyncDriver { phase: Phase::Fetching, failures: 0, ..d }, Action::Fetch { since: d.watermark })
    } else {
        (
            SyncDriver { phase: Phase::Idle, failures: 0, ..d },
            Action::Wait { millis: d.config.poll_interval_ms },
        )
    }
}

/// The wait that the driver asks for after a passing failure.
pub open spec fn backoff_wait(d: SyncDriver, jitter: u64) -> u64 {
    jittered(
        backoff_ceiling(
            d.config.backoff_base_ms as nat,
            d.config.backoff_max_ms as nat,
            d.failures as nat,
        ),
        jitter as nat,
    ) as u64
}

/// The transition table: the state and the action that follow an event.
pub open spec fn transition(d: SyncDriver, e: SyncEvent) -> (SyncDriver, Action) {
    match d.phase {
        Phase::Stopped => (d, Action::Halt),
        Phase::Idle | Phase::Backoff => match e {
            SyncEvent::Tick => (
                SyncDriver { phase: Phase::Fetching, ..d },
                Action::Fetch { since: d.watermark },
            ),
            SyncEvent::Stop => (SyncDriver { phase: Phase::Stopped, ..d }, Action::Halt),
            _ => (d, Action::Continue),
        },
        Phase::Fetching => match e {
            SyncEvent::Fetched { includes_items_until, has_more } => (
                SyncDriver { phase: Phase::Applying, target: includes_items_until, has_more, ..d },
                Action::ApplyPage,
            ),
            SyncEvent::FetchFailed { error, jitter } => after_failure(
                d,
                if error.retryable() {
                    backoff_wait(d, jitter)
                } else {
                    d.config.backoff_max_ms
                },
            ),
            SyncEvent::Stop => (SyncDriver { phase: Phase::Stopped, ..d }, Action::Halt),
            _ => (d, Action::Continue),
        },
        Phase::Applying => match e {
            SyncEvent::Applied { invalid } => {
                let counted = SyncDriver {
                    skipped: if d.skipped + invalid > u64::MAX {
                        u64::MAX
                    } else {
                        (d.skipped + invalid) as u64
                    },
                    ..d
                };
                if d.target > d.watermark {
                    (
                        SyncDriver { phase: Phase::Advancing, ..counted },
                        Action::Save { watermark: d.target },
                    )
                } else {
                    after_cycle(counted)
                }
            },
            SyncEvent::ApplyUnavailable { jitter } => after_failure(d, backoff_wait(d, jitter)),
            SyncEvent::Stop => (SyncDriver { stop_requested: true, ..d }, Action::Continue),
            _ => (d, Action::Continue),
        },
        Phase::Advancing => match e {
            SyncEvent::Saved => after_cycle(
                SyncDriver { watermark: advanced(d.watermark as int, d.target as int) as i64, ..d },
            ),
            SyncEvent::SaveFailed { jitter } => after_failure(d, backoff_wait(d, jitter)),
            SyncEvent::Stop => (SyncDriver { stop_requested: true, ..d }, Action::Continue),
            _ => (d, Action::Continue),
        },
    }
}

impl SyncDriver {
    /// A driver at rest that resumes from a loaded watermark.
    pub fn new(config: Config, watermark: Timestamp) -> (d: SyncDriver)
        ensures
            d == (SyncDriver {
                config,
                phase: Phase::Idle,
                watermark,
                target: watermark,
                has_more: false,
                stop_requested: false,
                failures: 0,
                skipped: 0,
            }),
    {
        SyncDriver {
            config,
            phase: Phase::Idle,
            watermark,
            target: watermark,
            has_more: false,
            stop_requested: false,
            failures: 0,
            skipped: 0,
        }
    }

    fn fail(&mut self, millis: u64) -> (a: Action)
        ensures
            (*final(self), a) == after_failure(*old(self), millis),
    {
        if self.stop_requested {
            self.phase = Phase::Stopped;
            Action::Halt
        } else {
            self.phase = Phase::Backoff;
            if self.failures < u32::MAX {
                self.failures = self.failures + 1;
            }
            Action::Wait { millis }
        }
    }

    fn complete(&mut self) -> (a: Action)
        ensures
            (*final(self), a) == after_cycle(*old(self)),
    {
        self.failures = 0;
        if self.stop_requested {
            self.phase = Phase::Stopped;
            Action::Halt
        } else if self.has_more {
            self.phase = Phase::Fetching;
            Action::Fetch { since: self.watermark }
        } else {
            self.phase = Phase::Idle;
            Action::Wait { millis: self.config.poll_interval_ms }
        }
    }

    /// Takes in what happened and names what to do next. The watermark
    /// moves only when a save is confirmed, and never backwards.
    pub fn step(&mut self, event: SyncEvent) -> (a: Action)
        ensures
            (*final(self), a) == transition(*old(self), event),
            final(self).watermark >= old(self).watermark,
    {
        match self.phase {
            Phase::Stopped => Action::Halt,
            Phase::Idle | Phase::Backoff => match event {
                SyncEvent::Tick => {
                    self.phase = Phase::Fetching;
                    Action::Fetch { since: self.watermark }
                },
                SyncEvent::Stop => {
                    self.phase = Phase::Stopped;
                    Action::Halt
                },
                _ => Action::Continue,
            },
            Phase::Fetching => match event {
                SyncEvent::Fetched { includes_items_until, has_more } => {
                    self.phase = Phase::Applying;
                    self.target = includes_items_until;
                    self.has_more = has_more;
                    Action::ApplyPage
                },
                SyncEvent::FetchFailed { error, jitter } => {
                    let millis: u64 = if error.is_retryable() {
                        backoff_delay(&self.config, self.failures, jitter)
                    } else {
                        self.config.backoff_max_ms
                    };
                    self.fail(millis)
                },
                SyncEvent::Stop => {
                    self.phase = Phase::Stopped;
                    Action::Halt
                },
                _ => Action::Continue,
            },
            Phase::Applying => match event {
                SyncEvent::Applied { invalid } => {
                    self.skipped = if invalid > u64::MAX - self.skipped {
                        u64::MAX
                    } else {
                        self.skipped + invalid
                    };
                    if self.target > self.watermark {
                        self.phase = Phase::Advancing;
                        Action::Save { watermark: self.target }
                    } else {
                        self.complete()
                    }
                },
                SyncEvent::ApplyUnavailable { jitter } => {
                    let millis: u64 = backoff_delay(&self.config, self.failures, jitter);
                    self.fail(millis)
                },
                SyncEvent::Stop => {
                    self.stop_requested = true;
                    Action::Continue
                },
                _ => Action::Continue,
            },
            Phase::Advancing => match event {
                SyncEvent::Saved => {
                    if self.target > self.watermark {
                        self.watermark = self.target;
                    }
                    self.complete()
                },
                SyncEvent::SaveFailed { jitter } => {
                    let millis: u64 = backoff_delay(&self.config, self.failures, jitter);
                    self.fail(millis)
                },
                SyncEvent::Stop => {
                    self.stop_requested = true;
                    Action::Continue
                },
                _ => Action::Continue,
            },
        }
    }
}

/// How far a page has come: how many of its items were skipped as invalid.
#[derive(Debug, Clone, Copy, PartialEq, Eq, Structural)]
pub struct PageTally {
    pub invalid: u64,
}

/// The tally after one more item, or nothing if the page is to be given up:
/// an applied item leaves the tally as it is, an invalid one is counted and
/// passed over, and an unreachable store ends the page.
pub open spec fn tally_after(tally: PageTally, outcome: Result<(), ApplyError>) -> Option<PageTally> {
    match outcome {
        Ok(_) => Some(tally),
        Err(ApplyError::Invalid) => Some(
            PageTally {
                invalid: if tally.invalid < u64::MAX {
                    (tally.invalid + 1) as u64
                } else {
                    tally.invalid
                },
            },
        ),
        Err(ApplyError::Unavailable) => None,
    }
}

impl PageTally {
    /// The tally of a page of which no item has been tried yet.
    pub fn new() -> (t: PageTally)
        ensures
            t.invalid == 0,
    {
        PageTally { invalid: 0 }
    }

    /// Takes in what became of the next item of the page.
    pub fn record(self, outcome: Result<(), ApplyError>) -> (r: Option<PageTally>)
        ensures
            r == tally_after(self, outcome),
    {
        match outcome {
            Ok(_) => Some(self),
            Err(ApplyError::Invalid) => Some(
                PageTally {
                    invalid: if self.invalid < u64::MAX {
                        self.invalid + 1
                    } else {
                        self.invalid
                    },
                },
            ),
            Err(ApplyError::Unavailable) => None,
        }
    }

    /// What to report to the driver at the end of a page: that it was
    /// applied, with the count of skipped items, or, where it was given up,
    /// that the store was unavailable.
    pub fn report(tally: Option<PageTally>, jitter: u64) -> (e: SyncEvent)
        ensures
            e == match tally {
                Some(t) => SyncEvent::Applied { invalid: t.invalid },
                None => SyncEvent::ApplyUnavailable { jitter },
            },
    {
        match tally {
            Some(t) => SyncEvent::Applied { invalid: t.invalid },
            None => SyncEvent::ApplyUnavailable { jitter },
        }
    }
}

/// What can befall a driver: an event, or a crash after which a new driver
/// starts from what was durable. `save_landed` says whether a save that was
/// under way at the crash reached the disk.
pub enum Occurrence {
    Event(SyncEvent),
    Crash { save_landed: bool },
}

/// The driver after one occurrence.
pub open spec fn after(d: SyncDriver, o: Occurrence) -> SyncDriver {
    match o {
        Occurrence::Event(e) => transition(d, e).0,
        Occurrence::Crash { save_landed } => SyncDriver {
            config: d.config,
            phase: Phase::Idle,
            watermark: if save_landed && d.phase == Phase::Advancing {
                advanced(d.watermark as int, d.target as int) as i64
            } else {
                d.watermark
            },
            target: d.watermark,
            has_more: false,
            stop_requested: false,
            failures: 0,
            skipped: 0,
        },
    }
}

/// The driver after a run of occurrences.
pub open spec fn after_all(d: SyncDriver, run: Seq<Occurrence>) -> SyncDriver
    decreases run.len(),
{
    if run.len() == 0 {
        d
    } else {
        after_all(after(d, run[0]), run.drop_first())
    }
}

/// Across any run of events, crashes and restarts included, the watermark
/// never decreases.
pub proof fn law_watermark_monotonic(d: SyncDriver, run: Seq<Occurrence>)
    ensures
        after_all(d, run).watermark >= d.watermark,
    decreases run.len(),
{
    if run.len() > 0 {
        law_watermark_monotonic(after(d, run[0]), run.drop_first());
    }
}

/// After a crash before the save was durable, the new driver asks again for
/// the changes since the watermark that the crashed one had started from,
/// so the page that was under way comes again.
pub proof fn law_restart_asks_again(d: SyncDriver)
    ensures
        transition(after(d, Occurrence::Crash { save_landed: false }), SyncEvent::Tick).1 == (
        Action::Fetch { since: d.watermark }),
{
}

/// The watermark moves only when a save is confirmed: no other event
/// changes it.
pub proof fn law_watermark_moves_only_on_save(d: SyncDriver, e: SyncEvent)
    requires
        e != SyncEvent::Saved,
    ensures
        transition(d, e).0.watermark == d.watermark,
{
}

/// A stop never interrupts a page under way: while a page is applied or its
/// watermark saved, the driver notes the request and stays in its phase.
pub proof fn law_stop_spares_the_page(d: SyncDriver)
    requires
        d.phase == Phase::Applying || d.phase == Phase::Advancing,
    ensures
        transition(d, SyncEvent::Stop) == (
            SyncDriver { stop_requested: true, ..d },
            Action::Continue,
        ),
{
}

/// Between pages a stop takes effect at once, and a stopped driver stays
/// stopped whatever happens.
pub proof fn law_stop_is_final(d: SyncDriver, e: SyncEvent)
    ensures
        d.phase == Phase::Idle || d.phase == Phase::Backoff || d.phase == Phase::Fetching
            ==> transition(d, SyncEvent::Stop).0.phase == Phase::Stopped,
        d.phase == Phase::Stopped ==> transition(d, e) == (d, Action::Halt),
{
}

/// Invalid items do not hold the watermark back: when a page whose promise
/// lies ahead has been applied, however many of its items were skipped, the
/// driver asks for that promise to be saved, and once the save is confirmed
/// the watermark is that promise.
pub proof fn law_invalid_items_do_not_block(d: SyncDriver, invalid: u64)
    requires
        d.phase == Phase::Applying,
        d.target > d.watermark,
    ensures
        transition(d, SyncEvent::Applied { invalid }).1 == (Action::Save { watermark: d.target }),
        transition(transition(d, SyncEvent::Applied { invalid }).0, SyncEvent::Saved).0.watermark
            == d.target,
{
}

} // verus!
