//! Database resilience: a three-state circuit breaker driven by health
//! pings, and the bookkeeping of the connection queue that admits or
//! rejects database-bound requests.

use std::time::{Duration, Instant};
use vstd::prelude::*;
use crate::clock::{duration_in_nanos, duration_nanos, elapsed_nanos, instant_now};
use crate::text::str_eq;

verus! {

/// Breaker states.
#[derive(Debug, Clone, Copy, PartialEq, Eq, Structural)]
pub enum BreakerState {
    Closed,
    Open,
    HalfOpen,
}

impl BreakerState {
    /// Numeric value exported on the breaker-state gauge.
    pub fn to_gauge_value(self) -> (v: i64)
        ensures
            v == match self {
                BreakerState::Closed => 0i64,
                BreakerState::Open => 1i64,
                BreakerState::HalfOpen => 2i64,
            },
    {
        match self {
            BreakerState::Closed => 0,
            BreakerState::Open => 1,
            BreakerState::HalfOpen => 2,
        }
    }
}

/// The abstract state of a breaker.
pub struct BreakerView {
    pub state: BreakerState,
    pub failures: u32,
    pub threshold: u32,
    pub recovery_nanos: u128,
}

/// Circuit breaker for database health.
///
/// `Closed` lets requests through; `failure_threshold` consecutive failed
/// pings trip it to `Open`, where requests are fast-failed.  After the
/// recovery time an `Open` breaker moves to `HalfOpen`; the next ping
/// closes it on success and re-opens it on failure.
#[derive(Debug)]
pub struct CircuitBreaker {
    state: BreakerState,
    consecutive_failures: u32,
    last_state_change: Instant,
    failure_threshold: u32,
    recovery_nanos: u128,
}

impl CircuitBreaker {
    pub closed spec fn view(&self) -> BreakerView {
        BreakerView {
            state: self.state,
            failures: self.consecutive_failures,
            threshold: self.failure_threshold,
            recovery_nanos: self.recovery_nanos,
        }
    }

    /// When the breaker last changed state.
    pub closed spec fn last_change(&self) -> Instant {
        self.last_state_change
    }

    /// A closed breaker with no recorded failures.
    pub fn new(failure_threshold: u32, recovery_time: Duration) -> (cb: Self)
        ensures
            cb@.state == BreakerState::Closed,
            cb@.failures == 0,
            cb@.threshold == failure_threshold,
            cb@.recovery_nanos == duration_in_nanos(recovery_time),
    {
        let nanos = duration_nanos(&recovery_time);
        Self::with_recovery_nanos(failure_threshold, nanos)
    }

    /// A closed breaker whose recovery time is given in nanoseconds.
    pub fn with_recovery_nanos(failure_threshold: u32, recovery_nanos: u128) -> (cb: Self)
        ensures
            cb@ == (BreakerView {
                state: BreakerState::Closed,
                failures: 0,
                threshold: failure_threshold,
                recovery_nanos,
            }),
    {
        CircuitBreaker {
            state: BreakerState::Closed,
            consecutive_failures: 0,
            last_state_change: instant_now(),
            failure_threshold,
            recovery_nanos,
        }
    }

    /// The current state.
    pub fn state(&self) -> (s: BreakerState)
        ensures
            s == self@.state,
    {
        self.state
    }

    /// `true` when requests should be fast-failed.
    pub fn is_open(&self) -> (b: bool)
        ensures
            b == (self@.state == BreakerState::Open),
    {
        match self.state {
            BreakerState::Open => true,
            _ => false,
        }
    }

    /// Consecutive failures counted so far.
    pub fn consecutive_failures(&self) -> (n: u32)
        ensures
            n == self@.failures,
    {
        self.consecutive_failures
    }

    /// A successful ping: the failure count is reset and the breaker closes.
    pub fn record_success(&mut self)
        ensures
            final(self)@ == (BreakerView {
                state: BreakerState::Closed,
                failures: 0,
                ..old(self)@
            }),
            old(self)@.state == BreakerState::Closed ==> final(self).last_change() == old(self).last_change(),
    {
        self.consecutive_failures = 0;
        match self.state {
            BreakerState::Closed => {},
            _ => {
                self.state = BreakerState::Closed;
                self.last_state_change = instant_now();
            },
        }
    }

    /// A failed or timed-out ping.  The failure count grows by one; a
    /// closed breaker that reaches its threshold opens, and a half-open
    /// breaker re-opens.
    pub fn record_failure(&mut self)
        requires
            old(self)@.failures < u32::MAX,
        ensures
            final(self)@ == after_failure(old(self)@),
            final(self)@.state == old(self)@.state ==> final(self).last_change() == old(self).last_change(),
            final(self)@.failures == old(self)@.failures + 1,
            final(self)@.threshold == old(self)@.threshold,
            final(self)@.recovery_nanos == old(self)@.recovery_nanos,
            final(self)@.state == next_state_on_failure(
                old(self)@.state,
                (old(self)@.failures + 1) as u32,
                old(self)@.threshold,
            ),
    {
        let failures = self.consecutive_failures + 1;
        self.consecutive_failures = failures;
        match self.state {
            BreakerState::Closed => {
                if failures >= self.failure_threshold {
                    self.state = BreakerState::Open;
                    self.last_state_change = instant_now();
                }
            },
            BreakerState::HalfOpen => {
                self.state = BreakerState::Open;
                self.last_state_change = instant_now();
            },
            BreakerState::Open => {},
        }
    }

    /// Once per ping cycle: an open breaker whose recovery time has passed
    /// since its last state change moves to half-open.  The breaker takes
    /// the recovery step for the time it reads as elapsed since its last
    /// state change (the reading itself is the clock's).
    pub fn check_recovery(&mut self)
        ensures
            exists|elapsed: u128| final(self)@ == #[trigger] recovery_step(old(self)@, elapsed),
            final(self)@.state == old(self)@.state ==> final(self).last_change() == old(self).last_change(),
            final(self)@.threshold == old(self)@.threshold,
            final(self)@.recovery_nanos == old(self)@.recovery_nanos,
            old(self)@.state != BreakerState::Open ==> final(self)@ == old(self)@,
            old(self)@.state == BreakerState::Open ==> (final(self)@ == old(self)@
                || final(self)@ == (BreakerView {
                state: BreakerState::HalfOpen,
                failures: 0,
                ..old(self)@
            })),
    {
        if self.is_open() {
            let elapsed = elapsed_nanos(&self.last_state_change);
            let now = instant_now();
            self.check_recovery_after(elapsed, now);
            assert(self@ == recovery_step(old(self)@, elapsed));
        } else {
            assert(self@ == recovery_step(old(self)@, 0));
        }
    }

    /// The recovery step for a known elapsed time since the last state
    /// change, at time `now`: on the move to half-open, `now` becomes the
    /// time of the last state change.
    pub fn check_recovery_after(&mut self, elapsed_nanos: u128, now: Instant)
        ensures
            final(self)@ == recovery_step(old(self)@, elapsed_nanos),
            final(self).last_change() == (if recovery_moves(old(self)@, elapsed_nanos) {
                now
            } else {
                old(self).last_change()
            }),
            final(self)@ == (if old(self)@.state == BreakerState::Open && elapsed_nanos
                >= old(self)@.recovery_nanos {
                BreakerView { state: BreakerState::HalfOpen, failures: 0, ..old(self)@ }
            } else {
                old(self)@
            }),
    {
        if self.is_open() && elapsed_nanos >= self.recovery_nanos {
            self.state = BreakerState::HalfOpen;
            self.consecutive_failures = 0;
            self.last_state_change = now;
        }
    }
}

/// The state a breaker moves to on a failed ping, given the failure count
/// after that ping.
pub open spec fn next_state_on_failure(s: BreakerState, failures: u32, threshold: u32) -> BreakerState {
    match s {
        BreakerState::Closed => if failures >= threshold {
            BreakerState::Open
        } else {
            BreakerState::Closed
        },
        BreakerState::HalfOpen => BreakerState::Open,
        BreakerState::Open => BreakerState::Open,
    }
}


/// An open breaker whose recovery time has passed after `elapsed`
/// nanoseconds moves to half-open.
pub open spec fn recovery_moves(v: BreakerView, elapsed: u128) -> bool {
    v.state == BreakerState::Open && elapsed >= v.recovery_nanos
}

/// The recovery step after `elapsed` nanoseconds since the last state
/// change: an open breaker whose recovery time has passed goes half-open
/// with no failures counted; any other breaker stays as it is.
pub open spec fn recovery_step(v: BreakerView, elapsed: u128) -> BreakerView {
    if recovery_moves(v, elapsed) {
        BreakerView { state: BreakerState::HalfOpen, failures: 0, ..v }
    } else {
        v
    }
}

/// The breaker after one failed ping (what `record_failure` does).
pub open spec fn after_failure(v: BreakerView) -> BreakerView {
    BreakerView {
        state: next_state_on_failure(v.state, (v.failures + 1) as u32, v.threshold),
        failures: (v.failures + 1) as u32,
        ..v
    }
}

/// The breaker after `n` failed pings in a row.
pub open spec fn after_failures(v: BreakerView, n: nat) -> BreakerView
    decreases n,
{
    if n == 0 {
        v
    } else {
        after_failure(after_failures(v, (n - 1) as nat))
    }
}

/// A closed breaker with no failures stays closed for fewer than
/// `threshold` failed pings in a row and is open once `threshold` of them
/// have been recorded (and after any more).
pub proof fn law_breaker_trips_at_threshold(v: BreakerView, n: nat)
    requires
        v.state == BreakerState::Closed,
        v.failures == 0,
        n < u32::MAX,
    ensures
        after_failures(v, n).failures == n,
        after_failures(v, n).threshold == v.threshold,
        after_failures(v, n).state == (if n >= v.threshold && n > 0 {
            BreakerState::Open
        } else {
            BreakerState::Closed
        }),
    decreases n,
{
    if n > 0 {
        law_breaker_trips_at_threshold(v, (n - 1) as nat);
    }
}

/// Why a request could not obtain a database permit.
#[derive(Debug, Clone, Copy, PartialEq, Eq, Structural)]
pub enum DbQueueError {
    QueueFull,
    Timeout,
    SemaphoreClosed,
}

impl DbQueueError {
    /// The error's message.
    pub fn message(&self) -> (m: &'static str)
        ensures
            m@ == match self {
                DbQueueError::QueueFull => "database request queue is full"@,
                DbQueueError::Timeout => "timeout waiting for a database connection permit"@,
                DbQueueError::SemaphoreClosed => "database connection semaphore was closed"@,
            },
    {
        match self {
            DbQueueError::QueueFull => "database request queue is full",
            DbQueueError::Timeout => "timeout waiting for a database connection permit",
            DbQueueError::SemaphoreClosed => "database connection semaphore was closed",
        }
    }
}

/// How a wait for a semaphore permit ended.
#[derive(Debug, Clone, Copy, PartialEq, Eq, Structural)]
pub enum WaitOutcome {
    Granted,
    TimedOut,
    Closed,
}

/// How a request for a permit is admitted.
#[derive(Debug, Clone, Copy, PartialEq, Eq, Structural)]
pub enum Admission {
    /// A permit was free: the request holds it at once.
    Granted,
    /// Every permit is held: the request waits for one.
    MustWait,
}

/// Request counts of the connection queue: how many requests wait for a
/// permit and how many hold one, with the number of permits and the limit
/// on waiting requests.
#[derive(Debug)]
pub struct DbQueueCounters {
    queued: usize,
    active: usize,
    permits: usize,
    queue_limit: usize,
}

pub struct QueueView {
    pub queued: nat,
    pub active: nat,
    pub permits: nat,
    pub queue_limit: nat,
}

/// The counts once a request takes a free permit at once.
pub open spec fn granted_at_once(v: QueueView) -> QueueView {
    QueueView { active: v.active + 1, ..v }
}

/// The counts once a request starts waiting.
pub open spec fn enqueued(v: QueueView) -> QueueView {
    QueueView { queued: v.queued + 1, ..v }
}

/// The counts once a waiting request stops waiting with `outcome`.
pub open spec fn waited(v: QueueView, outcome: WaitOutcome) -> QueueView {
    QueueView {
        queued: (v.queued - 1) as nat,
        active: if outcome == WaitOutcome::Granted { v.active + 1 } else { v.active },
        ..v
    }
}

/// The counts once a permit holder finishes.
pub open spec fn released(v: QueueView) -> QueueView {
    QueueView { active: (v.active - 1) as nat, ..v }
}

/// A request that takes a free permit and finishes leaves the counts as
/// they were; so does one that waits, gets a permit and finishes, and one
/// that waits and gives up (timeout or closed semaphore).
pub proof fn law_queue_counts_return(v: QueueView, outcome: WaitOutcome)
    ensures
        released(granted_at_once(v)) == v,
        outcome == WaitOutcome::Granted ==> released(waited(enqueued(v), outcome)) == v,
        outcome != WaitOutcome::Granted ==> waited(enqueued(v), outcome) == v,
{
}

impl DbQueueCounters {
    pub closed spec fn view(&self) -> QueueView {
        QueueView {
            queued: self.queued as nat,
            active: self.active as nat,
            permits: self.permits as nat,
            queue_limit: self.queue_limit as nat,
        }
    }

    /// Empty counters for a queue of `permits` permits that lets
    /// `queue_limit` requests wait.
    pub fn new(permits: usize, queue_limit: usize) -> (q: Self)
        ensures
            q@ == (QueueView {
                queued: 0,
                active: 0,
                permits: permits as nat,
                queue_limit: queue_limit as nat,
            }),
    {
        DbQueueCounters { queued: 0, active: 0, permits, queue_limit }
    }

    pub fn queued_count(&self) -> (n: usize)
        ensures
            n == self@.queued,
    {
        self.queued
    }

    pub fn active_count(&self) -> (n: usize)
        ensures
            n == self@.active,
    {
        self.active
    }

    /// `true` when no further request may wait.
    pub fn is_queue_full(&self) -> (b: bool)
        ensures
            b == (self@.queued >= self@.queue_limit),
    {
        self.queued >= self.queue_limit
    }

    /// A request asks for a permit: it takes one at once when one is free;
    /// otherwise it waits, unless the waiting queue is full, in which case
    /// it is rejected.  Only waiting requests count against the limit.
    pub fn request_permit(&mut self) -> (r: Result<Admission, DbQueueError>)
        ensures
            old(self)@.active < old(self)@.permits ==> r == Ok::<Admission, DbQueueError>(
                Admission::Granted,
            ) && final(self)@ == granted_at_once(old(self)@),
            old(self)@.active >= old(self)@.permits && old(self)@.queued >= old(self)@.queue_limit
                ==> r == Err::<Admission, DbQueueError>(DbQueueError::QueueFull) && final(self)@
                == old(self)@,
            old(self)@.active >= old(self)@.permits && old(self)@.queued < old(self)@.queue_limit
                ==> r == Ok::<Admission, DbQueueError>(Admission::MustWait) && final(self)@
                == enqueued(old(self)@),
    {
        if self.active < self.permits {
            self.active = self.active + 1;
            return Ok(Admission::Granted);
        }
        if self.queued >= self.queue_limit {
            return Err(DbQueueError::QueueFull);
        }
        self.queued = self.queued + 1;
        Ok(Admission::MustWait)
    }

    /// A waiting request stops waiting.  A granted permit makes it active;
    /// a timeout or a closed semaphore is reported as the matching error.
    pub fn finish_wait(&mut self, outcome: WaitOutcome) -> (r: Result<(), DbQueueError>)
        requires
            old(self)@.queued > 0,
            outcome == WaitOutcome::Granted ==> old(self)@.active < usize::MAX,
        ensures
            final(self)@ == waited(old(self)@, outcome),
            final(self)@.queued == old(self)@.queued - 1,
            final(self)@.queue_limit == old(self)@.queue_limit,
            r == match outcome {
                WaitOutcome::Granted => Ok(()),
                WaitOutcome::TimedOut => Err(DbQueueError::Timeout),
                WaitOutcome::Closed => Err(DbQueueError::SemaphoreClosed),
            },
            final(self)@.active == (if outcome == WaitOutcome::Granted {
                old(self)@.active + 1
            } else {
                old(self)@.active
            }),
    {
        self.queued = self.queued - 1;
        match outcome {
            WaitOutcome::Granted => {
                self.active = self.active + 1;
                Ok(())
            },
            WaitOutcome::TimedOut => Err(DbQueueError::Timeout),
            WaitOutcome::Closed => Err(DbQueueError::SemaphoreClosed),
        }
    }

    /// A permit holder finishes.
    pub fn release_permit(&mut self)
        requires
            old(self)@.active > 0,
        ensures
            final(self)@ == released(old(self)@),
    {
        self.active = self.active - 1;
    }
}

/// Health and metrics endpoints that stay reachable whatever the breaker
/// and the queue say.
pub open spec fn is_bypass_path(path: Seq<char>) -> bool {
    path == "/health"@ || path == "/health/live"@ || path == "/health/ready"@ || path
        == "/health/detailed"@ || path == "/metrics"@
}

/// What the resilience middleware does with a request before the queue.
#[derive(Debug, Clone, Copy, PartialEq, Eq, Structural)]
pub enum Gate {
    /// Passed straight through (health and metrics paths).
    Bypass,
    /// Fast-failed: the breaker is open.
    CircuitOpen,
    /// Must obtain a queue permit first.
    NeedPermit,
}

/// The middleware's first decision for a request to `path`.
pub fn gate_request(path: &str, breaker_open: bool) -> (g: Gate)
    ensures
        g == (if is_bypass_path(path@) {
            Gate::Bypass
        } else if breaker_open {
            Gate::CircuitOpen
        } else {
            Gate::NeedPermit
        }),
{
    if str_eq(path, "/health") || str_eq(path, "/health/live") || str_eq(path, "/health/ready")
        || str_eq(path, "/health/detailed") || str_eq(path, "/metrics") {
        Gate::Bypass
    } else if breaker_open {
        Gate::CircuitOpen
    } else {
        Gate::NeedPermit
    }
}

/// A `503 Service Unavailable` answer: error code, message and the
/// `Retry-After` seconds, if any.
#[derive(Debug, Clone, Copy, PartialEq, Eq)]
pub struct Rejection {
    pub code: &'static str,
    pub message: &'static str,
    pub retry_after_secs: Option<u64>,
}

/// The answer to a request fast-failed because the breaker is open.
pub fn circuit_open_rejection() -> (r: Rejection)
    ensures
        r.code@ == "DATABASE_UNAVAILABLE"@,
        r.message@ == "Database is temporarily unavailable. Please retry shortly."@,
        r.retry_after_secs == Some(10u64),
{
    Rejection {
        code: "DATABASE_UNAVAILABLE",
        message: "Database is temporarily unavailable. Please retry shortly.",
        retry_after_secs: Some(10),
    }
}

/// The answer to a request that could not obtain a permit.
pub fn queue_rejection(e: DbQueueError) -> (r: Rejection)
    ensures
        match e {
            DbQueueError::QueueFull => r.code@ == "QUEUE_FULL"@ && r.message@
                == "Server is under extremely high load. Please try again later."@
                && r.retry_after_secs == Some(5u64),
            DbQueueError::Timeout => r.code@ == "QUEUE_TIMEOUT"@ && r.message@
                == "Server is busy. Please try again in a moment."@ && r.retry_after_secs
                == Some(2u64),
            DbQueueError::SemaphoreClosed => r.code@ == "SEMAPHORE_CLOSED"@ && r.message@
                == "Internal database service is restarting."@ && r.retry_after_secs is None,
        },
{
    match e {
        DbQueueError::QueueFull => Rejection {
            code: "QUEUE_FULL",
            message: "Server is under extremely high load. Please try again later.",
            retry_after_secs: Some(5),
        },
        DbQueueError::Timeout => Rejection {
            code: "QUEUE_TIMEOUT",
            message: "Server is busy. Please try again in a moment.",
            retry_after_secs: Some(2),
        },
        DbQueueError::SemaphoreClosed => Rejection {
            code: "SEMAPHORE_CLOSED",
            message: "Internal database service is restarting.",
            retry_after_secs: None,
        },
    }
}

} // verus!
