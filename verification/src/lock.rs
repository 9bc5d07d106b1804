//! SQLite-compatible exclusive byte-range locks on the replica file, taken for
//! the duration of a page application.
//!
//! Acquisition is deadline-bounded and cancellable: a non-blocking lock
//! attempt on a poll schedule that re-checks for cancellation between
//! attempts. A state machine: [`LockWait`] holds where an acquisition stands;
//! a step takes what the last action came to and gives the next action.
//!
//! Points in time are spans since the start of a monotonic clock.

use vstd::prelude::*;

use crate::error::Error;
#[allow(unused_imports)]
use crate::error::ErrorView;
use crate::io::IoError;
#[allow(unused_imports)]
use crate::io::IoErrorView;
use crate::time::Duration;

verus! {

/// Where SQLite's lock bytes start.
pub const SQLITE_PENDING_BYTE: i64 = 0x4000_0000;

/// The first byte that readers lock.
pub const SQLITE_SHARED_FIRST: i64 = SQLITE_PENDING_BYTE + 2;

/// The number of bytes that readers lock.
pub const SQLITE_SHARED_SIZE: i64 = 510;

/// One of the two byte ranges SQLite's locking protocol uses.
#[derive(Debug, Clone, Copy, PartialEq, Eq, Structural)]
pub enum LockRange {
    /// Held by a writer to stop *new* readers from starting.
    Pending,
    /// Read-locked by every reader; write-locking it is what EXCLUSIVE means.
    Shared,
}

impl LockRange {
    /// The range's name, so a failure can say *which* range was contended.
    pub open spec fn text(self) -> Seq<char> {
        match self {
            LockRange::Pending => "PENDING"@,
            LockRange::Shared => "SHARED"@,
        }
    }

    pub fn name(self) -> (s: &'static str)
        ensures
            s@ == self.text(),
    {
        match self {
            LockRange::Pending => "PENDING",
            LockRange::Shared => "SHARED",
        }
    }

    /// The range's first byte and length.
    pub fn bytes(self) -> (r: (i64, i64))
        ensures
            self == LockRange::Pending ==> r == (0x4000_0000i64, 1i64),
            self == LockRange::Shared ==> r == (0x4000_0002i64, 510i64),
    {
        match self {
            LockRange::Pending => (SQLITE_PENDING_BYTE, 1),
            LockRange::Shared => (SQLITE_SHARED_FIRST, SQLITE_SHARED_SIZE),
        }
    }
}

/// Where an acquisition stands.
#[derive(Debug, Clone, Copy, PartialEq, Eq, Structural)]
pub enum LockStage {
    Starting,
    Trying,
    CheckingCancel,
    ReadingClock,
    Probing,
    Sleeping,
    Ended,
}

/// One acquisition of SQLite's EXCLUSIVE pair — PENDING, then the SHARED range
/// — under one shared deadline.
///
/// PENDING is held across the SHARED retries rather than dropped and re-taken
/// between them: holding it stops *new* readers from starting, so the readers
/// already inside drain and the applier is guaranteed to get in.
#[derive(Debug, Clone, Copy, PartialEq, Eq)]
pub struct LockWait {
    pub stage: LockStage,
    pub range: LockRange,
    /// When this range was first tried.
    pub began: Duration,
    /// When to give up.
    pub deadline: Duration,
    /// How long to sleep after the next failed attempt.
    pub delay: Duration,
}

/// What the last action came to.
#[derive(Debug)]
pub enum LockEvent {
    /// The acquisition starts at this time.
    Start(Duration),
    /// The range is locked; the time now.
    Locked(Duration),
    /// Another process holds a conflicting lock.
    Contended,
    /// The attempt failed for another reason.
    LockFailed(IoError),
    /// Whether the operation was cancelled.
    CancelChecked(bool),
    /// The time now.
    Clock(Duration),
    /// The time now, and the process that holds a conflicting lock, if the
    /// kernel named one.
    Holder { now: Duration, pid: Option<i32> },
    Slept,
}

/// What to do next.
#[derive(Debug)]
pub enum LockAction {
    /// Try to lock the range, without blocking.
    Try(LockRange),
    CheckCancel,
    /// Read the clock.
    ReadClock,
    /// Sleep this long.
    Sleep(Duration),
    /// Ask who holds a conflicting lock on the range.
    Probe(LockRange),
    /// Both ranges are locked.
    Acquired,
    /// Release what is locked, and fail.
    Failed(Error),
    /// The event does not answer the last action; nothing changed.
    Unexpected,
}

/// The poll schedule's first delay, in nanoseconds.
pub open spec fn poll_min() -> nat {
    1_000_000
}

/// The poll schedule's longest delay: it bounds both the delay after the
/// holder releases and the latency of noticing cancellation.
pub open spec fn poll_max() -> nat {
    20_000_000
}

/// Ceiling on the lock timeout, a day.
pub open spec fn timeout_max() -> nat {
    86_400_000_000_000
}

/// Where the clock ends.
pub open spec fn clock_max() -> nat {
    0x1_0000_0000_0000_0000 * 1_000_000_000
}

/// The smaller of the two.
pub open spec fn shorter(a: nat, b: nat) -> nat {
    if a <= b {
        a
    } else {
        b
    }
}

/// The mathematical counterpart of [`LockWait`], in nanoseconds.
#[verifier::ext_equal]
pub struct LockView {
    pub stage: LockStage,
    pub range: LockRange,
    pub began: nat,
    pub deadline: nat,
    pub delay: nat,
}

/// The mathematical counterpart of [`LockEvent`].
#[verifier::ext_equal]
pub enum LockEventView {
    Start(nat),
    Locked(nat),
    Contended,
    LockFailed(IoErrorView),
    CancelChecked(bool),
    Clock(nat),
    Holder { now: nat, pid: Option<i32> },
    Slept,
}

/// The mathematical counterpart of [`LockAction`].
#[verifier::ext_equal]
pub enum LockActionView {
    Try(LockRange),
    CheckCancel,
    ReadClock,
    Sleep(nat),
    Probe(LockRange),
    Acquired,
    Failed(ErrorView),
    Unexpected,
}

impl View for LockWait {
    type V = LockView;

    open spec fn view(&self) -> LockView {
        LockView {
            stage: self.stage,
            range: self.range,
            began: self.began.total(),
            deadline: self.deadline.total(),
            delay: self.delay.total(),
        }
    }
}

impl View for LockEvent {
    type V = LockEventView;

    open spec fn view(&self) -> LockEventView {
        match self {
            LockEvent::Start(now) => LockEventView::Start(now.total()),
            LockEvent::Locked(now) => LockEventView::Locked(now.total()),
            LockEvent::Contended => LockEventView::Contended,
            LockEvent::LockFailed(e) => LockEventView::LockFailed(e@),
            LockEvent::CancelChecked(b) => LockEventView::CancelChecked(*b),
            LockEvent::Clock(now) => LockEventView::Clock(now.total()),
            LockEvent::Holder { now, pid } => LockEventView::Holder { now: now.total(), pid: *pid },
            LockEvent::Slept => LockEventView::Slept,
        }
    }
}

impl View for LockAction {
    type V = LockActionView;

    open spec fn view(&self) -> LockActionView {
        match self {
            LockAction::Try(r) => LockActionView::Try(*r),
            LockAction::CheckCancel => LockActionView::CheckCancel,
            LockAction::ReadClock => LockActionView::ReadClock,
            LockAction::Sleep(d) => LockActionView::Sleep(d.total()),
            LockAction::Probe(r) => LockActionView::Probe(*r),
            LockAction::Acquired => LockActionView::Acquired,
            LockAction::Failed(e) => LockActionView::Failed(e@),
            LockAction::Unexpected => LockActionView::Unexpected,
        }
    }
}

/// Starts with a range: its first attempt is at `now`.
pub open spec fn begins(l: LockView, range: LockRange, now: nat) -> (LockView, LockActionView) {
    (
        LockView { stage: LockStage::Trying, range, began: now, delay: poll_min(), ..l },
        LockActionView::Try(range),
    )
}

/// Gives up.
pub open spec fn lock_fails(l: LockView, e: ErrorView) -> (LockView, LockActionView) {
    (LockView { stage: LockStage::Ended, ..l }, LockActionView::Failed(e))
}

/// One step of an acquisition within `timeout`.
pub open spec fn lock_step(l: LockView, timeout: nat, e: LockEventView) -> (LockView, LockActionView) {
    match (l.stage, e) {
        (LockStage::Starting, LockEventView::Start(now)) => begins(
            LockView { deadline: now + shorter(timeout, timeout_max()), ..l },
            LockRange::Pending,
            now,
        ),
        (LockStage::Trying, LockEventView::Locked(now)) => match l.range {
            LockRange::Pending => begins(l, LockRange::Shared, now),
            LockRange::Shared => (
                LockView { stage: LockStage::Ended, ..l },
                LockActionView::Acquired,
            ),
        },
        (LockStage::Trying, LockEventView::Contended) => (
            LockView { stage: LockStage::CheckingCancel, ..l },
            LockActionView::CheckCancel,
        ),
        (LockStage::Trying, LockEventView::LockFailed(err)) => lock_fails(l, ErrorView::Io(err)),
        (LockStage::CheckingCancel, LockEventView::CancelChecked(cancelled)) => if cancelled {
            // Cancellation outranks the deadline.
            lock_fails(l, ErrorView::Cancelled)
        } else {
            (LockView { stage: LockStage::ReadingClock, ..l }, LockActionView::ReadClock)
        },
        (LockStage::ReadingClock, LockEventView::Clock(now)) => if now >= l.deadline {
            (LockView { stage: LockStage::Probing, ..l }, LockActionView::Probe(l.range))
        } else {
            (
                LockView {
                    stage: LockStage::Sleeping,
                    delay: shorter(2 * l.delay, poll_max()),
                    ..l
                },
                LockActionView::Sleep(shorter(l.delay, (l.deadline - now) as nat)),
            )
        },
        (LockStage::Probing, LockEventView::Holder { now, pid }) => lock_fails(
            l,
            ErrorView::LockBusy {
                lock: l.range.text(),
                waited: if now >= l.began {
                    (now - l.began) as nat
                } else {
                    0
                },
                holder_pid: pid,
            },
        ),
        (LockStage::Sleeping, LockEventView::Slept) => (
            LockView { stage: LockStage::Trying, ..l },
            LockActionView::Try(l.range),
        ),
        _ => (l, LockActionView::Unexpected),
    }
}

impl LockView {
    /// What every acquisition keeps: the next delay is within the schedule.
    pub open spec fn wf(self) -> bool {
        poll_min() <= self.delay <= poll_max()
    }
}

impl LockWait {
    /// An acquisition at its start.
    pub fn new() -> (l: LockWait)
        ensures
            l@ == (LockView {
                stage: LockStage::Starting,
                range: LockRange::Pending,
                began: 0,
                deadline: 0,
                delay: poll_min(),
            }),
            l@.wf(),
    {
        LockWait {
            stage: LockStage::Starting,
            range: LockRange::Pending,
            began: Duration::from_secs(0),
            deadline: Duration::from_secs(0),
            delay: Duration::from_millis(1),
        }
    }

    fn begin(&mut self, range: LockRange, now: Duration) -> (a: LockAction)
        ensures
            (final(self)@, a@) == begins(old(self)@, range, now.total()),
    {
        self.stage = LockStage::Trying;
        self.range = range;
        self.began = now;
        self.delay = Duration::from_millis(1);
        LockAction::Try(range)
    }

    fn fail(&mut self, e: Error) -> (a: LockAction)
        ensures
            (final(self)@, a@) == lock_fails(old(self)@, e@),
    {
        self.stage = LockStage::Ended;
        LockAction::Failed(e)
    }

    /// Write-locks the two ranges, retrying for as long as another process
    /// holds a conflicting lock: one step.
    ///
    /// Acquired the moment both locks are ours. Gives up with
    /// [`Error::Cancelled`] as soon as a cancellation is seen and with
    /// [`Error::LockBusy`] at the deadline, whichever comes first. An
    /// uncontended acquisition tries each range exactly once and never sleeps.
    pub fn acquire_write_lock(&mut self, timeout: Duration, event: LockEvent) -> (a: LockAction)
        requires
            old(self)@.wf(),
            event matches LockEvent::Start(now) ==> now.total() + timeout_max() < clock_max(),
        ensures
            (final(self)@, a@) == lock_step(old(self)@, timeout.total(), event@),
            final(self)@.wf(),
    {
        match (self.stage, event) {
            (LockStage::Starting, LockEvent::Start(now)) => {
                let bound = timeout.min(Duration::from_secs(86_400));
                match now.after(bound) {
                    Some(deadline) => {
                        self.deadline = deadline;
                    },
                    None => {
                        assert(false);
                    },
                }
                self.begin(LockRange::Pending, now)
            },
            (LockStage::Trying, LockEvent::Locked(now)) => match self.range {
                LockRange::Pending => self.begin(LockRange::Shared, now),
                LockRange::Shared => {
                    self.stage = LockStage::Ended;
                    LockAction::Acquired
                },
            },
            (LockStage::Trying, LockEvent::Contended) => {
                self.stage = LockStage::CheckingCancel;
                LockAction::CheckCancel
            },
            (LockStage::Trying, LockEvent::LockFailed(e)) => self.fail(Error::Io(e)),
            (LockStage::CheckingCancel, LockEvent::CancelChecked(cancelled)) => {
                // Cancellation outranks the deadline: a caller that asked us
                // to stop gets `Cancelled`, not a contention report it never
                // waited for.
                if cancelled {
                    return self.fail(Error::Cancelled);
                }
                self.stage = LockStage::ReadingClock;
                LockAction::ReadClock
            },
            (LockStage::ReadingClock, LockEvent::Clock(now)) => {
                let left = Duration::left(self.deadline, now);
                if left.is_zero() {
                    self.stage = LockStage::Probing;
                    return LockAction::Probe(self.range);
                }
                let nap = self.delay.min(left);
                self.delay = self.delay.doubled().min(Duration::from_millis(20));
                self.stage = LockStage::Sleeping;
                LockAction::Sleep(nap)
            },
            (LockStage::Probing, LockEvent::Holder { now, pid }) => {
                let busy = Error::LockBusy {
                    lock: self.range.name(),
                    waited: Duration::left(now, self.began),
                    holder_pid: pid,
                };
                self.fail(busy)
            },
            (LockStage::Sleeping, LockEvent::Slept) => {
                self.stage = LockStage::Trying;
                LockAction::Try(self.range)
            },
            _ => LockAction::Unexpected,
        }
    }
}

/// An uncontended acquisition tries each range exactly once and never sleeps,
/// whatever the timeout.
pub proof fn lemma_uncontended(l: LockView, timeout: nat, t0: nat, t1: nat, t2: nat)
    requires
        l.stage == LockStage::Starting,
    ensures
        ({
            let (l1, a1) = lock_step(l, timeout, LockEventView::Start(t0));
            let (l2, a2) = lock_step(l1, timeout, LockEventView::Locked(t1));
            let (l3, a3) = lock_step(l2, timeout, LockEventView::Locked(t2));
            &&& a1 == LockActionView::Try(LockRange::Pending)
            &&& a2 == LockActionView::Try(LockRange::Shared)
            &&& a3 == LockActionView::Acquired
        }),
{
}

/// The wait is bounded: the deadline is set once, a day away at most; no sleep
/// is longer than the poll schedule's longest or goes past the deadline; and
/// the holder is asked for, to report a busy lock, only at the deadline.
pub proof fn lemma_lock_bounded(l: LockView, timeout: nat, e: LockEventView)
    requires
        l.wf(),
    ensures
        ({
            let (l2, a) = lock_step(l, timeout, e);
            &&& l2.deadline != l.deadline ==> l.stage == LockStage::Starting && (e matches LockEventView::Start(
                now,
            ) && l2.deadline <= now + timeout && l2.deadline <= now + timeout_max())
            &&& a matches LockActionView::Sleep(d) ==> 0 < d <= poll_max() && (
            e matches LockEventView::Clock(now) && now + d <= l.deadline)
            &&& a is Probe ==> (e matches LockEventView::Clock(now) && now >= l.deadline)
            &&& a matches LockActionView::Failed(ErrorView::LockBusy { .. }) ==> l.stage
                == LockStage::Probing
        }),
{
}

/// Every failed attempt is followed by a look for a cancellation, and one that
/// is seen ends the wait whatever the clock says.
pub proof fn lemma_lock_cancellable(l: LockView, timeout: nat)
    ensures
        l.stage == LockStage::Trying ==> lock_step(l, timeout, LockEventView::Contended).1
            == LockActionView::CheckCancel,
        l.stage == LockStage::CheckingCancel ==> lock_step(
            l,
            timeout,
            LockEventView::CancelChecked(true),
        ).1 == LockActionView::Failed(ErrorView::Cancelled),
{
}

/// A zero timeout tries once and gives up at once.
pub proof fn lemma_zero_timeout(l: LockView, t0: nat, t1: nat, t2: nat, pid: Option<i32>)
    requires
        l.stage == LockStage::Starting,
        t0 <= t1 <= t2,
    ensures
        ({
            let (l1, a1) = lock_step(l, 0, LockEventView::Start(t0));
            let (l2, _) = lock_step(l1, 0, LockEventView::Contended);
            let (l3, _) = lock_step(l2, 0, LockEventView::CancelChecked(false));
            let (l4, a4) = lock_step(l3, 0, LockEventView::Clock(t1));
            let (l5, a5) = lock_step(l4, 0, LockEventView::Holder { now: t2, pid });
            &&& a1 == LockActionView::Try(LockRange::Pending)
            &&& a4 == LockActionView::Probe(LockRange::Pending)
            &&& a5 == LockActionView::Failed(
                ErrorView::LockBusy {
                    lock: "PENDING"@,
                    waited: (t2 - t0) as nat,
                    holder_pid: pid,
                },
            )
        }),
{
}

/// PENDING comes first and is held across the SHARED retries: SHARED is tried
/// only once PENDING is locked, PENDING is not tried again after that, and the
/// pair is acquired exactly when SHARED is locked too.
pub proof fn lemma_lock_order(l: LockView, timeout: nat, e: LockEventView)
    requires
        l.stage == LockStage::Starting ==> l.range == LockRange::Pending,
    ensures
        ({
            let (l2, a) = lock_step(l, timeout, e);
            &&& l.range == LockRange::Pending && l2.range == LockRange::Shared ==> l.stage
                == LockStage::Trying && e is Locked
            &&& l.range == LockRange::Shared ==> l2.range == LockRange::Shared
            &&& a matches LockActionView::Try(r) ==> r == l2.range
            &&& a is Acquired <==> l.stage == LockStage::Trying && l.range == LockRange::Shared
                && e is Locked
        }),
{
}

/// The process that a probe names as the holder of a conflicting lock.
pub open spec fn holder(probe_failed: bool, unlocked: bool, pid: i32) -> Option<i32> {
    if probe_failed || unlocked || pid <= 0 {
        None
    } else {
        Some(pid)
    }
}

/// A holder is named exactly when the probe worked, found a lock and gave a
/// process, and it is that process.
pub proof fn lemma_holder_named(probe_failed: bool, unlocked: bool, pid: i32)
    ensures
        holder(probe_failed, unlocked, pid) is Some <==> !probe_failed && !unlocked && pid >= 1,
        holder(probe_failed, unlocked, pid) matches Some(p) ==> p == pid,
{
}

/// The process that holds a conflicting lock, from what the kernel reported:
/// none when the probe failed, when the lock was released in the interim, or
/// when no process is named.
pub fn conflicting_pid(probe_failed: bool, unlocked: bool, pid: i32) -> (r: Option<i32>)
    ensures
        r == holder(probe_failed, unlocked, pid),
{
    if probe_failed || unlocked {
        return None;
    }
    if pid > 0 {
        Some(pid)
    } else {
        None
    }
}

/// What one slice of a sleep comes to.
#[derive(Debug, Clone, Copy, PartialEq, Eq)]
pub enum SleepStep {
    Cancelled,
    /// The time is up.
    Over,
    /// Sleep this long and look again.
    Nap(Duration),
}

/// Whether a slice of a sleep may come to `r`.
pub open spec fn sleeps(cancelled: bool, deadline: nat, now: nat, r: SleepStep) -> bool {
    &&& cancelled ==> r == SleepStep::Cancelled
    &&& !cancelled && now >= deadline ==> r == SleepStep::Over
    &&& !cancelled && now < deadline ==> (r matches SleepStep::Nap(d) && d.total() == shorter(
        (deadline - now) as nat,
        100_000_000,
    ))
}

/// A sleep ends no later than its deadline asks and no earlier: each nap is at
/// most a tenth of a second, so that a cancellation is noticed within it, never
/// goes past the deadline, and is as long as these two allow.
pub proof fn lemma_sleep_in_slices(cancelled: bool, deadline: nat, now: nat, r: SleepStep)
    requires
        sleeps(cancelled, deadline, now, r),
    ensures
        r is Cancelled <==> cancelled,
        r is Over <==> !cancelled && deadline <= now,
        r matches SleepStep::Nap(d) ==> {
            &&& 0 < d.total() <= 100_000_000
            &&& now + d.total() <= deadline
            &&& now + d.total() == deadline || d.total() == 100_000_000
        },
{
}

/// Sleeps until `deadline` in short slices so cancellation stays responsive:
/// one slice.
pub fn sleep_checking(cancelled: bool, deadline: Duration, now: Duration) -> (r: SleepStep)
    ensures
        sleeps(cancelled, deadline.total(), now.total(), r),
{
    if cancelled {
        return SleepStep::Cancelled;
    }
    let left = Duration::left(deadline, now);
    if left.is_zero() {
        return SleepStep::Over;
    }
    SleepStep::Nap(left.min(Duration::from_millis(100)))
}

/// The delay of an acquisition's `k`-th wait for a range, in nanoseconds: a
/// millisecond at first, twice as long each time, twenty milliseconds at most.
pub open spec fn kth_delay(k: nat) -> nat
    decreases k,
{
    if k == 0 {
        1_000_000
    } else if kth_delay((k - 1) as nat) >= 10_000_000 {
        20_000_000
    } else {
        2 * kth_delay((k - 1) as nat)
    }
}

/// One failed attempt and the wait behind it, at the time `now`.
pub open spec fn lock_retry(l: LockView, timeout: nat, now: nat) -> (LockView, LockActionView, LockActionView) {
    let (l1, _) = lock_step(l, timeout, LockEventView::Contended);
    let (l2, _) = lock_step(l1, timeout, LockEventView::CancelChecked(false));
    let (l3, a3) = lock_step(l2, timeout, LockEventView::Clock(now));
    let (l4, a4) = lock_step(l3, timeout, LockEventView::Slept);
    (l4, a3, a4)
}

/// Failed attempts at these times, one after the other.
pub open spec fn lock_retries(l: LockView, timeout: nat, times: Seq<nat>) -> LockView
    decreases times.len(),
{
    if times.len() == 0 {
        l
    } else {
        lock_retry(lock_retries(l, timeout, times.drop_last()), timeout, times.last()).0
    }
}

/// The deadline of an acquisition is its start plus the timeout, a day at
/// most. Until then each failed attempt is followed by a wait that doubles
/// from one millisecond up to twenty, cut short at the deadline, and by
/// another attempt at the same range; the schedule starts anew with the second
/// range.
pub proof fn lemma_lock_schedule(l: LockView, timeout: nat, t0: nat, times: Seq<nat>, now: nat)
    requires
        l.stage == LockStage::Starting,
        forall|i: int| 0 <= i < times.len() ==> #[trigger] times[i] < lock_step(
            l,
            timeout,
            LockEventView::Start(t0),
        ).0.deadline,
    ensures
        ({
            let l1 = lock_step(l, timeout, LockEventView::Start(t0)).0;
            let l2 = lock_retries(l1, timeout, times);
            let delay = kth_delay(times.len());
            let (_, slept, tried) = lock_retry(l2, timeout, now);
            let shared = lock_step(l2, timeout, LockEventView::Locked(now)).0;
            &&& l1.deadline == t0 + if timeout <= 86_400_000_000_000 {
                timeout
            } else {
                86_400_000_000_000
            }
            &&& now < l1.deadline ==> slept == LockActionView::Sleep(
                if delay <= l1.deadline - now {
                    delay
                } else {
                    (l1.deadline - now) as nat
                },
            ) && tried == LockActionView::Try(LockRange::Pending)
            &&& now >= l1.deadline ==> slept == LockActionView::Probe(LockRange::Pending)
            &&& shared.delay == 1_000_000 && shared.deadline == l1.deadline && shared.began == now
        }),
{
    let l1 = lock_step(l, timeout, LockEventView::Start(t0)).0;
    lemma_lock_waits(l1, timeout, times);
}

proof fn lemma_lock_waits(l: LockView, timeout: nat, times: Seq<nat>)
    requires
        l.stage == LockStage::Trying,
        l.delay == 1_000_000,
        forall|i: int| 0 <= i < times.len() ==> #[trigger] times[i] < l.deadline,
    ensures
        lock_retries(l, timeout, times) == (LockView { delay: kth_delay(times.len()), ..l }),
        kth_delay(times.len()) <= 20_000_000,
    decreases times.len(),
{
    if times.len() > 0 {
        let front = times.drop_last();
        assert forall|i: int| 0 <= i < front.len() implies #[trigger] front[i] < l.deadline by {
            assert(front[i] == times[i]);
        }
        lemma_lock_waits(l, timeout, front);
        assert(times[times.len() - 1] < l.deadline);
    }
}

/// How an acquisition fails: with the system's own failure, cancelled, or busy
/// at its deadline. A busy one names the range that was contended, how long
/// that range was tried, and the process that holds it, if one was named.
pub proof fn lemma_lock_failures(l: LockView, timeout: nat, e: LockEventView)
    ensures
        ({
            let a = lock_step(l, timeout, e).1;
            &&& l.stage == LockStage::Trying ==> (e matches LockEventView::LockFailed(err) ==> a
                == LockActionView::Failed(ErrorView::Io(err)))
            &&& l.stage == LockStage::Probing ==> (e matches LockEventView::Holder { now, pid } ==> a
                == LockActionView::Failed(
                ErrorView::LockBusy {
                    lock: if l.range == LockRange::Pending {
                        "PENDING"@
                    } else {
                        "SHARED"@
                    },
                    waited: if now >= l.began {
                        (now - l.began) as nat
                    } else {
                        0
                    },
                    holder_pid: pid,
                },
            ))
            &&& a is Failed ==> e is LockFailed || e is Holder || e == LockEventView::CancelChecked(
                true,
            )
        }),
{
}

/// Either range is waited for in the same way, each from the start of the
/// schedule: a wait behind each failed attempt, that doubles from one
/// millisecond up to twenty and is cut short at the deadline, then another
/// attempt at that range, and at the deadline the question who holds it.
pub proof fn lemma_range_schedule(l: LockView, timeout: nat, times: Seq<nat>, now: nat)
    requires
        l.stage == LockStage::Trying,
        l.delay == 1_000_000,
        forall|i: int| 0 <= i < times.len() ==> #[trigger] times[i] < l.deadline,
    ensures
        ({
            let (_, slept, tried) = lock_retry(lock_retries(l, timeout, times), timeout, now);
            let delay = kth_delay(times.len());
            &&& now < l.deadline ==> slept == LockActionView::Sleep(
                if delay <= l.deadline - now {
                    delay
                } else {
                    (l.deadline - now) as nat
                },
            ) && tried == LockActionView::Try(l.range)
            &&& now >= l.deadline ==> slept == LockActionView::Probe(l.range)
        }),
{
    lemma_lock_waits(l, timeout, times);
}

/// The waits are 1, 2, 4, 8 and 16 milliseconds, and twenty from then on.
pub proof fn lemma_waits_double(k: nat)
    ensures
        kth_delay(k) == if k == 0 {
            1_000_000nat
        } else if k == 1 {
            2_000_000nat
        } else if k == 2 {
            4_000_000nat
        } else if k == 3 {
            8_000_000nat
        } else if k == 4 {
            16_000_000nat
        } else {
            20_000_000nat
        },
    decreases k,
{
    if k > 0 {
        lemma_waits_double((k - 1) as nat);
    }
}

/// An event that does not answer what an acquisition asked for changes
/// nothing, and nothing answers one that has ended.
pub proof fn lemma_lock_unanswered(l: LockView, timeout: nat, e: LockEventView)
    ensures
        lock_step(l, timeout, e).1 is Unexpected ==> lock_step(l, timeout, e).0 == l,
        l.stage == LockStage::Ended ==> lock_step(l, timeout, e).1 is Unexpected,
{
}

} // verus!
