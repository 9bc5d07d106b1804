use liters::error::Error;
use liters::io::{IoError, IoErrorKind};
use liters::lock::{
    conflicting_pid, sleep_checking, LockAction, LockEvent, LockRange, LockWait, SleepStep,
};
use liters::time::Duration;

fn ms(n: u64) -> Duration {
    Duration::from_millis(n)
}

#[test]
fn lock_ranges_are_those_of_sqlite() {
    assert_eq!((LockRange::Pending.name(), LockRange::Pending.bytes()), ("PENDING", (0x4000_0000, 1)));
    assert_eq!((LockRange::Shared.name(), LockRange::Shared.bytes()), ("SHARED", (0x4000_0002, 510)));
}

#[test]
fn an_uncontended_lock_never_sleeps() {
    let mut l = LockWait::new();
    let t = ms(0);
    assert!(matches!(l.acquire_write_lock(t, LockEvent::Start(ms(5))), LockAction::Try(LockRange::Pending)));
    assert!(matches!(l.acquire_write_lock(t, LockEvent::Locked(ms(5))), LockAction::Try(LockRange::Shared)));
    assert!(matches!(l.acquire_write_lock(t, LockEvent::Locked(ms(5))), LockAction::Acquired));
    assert!(matches!(l.acquire_write_lock(t, LockEvent::Slept), LockAction::Unexpected));
}

/// One failed attempt at `now`, with no cancellation.
fn contend(l: &mut LockWait, timeout: Duration, now: Duration) -> LockAction {
    assert!(matches!(l.acquire_write_lock(timeout, LockEvent::Contended), LockAction::CheckCancel));
    let a = l.acquire_write_lock(timeout, LockEvent::CancelChecked(false));
    assert!(matches!(a, LockAction::ReadClock));
    l.acquire_write_lock(timeout, LockEvent::Clock(now))
}

#[test]
fn a_contended_lock_polls_and_gives_up_at_its_deadline() {
    let timeout = ms(100);
    let mut l = LockWait::new();
    l.acquire_write_lock(timeout, LockEvent::Start(ms(1000)));
    l.acquire_write_lock(timeout, LockEvent::Locked(ms(1010)));
    // Doubling from 1ms to a ceiling of 20ms.
    let mut naps = Vec::new();
    for _ in 0..7 {
        match contend(&mut l, timeout, ms(1010)) {
            LockAction::Sleep(d) => naps.push(d),
            other => panic!("{other:?}"),
        }
        let a = l.acquire_write_lock(timeout, LockEvent::Slept);
        assert!(matches!(a, LockAction::Try(LockRange::Shared)));
    }
    assert_eq!(naps, [1, 2, 4, 8, 16, 20, 20].map(ms));
    // The last sleep ends at the deadline, which both ranges share.
    match contend(&mut l, timeout, ms(1095)) {
        LockAction::Sleep(d) => assert_eq!(d, ms(5)),
        other => panic!("{other:?}"),
    }
    l.acquire_write_lock(timeout, LockEvent::Slept);
    assert!(matches!(contend(&mut l, timeout, ms(1100)), LockAction::Probe(LockRange::Shared)));
    let held = LockEvent::Holder { now: ms(1101), pid: Some(42) };
    match l.acquire_write_lock(timeout, held) {
        LockAction::Failed(Error::LockBusy { lock, waited, holder_pid }) => {
            assert_eq!((lock, waited, holder_pid), ("SHARED", ms(91), Some(42)));
        }
        other => panic!("{other:?}"),
    }
}

#[test]
fn a_zero_timeout_tries_once() {
    let mut l = LockWait::new();
    l.acquire_write_lock(ms(0), LockEvent::Start(ms(7)));
    assert!(matches!(contend(&mut l, ms(0), ms(7)), LockAction::Probe(LockRange::Pending)));
    let a = l.acquire_write_lock(ms(0), LockEvent::Holder { now: ms(7), pid: None });
    match a {
        LockAction::Failed(e) => {
            assert!(e.is_transient());
            assert_eq!(
                e.to_string(),
                "replica file lock busy: could not take the SQLite PENDING lock within 0ns"
            );
        }
        other => panic!("{other:?}"),
    }
}

#[test]
fn a_cancel_outranks_the_deadline() {
    let mut l = LockWait::new();
    l.acquire_write_lock(ms(0), LockEvent::Start(ms(7)));
    l.acquire_write_lock(ms(0), LockEvent::Contended);
    let a = l.acquire_write_lock(ms(0), LockEvent::CancelChecked(true));
    assert!(matches!(a, LockAction::Failed(Error::Cancelled)));
    let mut l = LockWait::new();
    l.acquire_write_lock(ms(0), LockEvent::Start(ms(7)));
    let broken = IoError::new(IoErrorKind::Other, "bad fd".into());
    let a = l.acquire_write_lock(ms(0), LockEvent::LockFailed(broken));
    assert!(matches!(a, LockAction::Failed(Error::Io(e)) if e.message == "bad fd"));
}

#[test]
fn long_lock_timeouts_are_clamped_to_a_day() {
    let mut l = LockWait::new();
    let timeout = Duration::from_secs(u64::MAX);
    l.acquire_write_lock(timeout, LockEvent::Start(Duration::from_secs(10)));
    assert_eq!(l.deadline, Duration::from_secs(86_410));
}

#[test]
fn lock_holders_are_named_where_known() {
    assert_eq!(conflicting_pid(false, false, 12), Some(12));
    assert_eq!(conflicting_pid(false, false, -1), None);
    assert_eq!(conflicting_pid(false, false, 0), None);
    assert_eq!(conflicting_pid(true, false, 12), None);
    assert_eq!(conflicting_pid(false, true, 12), None);
}

#[test]
fn sleeps_are_cut_into_slices() {
    assert_eq!(sleep_checking(true, ms(5), ms(9)), SleepStep::Cancelled);
    assert_eq!(sleep_checking(false, ms(5), ms(5)), SleepStep::Over);
    assert_eq!(sleep_checking(false, ms(305), ms(5)), SleepStep::Nap(ms(100)));
    assert_eq!(sleep_checking(false, ms(35), ms(5)), SleepStep::Nap(ms(30)));
}
