use liters::apply::{present_page, Apply, ApplyAction, ApplyEvent};
use liters::error::Error;
use liters::follow::{Follow, FollowAction, FollowEvent, StreamEvent};
use liters::incremental::{IncrementalSync, LtxFile, SyncAction, SyncEvent};
use liters::io::{IoError, IoErrorKind};
use liters::ltx::{self, FileInfo, Header, Txid};
use liters::replica::{
    bad_sidecar, read_page_size, read_txid_file, reset_suffixes, write_txid_file, FollowOptions,
    IntegrityCheck, Replica, ReplicaAction, ReplicaEvent, ReplicaOptions, ReplicaSync, SyncResult,
};
use liters::restore::{Restore, RestoreAction, RestoreEvent};
use liters::storage::StorageError;

fn replica(opts: ReplicaOptions) -> Replica {
    Replica::open("/r/replica.db".into(), opts)
}

fn io(kind: IoErrorKind) -> IoError {
    IoError::new(kind, "disk".into())
}

fn file(level: u8, min: u64, max: u64) -> FileInfo {
    FileInfo {
        level,
        min_txid: Txid(min),
        max_txid: Txid(max),
        size: 1000,
        ..FileInfo::default()
    }
}

fn gone() -> Error {
    Error::Storage(StorageError::NotFound { level: 0, min_txid: Txid(1), max_txid: Txid(1) })
}

#[test]
fn default_replica_options() {
    let o = ReplicaOptions::default();
    assert_eq!((o.integrity_check, o.use_file_locks, o.auto_reset), (IntegrityCheck::Quick, true, false));
    assert_eq!(o.lock_timeout.as_secs(), 5);
    let f = FollowOptions::default();
    assert_eq!((f.poll_interval.as_secs(), f.retry), (1, false));
    assert_eq!(reset_suffixes(), ["", "-txid", ".tmp", ".apply.tmp"]);
    assert_eq!(replica(o).db_path(), "/r/replica.db");
}

#[test]
fn sidecars_round_trip() {
    let r = replica(ReplicaOptions::default());
    for t in [0, 1, 0xbeef, u64::MAX] {
        let text = write_txid_file(Txid(t));
        assert_eq!(text, format!("{t:016x}\n"));
        assert_eq!(r.position(Ok(text), "p").unwrap(), Txid(t));
    }
    assert_eq!(read_txid_file(Ok("  00000000000000FF \n".into()), "p").unwrap(), Txid(255));
    assert_eq!(read_txid_file(Err(io(IoErrorKind::NotFound)), "p").unwrap(), Txid(0));
    assert!(matches!(read_txid_file(Err(io(IoErrorKind::Other)), "p"), Err(Error::Io(_))));
    assert_eq!(
        read_txid_file(Ok("junk\n".into()), "/r/x").unwrap_err().to_string(),
        "parse txid file \"/r/x\": \"junk\\n\""
    );
    assert_eq!(bad_sidecar("P", "C").to_string(), "parse txid file P: C");
}

#[test]
fn page_sizes_in_a_database_header() {
    assert_eq!(read_page_size([0x10, 0]), 4096);
    assert_eq!(read_page_size([0, 1]), 65536);
    assert_eq!(read_page_size([2, 0]), 512);
}

#[test]
fn deleting_what_is_not_there_is_fine() {
    let r = replica(ReplicaOptions::default());
    r.reset(Ok(())).unwrap();
    r.reset(Err(io(IoErrorKind::NotFound))).unwrap();
    assert!(matches!(r.reset(Err(io(IoErrorKind::Other))), Err(Error::Io(_))));
}

#[test]
fn a_sync_restores_or_catches_up() {
    let r = replica(ReplicaOptions::default());
    let mut run = ReplicaSync::new();
    assert!(matches!(r.sync(&mut run, false), ReplicaAction::FullRestore));
    let a = r.sync_with(&mut run, ReplicaEvent::Restored(Txid(7)));
    let full = SyncResult { restored: true, from_txid: Txid(0), to_txid: Txid(7) };
    assert!(matches!(a, ReplicaAction::Done(s) if s == full));
    let mut run = ReplicaSync::new();
    assert!(matches!(r.sync(&mut run, true), ReplicaAction::ReadTxid));
    let a = r.sync_with(&mut run, ReplicaEvent::TxidRead(Txid(3)));
    assert!(matches!(a, ReplicaAction::CatchUp(Txid(3))));
    let a = r.sync_with(&mut run, ReplicaEvent::Caught(Txid(5)));
    let inc = SyncResult { restored: false, from_txid: Txid(3), to_txid: Txid(5) };
    assert!(matches!(a, ReplicaAction::Done(s) if s == inc));
    assert!(matches!(r.sync(&mut run, true), ReplicaAction::Unexpected));
}

#[test]
fn only_auto_reset_restores_over_a_replica() {
    for auto_reset in [false, true] {
        let r = replica(ReplicaOptions { auto_reset, ..ReplicaOptions::default() });
        let mut run = ReplicaSync::new();
        r.sync(&mut run, true);
        match r.sync_with(&mut run, ReplicaEvent::TxidRead(Txid(0))) {
            ReplicaAction::FullRestore => assert!(auto_reset),
            ReplicaAction::Failed(e) => {
                assert!(!auto_reset);
                assert_eq!(
                    e.to_string(),
                    "replica exists but has no -txid sidecar; delete /r/replica.db to re-restore"
                );
            }
            other => panic!("{other:?}"),
        }
        let mut run = ReplicaSync::new();
        r.sync(&mut run, true);
        r.sync_with(&mut run, ReplicaEvent::TxidRead(Txid(9)));
        let diverged = Error::Diverged { local: Txid(9), remote: Txid(2) };
        match r.sync_with(&mut run, ReplicaEvent::CatchUpFailed(diverged)) {
            ReplicaAction::FullRestore => {
                assert!(auto_reset);
                match r.sync_with(&mut run, ReplicaEvent::Restored(Txid(2))) {
                    ReplicaAction::Done(s) => {
                        assert!(s.restored);
                        assert_eq!((s.from_txid, s.to_txid), (Txid(9), Txid(2)));
                    }
                    other => panic!("{other:?}"),
                }
            }
            ReplicaAction::Failed(Error::Diverged { local: Txid(9), remote: Txid(2) }) => {
                assert!(!auto_reset)
            }
            other => panic!("{other:?}"),
        }
        let mut run = ReplicaSync::new();
        r.sync(&mut run, true);
        r.sync_with(&mut run, ReplicaEvent::TxidRead(Txid(9)));
        let a = r.sync_with(&mut run, ReplicaEvent::CatchUpFailed(Error::Cancelled));
        assert!(matches!(a, ReplicaAction::Failed(Error::Cancelled)));
    }
}

/// A bucket, as listings by level, from which some files have vanished.
struct Bucket {
    files: Vec<FileInfo>,
    vanished: Vec<(u8, u64)>,
}

impl Bucket {
    fn new(files: &[(u8, u64, u64)]) -> Bucket {
        let files = files.iter().map(|f| file(f.0, f.1, f.2)).collect();
        Bucket { files, vanished: Vec::new() }
    }

    /// One round from `from`: the outcome, the files applied, and what was
    /// persisted.
    fn catch_up(&self, from: u64) -> (Result<u64, Error>, Vec<LtxFile>, Option<u64>) {
        let mut run = IncrementalSync::new(Txid(from));
        let mut applied = Vec::new();
        let mut written = None;
        let mut event = SyncEvent::Start;
        loop {
            event = match run.incremental_sync(event) {
                SyncAction::List { level, from } => {
                    let at = |f: &&FileInfo| f.level == level && f.min_txid.0 >= from.0;
                    SyncEvent::Listed(self.files.iter().filter(at).cloned().collect())
                }
                SyncAction::CheckCancel => SyncEvent::CancelChecked(false),
                SyncAction::Apply(f) if self.vanished.contains(&(f.level, f.max_txid.0)) => {
                    SyncEvent::ApplyFailed(gone())
                }
                SyncAction::Apply(f) => {
                    applied.push(f);
                    SyncEvent::Applied
                }
                SyncAction::WriteTxid(t) => {
                    written = Some(t.0);
                    SyncEvent::TxidWritten
                }
                SyncAction::Done(t) => return (Ok(t.0), applied, written),
                SyncAction::Failed(e) => return (Err(e), applied, written),
                SyncAction::Unexpected => panic!("out of turn"),
            };
        }
    }

    fn reached(&self, from: u64) -> (u64, Vec<(u8, u64, u64)>, Option<u64>) {
        let (r, applied, written) = self.catch_up(from);
        let ids = applied.iter().map(|f| (f.level, f.min_txid.0, f.max_txid.0)).collect();
        (r.unwrap(), ids, written)
    }
}

#[test]
fn l0_files_are_applied_in_order() {
    let b = Bucket::new(&[(0, 4, 4), (0, 5, 5), (0, 6, 6)]);
    assert_eq!(b.reached(3), (6, vec![(0, 4, 4), (0, 5, 5), (0, 6, 6)], Some(6)));
    assert_eq!(b.reached(6), (6, vec![], None));
}

#[test]
fn gaps_are_bridged_through_compacted_levels() {
    let b = Bucket::new(&[(0, 9, 9), (1, 1, 4), (1, 5, 8), (2, 1, 4)]);
    assert_eq!(b.reached(4), (9, vec![(1, 5, 8), (0, 9, 9)], Some(9)));
    // Without L0 files the levels are asked too, until one brings something.
    let b = Bucket::new(&[(3, 1, 8), (4, 1, 9)]);
    assert_eq!(b.reached(4), (8, vec![(3, 1, 8)], Some(8)));
}

#[test]
fn a_snapshot_is_the_last_resort() {
    let b = Bucket::new(&[(0, 20, 20), (9, 1, 15), (9, 1, 19), (9, 1, 19)]);
    assert_eq!(b.reached(4), (19, vec![(9, 1, 19)], Some(19)));
    // A file that vanished between listing and fetch means "again later".
    let mut b = Bucket::new(&[(0, 5, 5), (9, 1, 15)]);
    b.vanished.push((0, 5));
    assert_eq!(b.reached(4), (4, vec![], None));
    let mut b = Bucket::new(&[(1, 5, 6), (9, 1, 15)]);
    b.vanished.push((1, 6));
    assert_eq!(b.reached(4), (4, vec![], None));
    // Progress before it is kept.
    let mut b = Bucket::new(&[(0, 5, 5), (0, 6, 6)]);
    b.vanished.push((0, 6));
    assert_eq!(b.reached(4), (5, vec![(0, 5, 5)], Some(5)));
}

#[test]
fn divergence_needs_positive_evidence() {
    let b = Bucket::new(&[(0, 1, 1), (1, 1, 2)]);
    match b.catch_up(5).0 {
        Err(Error::Diverged { local, remote }) => assert_eq!((local, remote), (Txid(5), Txid(2))),
        other => panic!("{other:?}"),
    }
    assert_eq!(Bucket::new(&[]).reached(5), (5, vec![], None));
    assert_eq!(Bucket::new(&[(1, 1, 5)]).reached(5), (5, vec![], None));
}

#[test]
fn catching_up_stops_at_a_cancel_or_an_error() {
    let mut run = IncrementalSync::new(Txid(3));
    run.incremental_sync(SyncEvent::Start);
    run.incremental_sync(SyncEvent::Listed(vec![file(0, 4, 4)]));
    let a = run.incremental_sync(SyncEvent::CancelChecked(true));
    assert!(matches!(a, SyncAction::Failed(Error::Cancelled)));
    let mut run = IncrementalSync::new(Txid(3));
    run.incremental_sync(SyncEvent::Start);
    run.incremental_sync(SyncEvent::Listed(vec![file(0, 4, 4)]));
    run.incremental_sync(SyncEvent::CancelChecked(false));
    let a = run.incremental_sync(SyncEvent::ApplyFailed(Error::Ltx(ltx::Error::InvalidFile)));
    assert!(matches!(a, SyncAction::Failed(Error::Ltx(_))));
}

fn header(page_size: u32, commit: u32) -> Header {
    Header { page_size, commit, min_txid: Txid(2), max_txid: Txid(3), ..Header::default() }
}

#[test]
fn a_file_is_verified_and_locked_before_it_is_written() {
    let r = replica(ReplicaOptions::default());
    let mut data = vec![7u8; 512];
    let mut run = Apply::new(512);
    let mut step = |e, data: &mut [u8]| r.apply_spooled(&mut run, data, e);
    assert!(matches!(step(ApplyEvent::Start, &mut data), ApplyAction::VerifySpool));
    assert!(matches!(step(ApplyEvent::Page(1), &mut data), ApplyAction::Unexpected));
    assert!(matches!(step(ApplyEvent::Verified, &mut data), ApplyAction::ReadHeader));
    assert!(matches!(step(ApplyEvent::Header(header(512, 9)), &mut data), ApplyAction::Lock));
    assert!(matches!(step(ApplyEvent::Locked, &mut data), ApplyAction::ReadPage));
    assert_eq!(data, vec![7u8; 512]);
    let a = step(ApplyEvent::Page(1), &mut data);
    assert!(matches!(a, ApplyAction::WritePage { offset: 0 }));
    // Page 1 reads as that of a rollback-journal database, with a fresh
    // change counter.
    assert_eq!(data[18..20], [1, 1]);
    assert!(data[..18].iter().chain(&data[20..24]).chain(&data[28..]).all(|b| *b == 7));
    assert!(matches!(step(ApplyEvent::PageWritten, &mut data), ApplyAction::ReadPage));
    let before = data.clone();
    let a = step(ApplyEvent::Page(4), &mut data);
    assert!(matches!(a, ApplyAction::WritePage { offset: 1536 }));
    assert_eq!(data, before);
    step(ApplyEvent::PageWritten, &mut data);
    assert!(matches!(step(ApplyEvent::NoPage, &mut data), ApplyAction::Truncate(4608)));
    assert!(matches!(step(ApplyEvent::Truncated, &mut data), ApplyAction::Finish));
    assert!(matches!(step(ApplyEvent::Finished, &mut data), ApplyAction::SyncFile));
    assert!(matches!(step(ApplyEvent::FileSynced, &mut data), ApplyAction::Done));
}

#[test]
fn change_counters_are_random() {
    let r = replica(ReplicaOptions { use_file_locks: false, ..ReplicaOptions::default() });
    let mut counters = std::collections::HashSet::new();
    for _ in 0..16 {
        let mut data = vec![0u8; 512];
        let mut run = Apply::new(512);
        r.apply_spooled(&mut run, &mut data, ApplyEvent::Start);
        r.apply_spooled(&mut run, &mut data, ApplyEvent::Verified);
        // Without file locks pages are read right behind the header.
        let a = r.apply_spooled(&mut run, &mut data, ApplyEvent::Header(header(512, 0)));
        assert!(matches!(a, ApplyAction::ReadPage));
        r.apply_spooled(&mut run, &mut data, ApplyEvent::Page(1));
        counters.insert(data[24..28].to_vec());
        r.apply_spooled(&mut run, &mut data, ApplyEvent::PageWritten);
        let a = r.apply_spooled(&mut run, &mut data, ApplyEvent::NoPage);
        assert!(matches!(a, ApplyAction::Finish));
    }
    assert!(counters.len() > 8, "{counters:?}");
    let mut page = [9u8; 28];
    present_page(&mut page, [1, 2, 3, 4]);
    assert_eq!((page[18], page[19], &page[24..]), (1, 1, &[1u8, 2, 3, 4][..]));
}

#[test]
fn another_page_size_is_divergence() {
    let r = replica(ReplicaOptions::default());
    let mut run = Apply::new(4096);
    r.apply_spooled(&mut run, &mut [], ApplyEvent::Start);
    r.apply_spooled(&mut run, &mut [], ApplyEvent::Verified);
    match r.apply_spooled(&mut run, &mut [], ApplyEvent::Header(header(512, 9))) {
        ApplyAction::Failed(Error::Diverged { local, remote }) => {
            assert_eq!((local, remote), (Txid(2), Txid(3)))
        }
        other => panic!("{other:?}"),
    }
}

/// Restores two files, and tells the actions by name.
fn restore(check: IntegrityCheck, len: u64, report: &str) -> (RestoreAction, Vec<&'static str>) {
    let r = replica(ReplicaOptions { integrity_check: check, ..ReplicaOptions::default() });
    let mut run = Restore::new();
    let mut seen = Vec::new();
    let mut a =
        r.full_restore(&mut run, RestoreEvent::Planned(vec![file(9, 1, 4), file(0, 5, 6)]));
    loop {
        let (name, event) = match a {
            RestoreAction::CheckCancel => ("cancel", RestoreEvent::CancelChecked(false)),
            RestoreAction::OpenFile(_) => ("open", RestoreEvent::FileOpened),
            RestoreAction::Materialize => ("image", RestoreEvent::Materialized { len }),
            RestoreAction::PresentJournal { offset } => {
                assert_eq!(offset, 18);
                ("journal", RestoreEvent::JournalPresented)
            }
            RestoreAction::SyncImage => ("flush", RestoreEvent::ImageSynced),
            RestoreAction::Rename => ("rename", RestoreEvent::Renamed),
            RestoreAction::RemoveSideFiles => ("sides", RestoreEvent::SideFilesRemoved),
            RestoreAction::CheckIntegrity(p) => (p, RestoreEvent::IntegrityChecked(report.into())),
            RestoreAction::WriteTxid(t) => {
                assert_eq!(t, Txid(6));
                ("txid", RestoreEvent::TxidWritten)
            }
            other => return (other, seen),
        };
        seen.push(name);
        a = r.full_restore(&mut run, event);
    }
}

#[test]
fn a_restore_replaces_the_replica_at_its_end() {
    let (a, seen) = restore(IntegrityCheck::Quick, 4096, "ok");
    assert!(matches!(a, RestoreAction::Done(Txid(6))));
    assert_eq!(
        seen,
        [
            "cancel", "open", "cancel", "open", "image", "journal", "flush", "cancel",
            "quick_check", "rename", "sides", "txid"
        ]
    );
    let (_, seen) = restore(IntegrityCheck::Off, 99, "");
    assert_eq!(seen[4..], ["image", "flush", "cancel", "rename", "sides", "txid"]);
}

#[test]
fn a_corrupt_image_leaves_the_old_replica() {
    let (a, seen) = restore(IntegrityCheck::Full, 4096, "page 3 is never used");
    assert!(matches!(&a, RestoreAction::Failed(e)
        if e.to_string() == "post-restore integrity check failed: page 3 is never used"));
    assert_eq!(seen[7..], ["cancel", "integrity_check"]);
    assert!(!seen.contains(&"rename") && !seen.contains(&"sides") && !seen.contains(&"txid"));
}

#[test]
fn implausible_files_are_not_restored() {
    let r = replica(ReplicaOptions::default());
    let mut run = Restore::new();
    let short = FileInfo { size: 99, ..file(2, 1, 4) };
    match r.full_restore(&mut run, RestoreEvent::Planned(vec![file(9, 1, 1), short])) {
        RestoreAction::Failed(e) => assert_eq!(
            e.to_string(),
            "invalid ltx file: level=2 min=0000000000000001 max=0000000000000004 has size 99 bytes"
        ),
        other => panic!("{other:?}"),
    }
    let mut run = Restore::new();
    r.full_restore(&mut run, RestoreEvent::Planned(vec![file(9, 1, 4)]));
    let a = r.full_restore(&mut run, RestoreEvent::CancelChecked(true));
    assert!(matches!(a, RestoreAction::Failed(Error::Cancelled)));
    let none = ReplicaOptions { integrity_check: IntegrityCheck::Off, ..ReplicaOptions::default() };
    assert_eq!(replica(none).check_integrity(), None);
    assert_eq!(r.check_integrity(), Some("quick_check"));
}

/// A follower at position 3 that waits for the stream's next event.
fn streaming(retry: bool, before: u64) -> Follow {
    let mut f = Follow::new(retry);
    f.follow(FollowEvent::Start);
    f.follow(FollowEvent::CancelChecked(false));
    f.follow(FollowEvent::Position(Txid(before)));
    assert!(matches!(f.follow(FollowEvent::Synced), FollowAction::ReadPosition));
    let a = f.follow(FollowEvent::Position(Txid(3)));
    assert!(matches!(a, FollowAction::OpenStream(Txid(4))));
    assert!(matches!(f.follow(FollowEvent::StreamOpened), FollowAction::OpenDatabase));
    assert!(matches!(f.follow(FollowEvent::DatabaseOpened), FollowAction::CheckCancel));
    assert!(matches!(f.follow(FollowEvent::CancelChecked(false)), FollowAction::CreateSpool));
    assert!(matches!(f.follow(FollowEvent::SpoolCreated), FollowAction::NextFrame));
    f
}

fn frame(min: u64, max: u64) -> FollowEvent {
    FollowEvent::Stream(StreamEvent::Ltx { min_txid: Txid(min), max_txid: Txid(max) })
}

#[test]
fn streamed_transactions_are_applied_as_they_arrive() {
    let mut f = streaming(false, 3);
    assert!(matches!(f.follow(frame(4, 5)), FollowAction::SyncSpool));
    assert!(matches!(f.follow(FollowEvent::SpoolSynced), FollowAction::Apply));
    assert!(matches!(f.follow(FollowEvent::Applied), FollowAction::WriteTxid(Txid(5))));
    assert!(matches!(f.follow(FollowEvent::TxidWritten), FollowAction::CheckCancel));
    f.follow(FollowEvent::CancelChecked(false));
    f.follow(FollowEvent::SpoolCreated);
    // A stale frame is skipped, a gapped one is for the next sync.
    assert!(matches!(f.follow(frame(5, 5)), FollowAction::CheckCancel));
    f.follow(FollowEvent::CancelChecked(false));
    f.follow(FollowEvent::SpoolCreated);
    assert!(matches!(f.follow(frame(7, 7)), FollowAction::RemoveSpool));
    // This round moved on, so the next one starts at once.
    assert!(matches!(f.follow(FollowEvent::SpoolRemoved), FollowAction::CheckCancel));
}

#[test]
fn stream_events_route_back_through_a_sync() {
    let idle = |m: Option<u64>| StreamEvent::Idle { bucket_max: m.map(Txid) };
    for (event, goes_on) in [
        (idle(None), true),
        (idle(Some(0)), true),
        (idle(Some(3)), true),
        (idle(Some(2)), false),
        (StreamEvent::Gap, false),
        (StreamEvent::Reset, false),
        (StreamEvent::Closed, false),
        (StreamEvent::Unknown, false),
    ] {
        let mut f = streaming(false, 3);
        let a = f.follow(FollowEvent::Stream(event));
        if goes_on {
            assert!(matches!(a, FollowAction::CheckCancel), "{event:?}");
        } else {
            assert!(matches!(a, FollowAction::RemoveSpool), "{event:?}");
            // Nothing moved: wait, do not spin.
            assert!(matches!(f.follow(FollowEvent::SpoolRemoved), FollowAction::SleepPoll));
        }
    }
    for e in [
        Error::Diverged { local: Txid(1), remote: Txid(2) },
        Error::Ltx(ltx::Error::InvalidFile),
        gone(),
    ] {
        let mut f = streaming(false, 2);
        f.follow(frame(4, 4));
        f.follow(FollowEvent::SpoolSynced);
        assert!(matches!(f.follow(FollowEvent::ApplyFailed(e)), FollowAction::RemoveSpool));
        assert!(matches!(f.follow(FollowEvent::SpoolRemoved), FollowAction::CheckCancel));
    }
}

#[test]
fn transient_failures_back_off_where_retrying_is_on() {
    let down = || StorageError::Unavailable("down".into());
    for retry in [false, true] {
        let mut f = streaming(retry, 3);
        f.follow(FollowEvent::StreamBroke(down()));
        match f.follow(FollowEvent::SpoolRemoved) {
            FollowAction::SleepRetry(0) => assert!(retry),
            FollowAction::Failed(Error::Storage(_)) => assert!(!retry),
            other => panic!("{other:?}"),
        }
    }
    let mut f = Follow::new(true);
    for attempt in 0..3 {
        f.follow(if attempt == 0 { FollowEvent::Start } else { FollowEvent::Slept(false) });
        f.follow(FollowEvent::CancelChecked(false));
        f.follow(FollowEvent::Position(Txid(3)));
        let a = f.follow(FollowEvent::SyncFailed(Error::Storage(down())));
        assert!(matches!(a, FollowAction::SleepRetry(n) if n == attempt));
    }
    assert!(matches!(f.follow(FollowEvent::Slept(true)), FollowAction::Stopped));
    // Syncs that move nothing do not break a row of failures.
    let mut f = Follow::new(true);
    for attempt in 0..3 {
        f.follow(if attempt == 0 { FollowEvent::Start } else { FollowEvent::Slept(false) });
        f.follow(FollowEvent::CancelChecked(false));
        f.follow(FollowEvent::Position(Txid(3)));
        f.follow(FollowEvent::Synced);
        f.follow(FollowEvent::Position(Txid(3)));
        let a = f.follow(FollowEvent::StreamFailed(down()));
        assert!(matches!(a, FollowAction::SleepRetry(n) if n == attempt));
    }
    // A wait for an empty bucket does not either.
    f.follow(FollowEvent::Slept(false));
    f.follow(FollowEvent::CancelChecked(false));
    f.follow(FollowEvent::Position(Txid(3)));
    assert!(matches!(f.follow(FollowEvent::SyncFailed(Error::TxNotAvailable)), FollowAction::SleepPoll));
    assert_eq!(f.attempt, 3);
    // A round that ends without a failure does, though it moved nothing.
    f.follow(FollowEvent::Slept(false));
    f.follow(FollowEvent::CancelChecked(false));
    f.follow(FollowEvent::Position(Txid(3)));
    f.follow(FollowEvent::Synced);
    f.follow(FollowEvent::Position(Txid(3)));
    assert!(matches!(f.follow(FollowEvent::NoStream), FollowAction::SleepPoll));
    for attempt in 0..2 {
        f.follow(FollowEvent::Slept(false));
        f.follow(FollowEvent::CancelChecked(false));
        f.follow(FollowEvent::Position(Txid(3)));
        let a = f.follow(FollowEvent::SyncFailed(Error::Storage(down())));
        assert!(matches!(a, FollowAction::SleepRetry(n) if n == attempt));
    }
    // So does one that moves the position.
    f.follow(FollowEvent::Slept(false));
    f.follow(FollowEvent::CancelChecked(false));
    f.follow(FollowEvent::Position(Txid(3)));
    f.follow(FollowEvent::Synced);
    f.follow(FollowEvent::Position(Txid(4)));
    let a = f.follow(FollowEvent::StreamFailed(down()));
    assert!(matches!(a, FollowAction::SleepRetry(0)));
    // A permanent failure ends following, retrying or not.
    let mut f = streaming(true, 3);
    f.follow(FollowEvent::StreamBroke(StorageError::Unauthorized("no".into())));
    assert!(matches!(f.follow(FollowEvent::SpoolRemoved), FollowAction::Failed(_)));
    // An empty bucket is waited for.
    let mut f = Follow::new(false);
    f.follow(FollowEvent::Start);
    f.follow(FollowEvent::CancelChecked(false));
    f.follow(FollowEvent::Position(Txid(0)));
    let a = f.follow(FollowEvent::SyncFailed(Error::TxNotAvailable));
    assert!(matches!(a, FollowAction::SleepPoll));
}

#[test]
fn cancelling_a_follower_is_a_clean_stop() {
    let mut f = Follow::new(false);
    f.follow(FollowEvent::Start);
    assert!(matches!(f.follow(FollowEvent::CancelChecked(true)), FollowAction::Stopped));
    let mut f = Follow::new(false);
    f.follow(FollowEvent::Start);
    f.follow(FollowEvent::CancelChecked(false));
    f.follow(FollowEvent::Position(Txid(3)));
    let a = f.follow(FollowEvent::SyncFailed(Error::Cancelled));
    assert!(matches!(a, FollowAction::Stopped));
    let mut f = streaming(true, 3);
    f.follow(FollowEvent::StreamBroke(StorageError::Cancelled));
    assert!(matches!(f.follow(FollowEvent::SpoolRemoved), FollowAction::Stopped));
    let mut f = streaming(true, 3);
    f.follow(FollowEvent::Stream(StreamEvent::Idle { bucket_max: None }));
    assert!(matches!(f.follow(FollowEvent::CancelChecked(true)), FollowAction::RemoveSpool));
    assert!(matches!(f.follow(FollowEvent::SpoolRemoved), FollowAction::Stopped));
    assert!(matches!(f.follow(FollowEvent::Start), FollowAction::Unexpected));
}

#[test]
fn a_backend_without_a_stream_is_polled() {
    let mut f = Follow::new(false);
    f.follow(FollowEvent::Start);
    f.follow(FollowEvent::CancelChecked(false));
    f.follow(FollowEvent::Position(Txid(3)));
    f.follow(FollowEvent::Synced);
    f.follow(FollowEvent::Position(Txid(3)));
    assert!(matches!(f.follow(FollowEvent::NoStream), FollowAction::SleepPoll));
    assert!(matches!(f.follow(FollowEvent::Slept(false)), FollowAction::CheckCancel));
}
