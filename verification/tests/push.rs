use liters::error::Error;
use liters::ltx::{Checksum, Pos, Txid};
use liters::push::{Push, PushAction, PushEvent, ResetAction, ResetStage};
use liters::storage::StorageError;
use liters::upload::{
    Lineage, LineageAction, LineageEvent, Upload, UploadAction, UploadEvent,
};
use liters::verify::{SyncInfo, SyncState};
use liters::writer::{CheckpointMode, SyncOutcome, SyncPlan, WalScan, Writer, WriterOptions};

fn writer(verified: u64, local: u64) -> Writer {
    Writer {
        db_path: "app.db".into(),
        page_size: 4096,
        opts: WriterOptions::default(),
        state: SyncState::default(),
        cached_pos: Some(pos(local)),
        remote_txid: None,
        verified_pos: Txid(verified),
        verified_pos_provisional: false,
        lineage_checked: false,
    }
}

fn pos(txid: u64) -> Pos {
    Pos::new(Txid(txid), Checksum(0))
}

fn outcome(reason: Option<&'static str>) -> SyncOutcome {
    SyncOutcome {
        synced: true,
        pos: Some(pos(2)),
        new_wal_size: 4152,
        synced_to_wal_end: true,
        snapshotted: reason.is_some(),
        snapshot_reason: reason,
    }
}

/// Runs a lineage check without cancellation.
fn check_lineage(w: &mut Writer, remote: Option<(u64, u64)>, persisted: Option<u64>) -> Vec<LineageAction> {
    let mut run = Lineage::new();
    let mut seen = Vec::new();
    let mut event = LineageEvent::Start;
    loop {
        let a = w.ensure_lineage_checked(&mut run, event);
        seen.push(a);
        event = match a {
            LineageAction::CheckCancel => LineageEvent::CancelChecked(false),
            LineageAction::List => {
                LineageEvent::Listed(remote.map(|(a, b)| (Txid(a), Txid(b))))
            }
            LineageAction::ClearL0 => LineageEvent::L0Cleared,
            LineageAction::Adopt { .. } => LineageEvent::Adopted,
            LineageAction::ReadVerified => LineageEvent::VerifiedRead(persisted.map(Txid)),
            LineageAction::Save(_) => LineageEvent::Saved,
            LineageAction::Done => return seen,
            other => panic!("{other:?}"),
        };
    }
}

#[test]
fn an_own_bucket_passes_the_lineage_check() {
    let mut w = writer(4, 6);
    let seen = check_lineage(&mut w, Some((4, 4)), Some(4));
    assert!(!seen.contains(&LineageAction::ClearL0));
    assert!(!seen.contains(&LineageAction::Save(Txid(4))));
    assert!(w.lineage_checked);
    assert_eq!((w.verified_pos, w.remote_txid, w.cached_pos), (Txid(4), Some(Txid(4)), Some(pos(6))));
    // Once per session.
    assert_eq!(check_lineage(&mut w, Some((9, 9)), None), [LineageAction::Done]);
}

#[test]
fn a_bucket_ahead_is_adopted() {
    let mut w = writer(4, 6);
    w.state.synced_to_wal_end = true;
    let seen = check_lineage(&mut w, Some((8, 9)), Some(4));
    let adopt = LineageAction::Adopt { min_txid: Txid(8), max_txid: Txid(9) };
    assert!(seen.contains(&adopt) && seen.contains(&LineageAction::Save(Txid(9))));
    assert_eq!((w.verified_pos, w.remote_txid, w.cached_pos), (Txid(9), Some(Txid(9)), None));
    assert!(!w.state.synced_to_wal_end);
}

#[test]
fn a_bucket_behind_is_foreign_unless_provisional() {
    let mut w = writer(4, 6);
    assert!(check_lineage(&mut w, Some((2, 2)), Some(4)).contains(&LineageAction::ClearL0));
    assert_eq!((w.verified_pos, w.cached_pos), (Txid(2), None));
    // A baseline from local evidence may sit ahead of the bucket.
    let mut w = writer(6, 6);
    w.verified_pos_provisional = true;
    let seen = check_lineage(&mut w, Some((2, 2)), None);
    assert!(!seen.contains(&LineageAction::ClearL0) && seen.contains(&LineageAction::Save(Txid(2))));
    assert_eq!((w.verified_pos, w.verified_pos_provisional), (Txid(2), false));
    assert_eq!(w.cached_pos, Some(pos(6)));
    let mut w = writer(6, 6);
    w.verified_pos_provisional = true;
    assert!(check_lineage(&mut w, Some((7, 7)), None).contains(&LineageAction::ClearL0));
}

#[test]
fn a_wiped_bucket_is_reseeded() {
    let mut w = writer(4, 6);
    let seen = check_lineage(&mut w, None, Some(4));
    assert!(seen.contains(&LineageAction::ClearL0) && seen.contains(&LineageAction::Save(Txid(0))));
    assert!(!seen.iter().any(|a| matches!(a, LineageAction::Adopt { .. })));
    assert_eq!((w.verified_pos, w.remote_txid, w.cached_pos), (Txid(0), Some(Txid(0)), None));
    // An empty bucket of a fresh database is its own.
    let mut w = writer(0, 1);
    assert!(!check_lineage(&mut w, None, Some(0)).contains(&LineageAction::ClearL0));
}

#[test]
fn a_cancelled_lineage_check_leaves_the_session_unchecked() {
    let mut w = writer(4, 6);
    let mut run = Lineage::new();
    w.ensure_lineage_checked(&mut run, LineageEvent::Start);
    let a = w.ensure_lineage_checked(&mut run, LineageEvent::CancelChecked(true));
    assert_eq!(a, LineageAction::Cancelled);
    assert!(!w.lineage_checked);
    // An event out of turn changes nothing.
    assert_eq!(w.ensure_lineage_checked(&mut run, LineageEvent::Saved), LineageAction::Unexpected);
}

/// Uploads with every file opened at 10 bytes; `fail_at` breaks a send.
fn upload(w: &mut Writer, listed: Option<u64>, fail_at: Option<u64>) -> (UploadAction, Vec<u64>) {
    let mut run = Upload::new();
    let mut sent = Vec::new();
    let mut event = UploadEvent::Start;
    loop {
        let a = w.upload(&mut run, event);
        event = match a {
            UploadAction::List => UploadEvent::Listed(listed.map(Txid)),
            UploadAction::ReadPos => UploadEvent::Pos(pos(6)),
            UploadAction::CheckCancel => UploadEvent::CancelChecked(false),
            UploadAction::Open(_) => UploadEvent::Opened { size: 10 },
            UploadAction::Send(t) if Some(t.0) == fail_at => {
                UploadEvent::SendFailed(StorageError::Unavailable("down".into()))
            }
            UploadAction::Send(t) => {
                sent.push(t.0);
                UploadEvent::Sent
            }
            UploadAction::Save(t) => {
                assert_eq!(w.verified_pos, t);
                UploadEvent::Saved
            }
            other => return (other, sent),
        };
    }
}

fn checked(verified: u64, local: u64) -> Writer {
    Writer { lineage_checked: true, remote_txid: Some(Txid(verified)), ..writer(verified, local) }
}

#[test]
fn files_go_up_in_order() {
    let mut w = checked(3, 6);
    let (a, sent) = upload(&mut w, None, None);
    assert_eq!(sent, [4, 5, 6]);
    assert!(matches!(
        a,
        UploadAction::Done { uploaded: 3, bytes_uploaded: 30, remote_txid: Txid(6) }
    ));
    assert_eq!((w.verified_pos, w.remote_txid), (Txid(6), Some(Txid(6))));
    let (a, sent) = upload(&mut w, None, None);
    assert!(sent.is_empty());
    assert!(matches!(
        a,
        UploadAction::Done { uploaded: 0, bytes_uploaded: 0, remote_txid: Txid(6) }
    ));
    // Without a remembered position it is read.
    let mut w = checked(5, 0);
    w.cached_pos = None;
    assert_eq!(upload(&mut w, None, None).1, [6]);
    assert_eq!(w.cached_pos, Some(pos(6)));
}

#[test]
fn a_failed_upload_lists_the_bucket_again() {
    let mut w = checked(3, 6);
    let (a, sent) = upload(&mut w, None, Some(5));
    assert_eq!(sent, [4]);
    assert!(matches!(a, UploadAction::Failed(Error::Storage(StorageError::Unavailable(_)))));
    assert_eq!((w.verified_pos, w.remote_txid, w.lineage_checked), (Txid(4), None, true));
    let (a, sent) = upload(&mut w, Some(4), None);
    assert_eq!(sent, [5, 6]);
    assert!(matches!(a, UploadAction::Done { uploaded: 2, .. }));
}

#[test]
fn a_bucket_that_moved_stops_the_session() {
    for listed in [Some(5), Some(2), None] {
        let mut w = checked(3, 6);
        w.remote_txid = None;
        let (a, sent) = upload(&mut w, listed, None);
        assert!(sent.is_empty() && !w.lineage_checked);
        match a {
            UploadAction::Failed(e) => {
                let at = Txid(listed.unwrap_or(0)).to_string();
                assert!(!e.is_transient());
                assert_eq!(
                    e.to_string(),
                    format!(
                        "bucket moved outside this session's verified position (bucket at {at}, \
                         session verified 0000000000000003): foreign writer suspected; the next \
                         push re-runs the lineage check"
                    )
                );
            }
            other => panic!("{other:?}"),
        }
    }
}

#[test]
fn uploads_stop_at_a_local_gap_or_a_cancel() {
    let mut w = checked(3, 6);
    let mut run = Upload::new();
    w.upload(&mut run, UploadEvent::Start);
    w.upload(&mut run, UploadEvent::CancelChecked(false));
    let gap = UploadEvent::OpenFailed { path: "/l0/x".into(), cause: "no such file".into() };
    match w.upload(&mut run, gap) {
        UploadAction::Failed(Error::LocalLtx { txid, msg }) => {
            assert_eq!(txid, Txid(4));
            assert_eq!(msg, "open \"/l0/x\": no such file");
        }
        other => panic!("{other:?}"),
    }
    assert_eq!(w.remote_txid, None);
    let mut w = checked(3, 6);
    let mut run = Upload::new();
    w.upload(&mut run, UploadEvent::Start);
    let a = w.upload(&mut run, UploadEvent::CancelChecked(true));
    assert!(matches!(a, UploadAction::Failed(Error::Cancelled)));
    assert!(matches!(w.upload(&mut run, UploadEvent::Sent), UploadAction::Unexpected));
    // A cancelled transfer is a cancellation too.
    let mut w = checked(3, 6);
    let mut run = Upload::new();
    w.upload(&mut run, UploadEvent::Start);
    w.upload(&mut run, UploadEvent::CancelChecked(false));
    w.upload(&mut run, UploadEvent::Opened { size: 1 });
    let a = w.upload(&mut run, UploadEvent::SendFailed(StorageError::Cancelled));
    assert!(matches!(a, UploadAction::Failed(Error::Cancelled)));
}

#[test]
fn checkpoints_are_due_by_size() {
    let w = writer(0, 0);
    let passive = 32 + 1000 * 4120;
    let truncate = 32 + 121_359 * 4120;
    assert_eq!(w.checkpoint_if_needed(0, passive - 1), None);
    assert_eq!(w.checkpoint_if_needed(0, passive), Some(CheckpointMode::Passive));
    assert_eq!(w.checkpoint_if_needed(truncate - 1, 0), None);
    assert_eq!(w.checkpoint_if_needed(truncate, passive), Some(CheckpointMode::Truncate));
    let mut off = w.clone();
    off.opts.truncate_page_n = 0;
    assert_eq!(off.checkpoint_if_needed(u64::MAX, 0), None);
    off.page_size = 0;
    assert_eq!(off.checkpoint_if_needed(u64::MAX, u64::MAX), None);
}

/// Runs a push whose parts all succeed, and tells the actions by name.
fn push(w: &mut Writer, o: SyncOutcome, wal_size: u64) -> (PushAction, Vec<&'static str>) {
    let mut run = Push::new();
    let mut seen = Vec::new();
    let mut a = w.push(&mut run);
    loop {
        let (name, event) = match a {
            PushAction::CheckCancel => ("cancel", PushEvent::CancelChecked(false)),
            PushAction::EnsureWal => ("wal", PushEvent::WalEnsured),
            PushAction::MeasureWal => ("measure", PushEvent::WalSize(wal_size)),
            PushAction::Sync => ("sync", PushEvent::Synced(o)),
            PushAction::Persist(n) => {
                assert_eq!(n, o.new_wal_size);
                ("persist", PushEvent::Persisted)
            }
            PushAction::Checkpoint(_) => ("checkpoint", PushEvent::Checkpointed { synced: None }),
            PushAction::CheckLineage => {
                w.lineage_checked = true;
                ("lineage", PushEvent::LineageChecked)
            }
            PushAction::Upload => (
                "upload",
                PushEvent::Uploaded { uploaded: 1, bytes_uploaded: 50, remote_txid: Txid(2) },
            ),
            PushAction::Prune(t) => {
                assert_eq!(t, Txid(2));
                ("prune", PushEvent::Pruned)
            }
            PushAction::ReadPos => ("pos", PushEvent::Pos(pos(2))),
            other => return (other, seen),
        };
        seen.push(name);
        a = w.push_with(&mut run, event);
    }
}

#[test]
fn a_push_syncs_before_it_touches_the_bucket() {
    let mut w = writer(1, 1);
    let (a, seen) = push(&mut w, outcome(Some("first sync, no local position")), 40);
    assert_eq!(
        seen,
        ["cancel", "wal", "measure", "sync", "persist", "cancel", "lineage", "upload", "prune"]
    );
    match a {
        PushAction::Done(r) => {
            assert_eq!((r.txid, r.remote_txid), (Txid(2), Txid(2)));
            assert!(r.synced && r.snapshotted && !r.checkpointed);
            assert_eq!(r.snapshot_reason, Some("first sync, no local position"));
            assert_eq!((r.uploaded, r.bytes_uploaded), (1, 50));
        }
        other => panic!("{other:?}"),
    }
    assert!(w.state.synced_since_checkpoint && w.state.synced_to_wal_end);
    // The session stays checked, and the WAL's logical size is known.
    let (_, seen) = push(&mut w, outcome(None), 0);
    assert_eq!(seen, ["cancel", "wal", "sync", "persist", "cancel", "upload", "prune"]);
}

#[test]
fn a_push_checkpoints_at_its_thresholds() {
    let mut w = writer(1, 1);
    let big = SyncOutcome { new_wal_size: 32 + 1000 * 4120, ..outcome(None) };
    let (a, seen) = push(&mut w, big, 0);
    assert!(seen.contains(&"checkpoint"));
    assert!(matches!(a, PushAction::Done(r) if r.checkpointed && !r.snapshotted));
    assert!(!w.state.synced_since_checkpoint);
    w.opts.auto_checkpoint = false;
    assert!(!push(&mut w, big, 0).1.contains(&"checkpoint"));
    // A busy PASSIVE checkpoint is swallowed; any other failure is not.
    for (orig, busy, goes_on) in [(1, true, true), (1, false, false), (u64::MAX, true, false)] {
        let mut w = writer(1, 1);
        w.state.last_synced_wal_offset = orig;
        let mut run = Push::new();
        w.push(&mut run);
        w.push_with(&mut run, PushEvent::CancelChecked(false));
        w.push_with(&mut run, PushEvent::WalEnsured);
        w.push_with(&mut run, PushEvent::Synced(big));
        w.push_with(&mut run, PushEvent::Persisted);
        let a = w.push_with(&mut run, PushEvent::CancelChecked(false));
        assert!(matches!(a, PushAction::Checkpoint(_)));
        let error = Error::Sqlite("database is locked".into());
        let a = w.push_with(&mut run, PushEvent::CheckpointFailed { error, busy, synced: None });
        assert!(w.state.synced_since_checkpoint);
        if goes_on {
            assert!(matches!(a, PushAction::CheckLineage));
        } else {
            assert!(matches!(a, PushAction::Failed(Error::Sqlite(_))));
        }
    }
}

#[test]
fn a_checkpoint_takes_up_what_was_committed_before_it() {
    let late = SyncOutcome {
        pos: Some(pos(3)),
        new_wal_size: 9000,
        ..outcome(Some("wal truncated by another process"))
    };
    for ran in [true, false] {
        let mut w = writer(1, 1);
        let mut run = Push::new();
        w.push(&mut run);
        w.push_with(&mut run, PushEvent::CancelChecked(false));
        w.push_with(&mut run, PushEvent::WalEnsured);
        w.push_with(&mut run, PushEvent::WalSize(32));
        let first = SyncOutcome {
            synced: false,
            pos: None,
            new_wal_size: 32 + 1000 * 4120,
            ..outcome(None)
        };
        w.push_with(&mut run, PushEvent::Synced(first));
        w.push_with(&mut run, PushEvent::Persisted);
        w.push_with(&mut run, PushEvent::CancelChecked(false));
        let error = Error::Sqlite("database is locked".into());
        w.push_with(
            &mut run,
            if ran {
                PushEvent::Checkpointed { synced: Some(late) }
            } else {
                PushEvent::CheckpointFailed { error, busy: true, synced: Some(late) }
            },
        );
        assert_eq!((w.cached_pos, w.state.last_synced_wal_offset), (Some(pos(3)), 9000));
        assert_eq!(w.state.synced_since_checkpoint, !ran);
        assert!(run.synced && run.snapshotted && run.checkpointed == ran);
        assert_eq!(run.snapshot_reason, Some("wal truncated by another process"));
    }
}

#[test]
fn a_push_without_news_is_a_no_op() {
    let mut w = checked(1, 2);
    let (a, _) = push(&mut w, outcome(None), 40);
    let first = match a {
        PushAction::Done(r) => r,
        other => panic!("{other:?}"),
    };
    let info = SyncInfo {
        offset: 4152,
        salt1: 7,
        salt2: 8,
        snapshotting: false,
        reason: None,
        clear_synced_to_wal_end: false,
    };
    let scan = WalScan { commit: 0, max_offset: 0, salt1: 7, salt2: 8 };
    let nothing = match w.sync(pos(2), &info, 8192, &scan, 0).unwrap() {
        SyncPlan::Nothing(o) => o,
        other => panic!("{other:?}"),
    };
    w.remote_txid = Some(first.remote_txid);
    let mut run = Push::new();
    w.push(&mut run);
    w.push_with(&mut run, PushEvent::CancelChecked(false));
    w.push_with(&mut run, PushEvent::WalEnsured);
    w.push_with(&mut run, PushEvent::Synced(nothing));
    w.push_with(&mut run, PushEvent::Persisted);
    let a = w.push_with(&mut run, PushEvent::CancelChecked(false));
    assert!(matches!(a, PushAction::Upload));
    let event = match w.upload(&mut Upload::new(), UploadEvent::Start) {
        UploadAction::Done { uploaded, bytes_uploaded, remote_txid } => {
            PushEvent::Uploaded { uploaded, bytes_uploaded, remote_txid }
        }
        other => panic!("{other:?}"),
    };
    w.push_with(&mut run, event);
    match w.push_with(&mut run, PushEvent::Pruned) {
        PushAction::Done(r) => {
            assert!(!r.synced && !r.snapshotted && !r.checkpointed);
            assert_eq!((r.uploaded, r.bytes_uploaded, r.snapshot_reason), (0, 0, None));
            assert_eq!((r.txid, r.remote_txid), (first.txid, first.remote_txid));
        }
        other => panic!("{other:?}"),
    }
}

#[test]
fn a_cancelled_push_keeps_what_was_synced() {
    let mut w = writer(1, 1);
    let mut run = Push::new();
    w.push(&mut run);
    let a = w.push_with(&mut run, PushEvent::CancelChecked(true));
    assert!(matches!(a, PushAction::Failed(Error::Cancelled)));
    let mut run = Push::new();
    w.push(&mut run);
    w.push_with(&mut run, PushEvent::CancelChecked(false));
    w.push_with(&mut run, PushEvent::WalEnsured);
    w.push_with(&mut run, PushEvent::WalSize(32));
    w.push_with(&mut run, PushEvent::Synced(outcome(None)));
    w.push_with(&mut run, PushEvent::Persisted);
    let a = w.push_with(&mut run, PushEvent::CancelChecked(true));
    assert!(matches!(a, PushAction::Failed(Error::Cancelled)));
    assert_eq!((w.cached_pos, w.state.last_synced_wal_offset), (Some(pos(2)), 4152));
    assert!(matches!(w.push_with(&mut run, PushEvent::Pruned), PushAction::Unexpected));
}

#[test]
fn a_reset_zeroes_the_verified_position_first() {
    let mut w = checked(4, 6);
    w.state.synced_to_wal_end = true;
    w.verified_pos_provisional = true;
    let mut stage = ResetStage::Starting;
    assert_eq!(w.reset_local(&mut stage), ResetAction::Save(Txid(0)));
    assert_eq!((w.verified_pos, w.cached_pos), (Txid(0), Some(pos(6))));
    assert_eq!(w.reset_local(&mut stage), ResetAction::ClearL0);
    assert!(!w.lineage_checked && !w.verified_pos_provisional);
    assert_eq!(w.reset_local(&mut stage), ResetAction::Done);
    assert_eq!((w.cached_pos, w.remote_txid), (None, None));
    assert!(!w.state.synced_to_wal_end);
    assert_eq!(w.reset_local(&mut stage), ResetAction::Done);
}
