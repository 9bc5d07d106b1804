//! The read side: a local, read-only materialization of a replica bucket,
//! kept current by applying LTX files incrementally.
//!
//! - Every fetched file's checksum is verified *before* its pages touch the
//!   live replica.
//! - A stalled L0/L1-8 chain falls back to applying a newer snapshot in place,
//!   and a bucket whose max TXID went backwards is detected as divergence (see
//!   [`crate::incremental`]).
//! - The replica-file lock is acquired with a deadline and a cancellation
//!   check (see [`crate::lock`]).
//!
//! Everything here decides; nothing here reads or writes a file. A reading, a
//! download or a write that fails ends the operation with its own error,
//! unless an event reports it.

use vstd::prelude::*;
use vstd::string::*;

use crate::bytes::read_be;
#[allow(unused_imports)]
use crate::bytes::{be_bytes, be_value, lemma_be_value_of_bytes, lemma_pow256_values};
#[allow(unused_imports)]
use crate::error::{outcome, quoted_path_text, quoted_text, ErrorView};
use crate::error::{quoted, quoted_path, Error, Result};
#[allow(unused_imports)]
use crate::incremental::{
    lemma_round_reports_sidecar, listings_ok, sidecar_after_sync, sync_asks, sync_start,
    SyncActionView, SyncEventView,
};
#[allow(unused_imports)]
use crate::io::IoErrorView;
use crate::io::{IoError, IoErrorKind};
#[allow(unused_imports)]
use crate::ltx::types::{lemma_page_sizes, lemma_texts_by_form, page_size_ok};
use crate::ltx::Txid;
#[allow(unused_imports)]
use crate::restore::{
    journal_settled, lemma_restore_reports_sidecar, restore_asks, restore_start,
    sidecar_after_restore, some_event, RestoreActionView, RestoreEventView,
};
use crate::text::trim;
#[allow(unused_imports)]
use crate::text::{
    all_hex, all_lower_hex, hex_value, is_lower_hex_digit, is_white, lemma_hex_text_len,
    lemma_hex_value_of_text, lemma_pow16_values, trim_end, trim_start, trimmed,
};
use crate::time::Duration;

verus! {

/// Post-restore integrity checking.
#[derive(Debug, Clone, Copy, PartialEq, Eq, Structural)]
pub enum IntegrityCheck {
    Off,
    Quick,
    Full,
}

/// Tunables of a replica.
#[derive(Debug, Clone, Copy)]
pub struct ReplicaOptions {
    /// Integrity check to run over the image of a full restore, before it
    /// replaces the local replica.
    pub integrity_check: IntegrityCheck,
    /// Take SQLite-compatible locks on the replica file during page
    /// application. Protects readers in *other processes*.
    pub use_file_locks: bool,
    /// How long to wait for those locks before giving up with
    /// [`Error::LockBusy`]. Zero means try once and fail immediately. Values
    /// above a day are clamped.
    pub lock_timeout: Duration,
    /// On divergence (bucket reseeded below our position) or unresumable
    /// local state, restore from scratch instead of returning
    /// [`Error::Diverged`]. The existing replica survives if the restore
    /// fails partway.
    pub auto_reset: bool,
}

impl Default for ReplicaOptions {
    fn default() -> (r: ReplicaOptions)
        ensures
            r.integrity_check == IntegrityCheck::Quick,
            r.use_file_locks,
            r.lock_timeout.total() == 5_000_000_000,
            !r.auto_reset,
    {
        ReplicaOptions {
            integrity_check: IntegrityCheck::Quick,
            use_file_locks: true,
            lock_timeout: Duration::from_secs(5),
            auto_reset: false,
        }
    }
}

/// How a follower behaves.
#[derive(Debug, Clone, Copy)]
pub struct FollowOptions {
    /// Cadence for backends without streaming support, for waiting out an
    /// empty (not-yet-seeded) bucket, and the backoff after a round that
    /// made no progress.
    pub poll_interval: Duration,
    /// Whether transient failures are retried with a backoff.
    pub retry: bool,
}

impl Default for FollowOptions {
    fn default() -> (r: FollowOptions)
        ensures
            r.poll_interval.total() == 1_000_000_000,
            !r.retry,
    {
        FollowOptions { poll_interval: Duration::from_secs(1), retry: false }
    }
}

/// Result of a sync.
#[derive(Debug, Clone, Copy, PartialEq, Eq, Structural)]
pub struct SyncResult {
    /// Whether a full restore (not an incremental apply) ran.
    pub restored: bool,
    pub from_txid: Txid,
    pub to_txid: Txid,
}

/// Where a sync stands.
#[derive(Debug, Clone, Copy, PartialEq, Eq, Structural)]
pub enum ReplicaStage {
    Starting,
    ReadingTxid,
    Incremental,
    /// A full restore runs; the result names this position as the start.
    Restoring,
    Ended,
}

/// One sync of a replica.
#[derive(Debug, Clone, Copy, PartialEq, Eq, Structural)]
pub struct ReplicaSync {
    pub stage: ReplicaStage,
    pub from: Txid,
}

/// What the last action came to.
#[derive(Debug)]
pub enum ReplicaEvent {
    /// The sync starts; whether the local file exists.
    Start { exists: bool },
    /// The position in the sidecar.
    TxidRead(Txid),
    /// Incremental application came to this position.
    Caught(Txid),
    CatchUpFailed(Error),
    /// A full restore came to this position.
    Restored(Txid),
}

/// What to do next.
#[derive(Debug)]
pub enum ReplicaAction {
    /// Read the position from the sidecar.
    ReadTxid,
    /// Restore from scratch.
    FullRestore,
    /// Apply what is new since this position.
    CatchUp(Txid),
    Done(SyncResult),
    Failed(Error),
    /// The event does not answer the last action; nothing changed.
    Unexpected,
}

/// The mathematical counterpart of [`ReplicaEvent`].
#[verifier::ext_equal]
pub enum ReplicaEventView {
    Start { exists: bool },
    TxidRead(Txid),
    Caught(Txid),
    CatchUpFailed(ErrorView),
    Restored(Txid),
}

/// The mathematical counterpart of [`ReplicaAction`].
#[verifier::ext_equal]
pub enum ReplicaActionView {
    ReadTxid,
    FullRestore,
    CatchUp(Txid),
    Done(SyncResult),
    Failed(ErrorView),
    Unexpected,
}

impl View for ReplicaEvent {
    type V = ReplicaEventView;

    open spec fn view(&self) -> ReplicaEventView {
        match self {
            ReplicaEvent::Start { exists } => ReplicaEventView::Start { exists: *exists },
            ReplicaEvent::TxidRead(t) => ReplicaEventView::TxidRead(*t),
            ReplicaEvent::Caught(t) => ReplicaEventView::Caught(*t),
            ReplicaEvent::CatchUpFailed(e) => ReplicaEventView::CatchUpFailed(e@),
            ReplicaEvent::Restored(t) => ReplicaEventView::Restored(*t),
        }
    }
}

impl View for ReplicaAction {
    type V = ReplicaActionView;

    open spec fn view(&self) -> ReplicaActionView {
        match self {
            ReplicaAction::ReadTxid => ReplicaActionView::ReadTxid,
            ReplicaAction::FullRestore => ReplicaActionView::FullRestore,
            ReplicaAction::CatchUp(t) => ReplicaActionView::CatchUp(*t),
            ReplicaAction::Done(r) => ReplicaActionView::Done(*r),
            ReplicaAction::Failed(e) => ReplicaActionView::Failed(e@),
            ReplicaAction::Unexpected => ReplicaActionView::Unexpected,
        }
    }
}

/// A local materialized read replica of one database's bucket.
#[derive(Debug, Clone)]
pub struct Replica {
    pub db_path: String,
    pub opts: ReplicaOptions,
}

/// The message for a replica file without a position.
pub open spec fn no_sidecar_text(db_path: Seq<char>) -> Seq<char> {
    "replica exists but has no -txid sidecar; delete "@ + db_path + " to re-restore"@
}

/// One step of a sync of the replica at `db_path`.
pub open spec fn replica_step(
    db_path: Seq<char>,
    auto_reset: bool,
    run: ReplicaSync,
    e: ReplicaEventView,
) -> (ReplicaSync, ReplicaActionView) {
    match (run.stage, e) {
        (ReplicaStage::Starting, ReplicaEventView::Start { exists }) => if exists {
            (
                ReplicaSync { stage: ReplicaStage::ReadingTxid, ..run },
                ReplicaActionView::ReadTxid,
            )
        } else {
            (
                ReplicaSync { stage: ReplicaStage::Restoring, from: Txid(0) },
                ReplicaActionView::FullRestore,
            )
        },
        (ReplicaStage::ReadingTxid, ReplicaEventView::TxidRead(from)) => if from.0 != 0 {
            (
                ReplicaSync { stage: ReplicaStage::Incremental, from },
                ReplicaActionView::CatchUp(from),
            )
        } else if auto_reset {
            (
                ReplicaSync { stage: ReplicaStage::Restoring, from: Txid(0) },
                ReplicaActionView::FullRestore,
            )
        } else {
            (
                ReplicaSync { stage: ReplicaStage::Ended, ..run },
                ReplicaActionView::Failed(ErrorView::Other(no_sidecar_text(db_path))),
            )
        },
        (ReplicaStage::Incremental, ReplicaEventView::Caught(to)) => (
            ReplicaSync { stage: ReplicaStage::Ended, ..run },
            ReplicaActionView::Done(
                SyncResult { restored: false, from_txid: run.from, to_txid: to },
            ),
        ),
        (ReplicaStage::Incremental, ReplicaEventView::CatchUpFailed(err)) => if err is Diverged
            && auto_reset {
            (
                ReplicaSync { stage: ReplicaStage::Restoring, ..run },
                ReplicaActionView::FullRestore,
            )
        } else {
            (ReplicaSync { stage: ReplicaStage::Ended, ..run }, ReplicaActionView::Failed(err))
        },
        (ReplicaStage::Restoring, ReplicaEventView::Restored(to)) => (
            ReplicaSync { stage: ReplicaStage::Ended, ..run },
            ReplicaActionView::Done(
                SyncResult { restored: true, from_txid: run.from, to_txid: to },
            ),
        ),
        _ => (run, ReplicaActionView::Unexpected),
    }
}

/// What an attempt to delete one of the replica's files comes to.
pub open spec fn removal(removed: core::result::Result<(), IoError>) -> Result<()> {
    match removed {
        Ok(()) => Ok(()),
        Err(e) => if e.kind == IoErrorKind::NotFound {
            Ok(())
        } else {
            Err(Error::Io(e))
        },
    }
}

/// A reset fails only on a file that is there and cannot be deleted, with the
/// system's error.
pub proof fn lemma_reset_spares_missing(removed: core::result::Result<(), IoError>)
    ensures
        removal(removed) is Err <==> (removed matches Err(e) && e.kind != IoErrorKind::NotFound),
        removal(removed) matches Err(x) ==> x == Error::Io(removed->Err_0),
{
}

impl Replica {
    pub fn open(db_path: String, opts: ReplicaOptions) -> (r: Replica)
        ensures
            r == (Replica { db_path, opts }),
    {
        Replica { db_path, opts }
    }

    /// The local database file. Open it read-only with plain SQLite; it is a
    /// rollback-journal-mode file (no -wal/-shm needed).
    pub fn db_path(&self) -> (r: &str)
        ensures
            r@ == self.db_path@,
    {
        self.db_path.as_str()
    }

    /// Last applied TXID from the sidecar's content; zero if never synced.
    pub fn position(&self, content: core::result::Result<String, IoError>, path: &str) -> (r: Result<Txid>)
        ensures
            outcome(r) == txid_file_parsed(content, path@),
    {
        read_txid_file(content, path)
    }

    /// What a failure to delete one of the replica's files comes to: a file
    /// that is not there is fine. The files are the replica itself and those
    /// that [`reset_suffixes`] names.
    pub fn reset(&self, removed: core::result::Result<(), IoError>) -> (r: Result<()>)
        ensures
            r == removal(removed),
    {
        match removed {
            Ok(()) => Ok(()),
            Err(e) => if e.kind == IoErrorKind::NotFound {
                Ok(())
            } else {
                Err(Error::Io(e))
            },
        }
    }

    /// Starts a sync. [`Replica::sync_with`] does the rest.
    pub fn sync(&self, run: &mut ReplicaSync, exists: bool) -> (a: ReplicaAction)
        ensures
            (*final(run), a@) == replica_step(
                self.db_path@,
                self.opts.auto_reset,
                *old(run),
                ReplicaEventView::Start { exists },
            ),
    {
        self.sync_with(run, ReplicaEvent::Start { exists })
    }

    /// Brings the local replica up to date: a full restore when the local
    /// file is missing, otherwise incremental application of new LTX files.
    /// One step.
    ///
    /// The healthy replica is never deleted up front: a full restore replaces
    /// it only once a complete new image exists.
    pub fn sync_with(&self, run: &mut ReplicaSync, event: ReplicaEvent) -> (a: ReplicaAction)
        ensures
            (*final(run), a@) == replica_step(
                self.db_path@,
                self.opts.auto_reset,
                *old(run),
                event@,
            ),
    {
        match (run.stage, event) {
            (ReplicaStage::Starting, ReplicaEvent::Start { exists }) => {
                if !exists {
                    run.stage = ReplicaStage::Restoring;
                    run.from = Txid(0);
                    return ReplicaAction::FullRestore;
                }
                run.stage = ReplicaStage::ReadingTxid;
                ReplicaAction::ReadTxid
            },
            (ReplicaStage::ReadingTxid, ReplicaEvent::TxidRead(from)) => {
                if from.is_zero() {
                    // Local file without a sidecar: unresumable.
                    if self.opts.auto_reset {
                        run.stage = ReplicaStage::Restoring;
                        run.from = Txid(0);
                        return ReplicaAction::FullRestore;
                    }
                    run.stage = ReplicaStage::Ended;
                    let mut m = String::from_str("replica exists but has no -txid sidecar; delete ");
                    m.append(self.db_path.as_str());
                    m.append(" to re-restore");
                    return ReplicaAction::Failed(Error::Other(m));
                }
                run.stage = ReplicaStage::Incremental;
                run.from = from;
                ReplicaAction::CatchUp(from)
            },
            (ReplicaStage::Incremental, ReplicaEvent::Caught(to)) => {
                run.stage = ReplicaStage::Ended;
                ReplicaAction::Done(
                    SyncResult { restored: false, from_txid: run.from, to_txid: to },
                )
            },
            (ReplicaStage::Incremental, ReplicaEvent::CatchUpFailed(e)) => match e {
                Error::Diverged { local, remote } => {
                    if self.opts.auto_reset {
                        run.stage = ReplicaStage::Restoring;
                        ReplicaAction::FullRestore
                    } else {
                        run.stage = ReplicaStage::Ended;
                        ReplicaAction::Failed(Error::Diverged { local, remote })
                    }
                },
                e => {
                    run.stage = ReplicaStage::Ended;
                    ReplicaAction::Failed(e)
                },
            },
            (ReplicaStage::Restoring, ReplicaEvent::Restored(to)) => {
                run.stage = ReplicaStage::Ended;
                ReplicaAction::Done(SyncResult { restored: true, from_txid: run.from, to_txid: to })
            },
            _ => ReplicaAction::Unexpected,
        }
    }
}

impl ReplicaSync {
    pub fn new() -> (r: ReplicaSync)
        ensures
            r == (ReplicaSync { stage: ReplicaStage::Starting, from: Txid(0) }),
    {
        ReplicaSync { stage: ReplicaStage::Starting, from: Txid(0) }
    }
}

/// A sync after several events, and what it asked for at each.
pub open spec fn replica_run(
    db_path: Seq<char>,
    auto_reset: bool,
    run: ReplicaSync,
    events: Seq<ReplicaEventView>,
) -> (ReplicaSync, Seq<ReplicaActionView>)
    decreases events.len(),
{
    if events.len() == 0 {
        (run, Seq::empty())
    } else {
        let (before, actions) = replica_run(db_path, auto_reset, run, events.drop_last());
        let (after, a) = replica_step(db_path, auto_reset, before, events.last());
        (after, actions.push(a))
    }
}

proof fn lemma_replica_one_more(
    db_path: Seq<char>,
    auto_reset: bool,
    run: ReplicaSync,
    events: Seq<ReplicaEventView>,
    e: ReplicaEventView,
)
    ensures
        replica_run(db_path, auto_reset, run, events.push(e)) == ({
            let (before, actions) = replica_run(db_path, auto_reset, run, events);
            let (after, a) = replica_step(db_path, auto_reset, before, e);
            (after, actions.push(a))
        }),
{
    assert(events.push(e).drop_last() =~= events);
}

/// The three ways a sync goes. Without a local file it restores, and reports
/// that from zero. With a file and a position in its sidecar it catches up from
/// that very position, and reports that; where the bucket diverged and
/// resetting is on, it restores and still reports the position as the start,
/// and every other failure is its own. With a file and no position it
/// restores from zero where resetting is on, and else names the file to
/// delete. Nothing more is asked for once it has ended.
pub proof fn lemma_sync_goes(
    db_path: Seq<char>,
    auto_reset: bool,
    from: Txid,
    to: Txid,
    err: ErrorView,
)
    requires
        from.0 > 0,
    ensures
        ({
            let asks = |events: Seq<ReplicaEventView>|
                replica_run(
                    db_path,
                    auto_reset,
                    ReplicaSync { stage: ReplicaStage::Starting, from: Txid(0) },
                    events,
                ).1;
            let absent = ReplicaEventView::Start { exists: false };
            let present = ReplicaEventView::Start { exists: true };
            let restored = ReplicaEventView::Restored(to);
            let found = ReplicaEventView::TxidRead(from);
            let lost = ReplicaEventView::TxidRead(Txid(0));
            let failed = ReplicaEventView::CatchUpFailed(err);
            &&& asks(seq![absent, restored]) == seq![
                ReplicaActionView::FullRestore,
                ReplicaActionView::Done(
                    SyncResult { restored: true, from_txid: Txid(0), to_txid: to },
                ),
            ]
            &&& asks(seq![present, found, ReplicaEventView::Caught(to)]) == seq![
                ReplicaActionView::ReadTxid,
                ReplicaActionView::CatchUp(from),
                ReplicaActionView::Done(
                    SyncResult { restored: false, from_txid: from, to_txid: to },
                ),
            ]
            &&& err is Diverged && auto_reset ==> asks(seq![present, found, failed, restored]) == seq![
                ReplicaActionView::ReadTxid,
                ReplicaActionView::CatchUp(from),
                ReplicaActionView::FullRestore,
                ReplicaActionView::Done(
                    SyncResult { restored: true, from_txid: from, to_txid: to },
                ),
            ]
            &&& !(err is Diverged && auto_reset) ==> asks(seq![present, found, failed, restored])
                == seq![
                ReplicaActionView::ReadTxid,
                ReplicaActionView::CatchUp(from),
                ReplicaActionView::Failed(err),
                ReplicaActionView::Unexpected,
            ]
            &&& auto_reset ==> asks(seq![present, lost, restored]) == seq![
                ReplicaActionView::ReadTxid,
                ReplicaActionView::FullRestore,
                ReplicaActionView::Done(
                    SyncResult { restored: true, from_txid: Txid(0), to_txid: to },
                ),
            ]
            &&& !auto_reset ==> asks(seq![present, lost, restored]) == seq![
                ReplicaActionView::ReadTxid,
                ReplicaActionView::Failed(
                    ErrorView::Other(
                        "replica exists but has no -txid sidecar; delete "@ + db_path
                            + " to re-restore"@,
                    ),
                ),
                ReplicaActionView::Unexpected,
            ]
        }),
{
    let start = ReplicaSync { stage: ReplicaStage::Starting, from: Txid(0) };
    let none = Seq::<ReplicaEventView>::empty();
    let absent = ReplicaEventView::Start { exists: false };
    let present = ReplicaEventView::Start { exists: true };
    let restored = ReplicaEventView::Restored(to);
    let found = ReplicaEventView::TxidRead(from);
    let lost = ReplicaEventView::TxidRead(Txid(0));
    let caught = ReplicaEventView::Caught(to);
    let failed = ReplicaEventView::CatchUpFailed(err);
    lemma_replica_one_more(db_path, auto_reset, start, none, absent);
    lemma_replica_one_more(db_path, auto_reset, start, none.push(absent), restored);
    lemma_replica_one_more(db_path, auto_reset, start, none, present);
    let open = none.push(present);
    lemma_replica_one_more(db_path, auto_reset, start, open, found);
    lemma_replica_one_more(db_path, auto_reset, start, open, lost);
    lemma_replica_one_more(db_path, auto_reset, start, open.push(found), caught);
    lemma_replica_one_more(db_path, auto_reset, start, open.push(found), failed);
    lemma_replica_one_more(db_path, auto_reset, start, open.push(found).push(failed), restored);
    lemma_replica_one_more(db_path, auto_reset, start, open.push(lost), restored);
    assert(seq![absent, restored] =~= none.push(absent).push(restored));
    assert(seq![present, found, caught] =~= open.push(found).push(caught));
    assert(seq![present, found, failed, restored] =~= open.push(found).push(failed).push(restored));
    assert(seq![present, lost, restored] =~= open.push(lost).push(restored));
}

/// How a sync ends whose restore goes through these events: the sync's last
/// action, and the position in the sidecar then.
pub open spec fn restored_sync(
    replica: Replica,
    run: ReplicaSync,
    sidecar: Txid,
    restore: Seq<RestoreEventView>,
) -> (ReplicaActionView, Txid) {
    let check = replica.opts.integrity_check;
    let after = sidecar_after_restore(check, sidecar, restore);
    match restore_asks(check, restore_start(), restore).last() {
        RestoreActionView::Done(to) => (
            replica_step(
                replica.db_path@,
                replica.opts.auto_reset,
                run,
                ReplicaEventView::Restored(to),
            ).1,
            after,
        ),
        RestoreActionView::Failed(e) => (ReplicaActionView::Failed(e), after),
        _ => (ReplicaActionView::Unexpected, after),
    }
}

/// How a sync ends that finds the local file, or not, and this position in the
/// sidecar (zero where there is none), and whose incremental round and restore,
/// where it comes to them, go through these events: the sync's last action, and
/// the position in the sidecar then.
pub open spec fn whole_sync(
    replica: Replica,
    present: bool,
    sidecar: Txid,
    round: Seq<SyncEventView>,
    restore: Seq<RestoreEventView>,
) -> (ReplicaActionView, Txid) {
    let path = replica.db_path@;
    let auto_reset = replica.opts.auto_reset;
    let start = ReplicaSync { stage: ReplicaStage::Starting, from: Txid(0) };
    let (run, a) = replica_step(path, auto_reset, start, ReplicaEventView::Start { exists: present });
    if a is FullRestore {
        restored_sync(replica, run, sidecar, restore)
    } else {
        let (run2, a2) = replica_step(path, auto_reset, run, ReplicaEventView::TxidRead(sidecar));
        match a2 {
            ReplicaActionView::FullRestore => restored_sync(replica, run2, sidecar, restore),
            ReplicaActionView::CatchUp(from) => {
                let after = sidecar_after_sync(sidecar, sync_start(from), round);
                match sync_asks(sync_start(from), round) {
                    SyncActionView::Done(to) => (
                        replica_step(path, auto_reset, run2, ReplicaEventView::Caught(to)).1,
                        after,
                    ),
                    SyncActionView::Failed(e) => {
                        let (run3, a3) = replica_step(
                            path,
                            auto_reset,
                            run2,
                            ReplicaEventView::CatchUpFailed(e),
                        );
                        if a3 is FullRestore {
                            restored_sync(replica, run3, after, restore)
                        } else {
                            (a3, after)
                        }
                    },
                    _ => (ReplicaActionView::Unexpected, after),
                }
            },
            _ => (a2, sidecar),
        }
    }
}

/// Whether a round ended with the finding that the bucket diverged.
pub open spec fn found_divergence(from: Txid, round: Seq<SyncEventView>) -> bool {
    sync_asks(sync_start(from), round) matches SyncActionView::Failed(e) && e is Diverged
}

/// What a sync reports is what the sidecar then holds. A sync restores exactly
/// when the local file is missing or, where resetting is on, has no position
/// or has diverged from the bucket; one that does not restore starts at the
/// sidecar's position and never ends before it. After a restore the replica
/// reads as a rollback-journal database, if it holds a header at all, and has
/// no stale side files. A file without a position is refused where resetting
/// is off, and a sync that fails leaves the sidecar as it was.
pub proof fn lemma_sync_reports_position(
    replica: Replica,
    present: bool,
    sidecar: Txid,
    round: Seq<SyncEventView>,
    restore: Seq<RestoreEventView>,
)
    requires
        sidecar.0 < u64::MAX,
        round.len() > 0,
        listings_ok(round),
        restore.len() > 0,
    ensures
        ({
            let (a, after) = whole_sync(replica, present, sidecar, round, restore);
            let auto_reset = replica.opts.auto_reset;
            &&& a matches ReplicaActionView::Done(s) ==> {
                &&& s.to_txid == after
                &&& s.restored <==> !present || (auto_reset && (sidecar.0 == 0 || found_divergence(
                    sidecar,
                    round,
                )))
                &&& !s.restored ==> s.from_txid == sidecar && s.to_txid.0 >= sidecar.0
                &&& s.restored ==> some_event(restore, |e: RestoreEventView| journal_settled(e))
                    && some_event(restore, |e: RestoreEventView| e is SideFilesRemoved)
            }
            &&& a is Failed ==> after == sidecar
            &&& present && sidecar.0 == 0 && !auto_reset ==> a == ReplicaActionView::Failed(
                ErrorView::Other(no_sidecar_text(replica.db_path@)),
            )
        }),
{
    lemma_round_reports_sidecar(sidecar, round);
    lemma_restore_reports_sidecar(replica.opts.integrity_check, sidecar, restore);
}

/// What the names of the files that make up a replica end in, behind the
/// database's path.
pub fn reset_suffixes() -> (r: [&'static str; 4])
    ensures
        r@[0]@ == ""@,
        r@[1]@ == "-txid"@,
        r@[2]@ == ".tmp"@,
        r@[3]@ == ".apply.tmp"@,
{
    ["", "-txid", ".tmp", ".apply.tmp"]
}

/// The page size that these two bytes of a SQLite header state.
pub open spec fn stated_page_size(b: Seq<u8>) -> nat {
    if be_value(b) == 1 {
        65536
    } else {
        be_value(b)
    }
}

/// Every page size reads back from the two bytes that state it: the size in
/// big endian or, where two bytes cannot hold it, a 1. Other bytes state what
/// they count.
pub proof fn lemma_page_size_stated(page_size: u32, b: Seq<u8>)
    requires
        page_size_ok(page_size),
        b.len() == 2,
    ensures
        page_size < 65536 ==> stated_page_size(be_bytes(page_size as nat, 2)) == page_size,
        page_size == 65536 ==> stated_page_size(seq![0u8, 1u8]) == page_size,
        stated_page_size(b) == if b == seq![0u8, 1u8] {
            65536int
        } else {
            b[0] * 256 + b[1]
        },
{
    lemma_pow256_values();
    lemma_page_sizes(page_size);
    if page_size < 65536 {
        lemma_be_value_of_bytes(page_size as nat, 2);
    }
    reveal_with_fuel(be_value, 3);
    assert(be_value(seq![0u8, 1u8]) == 1) by {
        assert(seq![0u8, 1u8].drop_last().last() == 0u8);
    }
    assert(b.drop_last().last() == b[0]);
    assert(be_value(b) == b[0] * 256 + b[1]);
    if be_value(b) == 1 {
        assert(b =~= seq![0u8, 1u8]);
    }
}

/// The page size in a SQLite header: bytes 16 and 17, where 1 stands for 64K.
pub fn read_page_size(b: [u8; 2]) -> (ps: u32)
    ensures
        ps == stated_page_size(b@),
{
    proof {
        lemma_pow256_values();
        assert(b@.subrange(0, 2) =~= b@);
    }
    let ps: u32 = read_be(&b, 0, 2) as u32;
    if ps == 1 {
        65536
    } else {
        ps
    }
}

/// What the sidecar holds for a position: 16 hex digits and a newline.
pub open spec fn txid_file_text(txid: Txid) -> Seq<char> {
    txid.text().push('\n')
}

/// The error of a sidecar that holds no position; both texts are quoted.
pub open spec fn bad_sidecar_view(path: Seq<char>, content: Seq<char>) -> ErrorView {
    ErrorView::Other("parse txid file "@ + path + ": "@ + content)
}

/// The error of a sidecar that holds no position, from its quoted path and
/// content.
pub fn bad_sidecar(path: &str, content: &str) -> (e: Error)
    ensures
        e@ == bad_sidecar_view(path@, content@),
{
    let mut m = String::from_str("parse txid file ");
    m.append(path);
    m.append(": ");
    m.append(content);
    Error::Other(m)
}

/// What a sidecar says, from the outcome of reading it.
pub open spec fn txid_file_parsed(
    content: core::result::Result<String, IoError>,
    path: Seq<char>,
) -> core::result::Result<Txid, ErrorView> {
    match content {
        Ok(s) => match Txid::parsed(trimmed(s@)) {
            Some(t) => Ok(t),
            None => Err(bad_sidecar_view(quoted_path_text(path), quoted_text(s@))),
        },
        Err(e) => if e.kind == IoErrorKind::NotFound {
            Ok(Txid(0))
        } else {
            Err(ErrorView::Io(e@))
        },
    }
}

/// The position in a `-txid` sidecar; zero when there is none.
pub fn read_txid_file(content: core::result::Result<String, IoError>, path: &str) -> (r: Result<Txid>)
    ensures
        outcome(r) == txid_file_parsed(content, path@),
{
    match content {
        Ok(s) => match Txid::parse(trim(s.as_str())) {
            Some(t) => Ok(t),
            None => Err(bad_sidecar(quoted_path(path).as_str(), quoted(s.as_str()).as_str())),
        },
        Err(e) => if e.kind == IoErrorKind::NotFound {
            Ok(Txid(0))
        } else {
            Err(Error::Io(e))
        },
    }
}

/// What to write to the `-txid` sidecar, atomically.
pub fn write_txid_file(txid: Txid) -> (s: String)
    ensures
        s@ == txid_file_text(txid),
{
    let mut s = txid.to_string();
    s.push('\n');
    s
}

/// Reading a sidecar gives back the position that was written to it.
pub proof fn lemma_txid_file_roundtrip(txid: Txid, s: String, path: Seq<char>)
    requires
        s@ == txid_file_text(txid),
    ensures
        txid_file_parsed(Ok(s), path) == Ok::<Txid, ErrorView>(txid),
{
    let t = txid.text();
    lemma_hex_text_len(txid.0 as nat, 16);
    assert(is_lower_hex_digit(t[0]));
    assert(is_lower_hex_digit(t[15]));
    assert(s@[0] == t[0]);
    assert(trim_start(s@) == s@);
    assert(s@.drop_last() =~= t);
    assert(trim_end(t) == t);
    assert(trim_end(s@) == t);
    crate::ltx::types::lemma_txid_roundtrip(txid, Seq::empty());
}

/// What a sidecar holds: 16 lowercase digits that write the position, and a
/// newline. Read back, white space around the digits and their case do not
/// matter; a sidecar that is not there stands for zero; any other failure to
/// read it is passed on; and anything else in it is refused.
pub proof fn lemma_sidecar_form(
    txid: Txid,
    content: core::result::Result<String, IoError>,
    path: Seq<char>,
)
    ensures
        ({
            let text = txid_file_text(txid);
            &&& text.len() == 17
            &&& text[16] == '\n'
            &&& all_lower_hex(text.take(16))
            &&& hex_value(text.take(16)) == txid.0
        }),
        content matches Ok(s) ==> {
            let inner = trimmed(s@);
            if inner.len() == 16 && all_hex(inner) {
                txid_file_parsed(content, path) matches Ok(t) && t.0 == hex_value(inner)
            } else {
                txid_file_parsed(content, path) matches Err(e) && e is Other
            }
        },
        content matches Err(e) ==> txid_file_parsed(content, path) == if e.kind
            == IoErrorKind::NotFound {
            Ok::<Txid, ErrorView>(Txid(0))
        } else {
            Err::<Txid, ErrorView>(ErrorView::Io(e@))
        },
{
    lemma_hex_text_len(txid.0 as nat, 16);
    lemma_pow16_values();
    lemma_hex_value_of_text(txid.0 as nat, 16);
    assert(txid_file_text(txid).take(16) =~= txid.text());
    if let Ok(s) = content {
        lemma_texts_by_form(trimmed(s@));
    }
}

} // verus!
