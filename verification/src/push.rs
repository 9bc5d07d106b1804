//! One push: WAL→L0 conversion, checkpoint, lineage check, upload.

use vstd::prelude::*;
use vstd::string::*;

use crate::error::Error;
#[allow(unused_imports)]
use crate::error::ErrorView;
use crate::ltx::{Pos, Txid};
#[allow(unused_imports)]
use crate::upload::{
    lemma_upload_leaves, upload_asks, upload_reaches, upload_start, upload_step, UploadActionView,
    UploadEventView,
};
#[allow(unused_imports)]
use crate::verify::{
    header_salts, segment_ok, verify_tree, ReadingsView, StepView, SyncInfo, SyncInfoView, SyncState,
};
use crate::wal::calc_wal_size;
#[allow(unused_imports)]
use crate::wal::{lemma_wal_size_fits, wal_size, WAL_FRAME_HEADER_SIZE, WAL_HEADER_SIZE};
#[allow(unused_imports)]
use crate::writer::{new_wal_bytes, nothing_synced, WalScan};
#[allow(unused_imports)]
use crate::writer::WriterOptions;
use crate::writer::{CheckpointMode, PushResult, SyncOutcome, Writer};

verus! {

/// The checkpoint that is due, in priority order: an emergency TRUNCATE to
/// bound WAL growth, judged by the WAL's size before the push; a PASSIVE one
/// at the minimum threshold, judged by its size after.
pub open spec fn checkpoint_due(w: Writer, orig_wal_size: u64, new_wal_size: u64) -> Option<
    CheckpointMode,
> {
    if w.page_size == 0 {
        None
    } else if w.opts.truncate_page_n > 0 && orig_wal_size >= wal_size(
        w.page_size as int,
        w.opts.truncate_page_n as int,
    ) {
        Some(CheckpointMode::Truncate)
    } else if new_wal_size >= wal_size(w.page_size as int, w.opts.min_checkpoint_page_n as int) {
        Some(CheckpointMode::Passive)
    } else {
        None
    }
}

impl Writer {
    /// The WAL sizes at which a checkpoint is due fit in 64 bits.
    pub open spec fn thresholds_fit(self) -> bool {
        &&& wal_size(self.page_size as int, self.opts.truncate_page_n as int) <= u64::MAX
        &&& wal_size(self.page_size as int, self.opts.min_checkpoint_page_n as int) <= u64::MAX
    }

    /// The threshold-based checkpoint that is due, if any.
    pub fn checkpoint_if_needed(&self, orig_wal_size: u64, new_wal_size: u64) -> (r: Option<
        CheckpointMode,
    >)
        requires
            self.thresholds_fit(),
        ensures
            r == checkpoint_due(*self, orig_wal_size, new_wal_size),
    {
        if self.page_size == 0 {
            return None;
        }
        if self.opts.truncate_page_n > 0 && orig_wal_size >= calc_wal_size(
            self.page_size,
            self.opts.truncate_page_n,
        ) {
            return Some(CheckpointMode::Truncate);
        }
        if new_wal_size >= calc_wal_size(self.page_size, self.opts.min_checkpoint_page_n) {
            return Some(CheckpointMode::Passive);
        }
        None
    }
}

/// Whatever the thresholds, their WAL sizes fit for every page size that SQLite
/// has.
pub proof fn lemma_thresholds_fit(w: Writer)
    requires
        w.page_size <= 65536,
    ensures
        w.thresholds_fit(),
{
    lemma_wal_size_fits(w.page_size, w.opts.truncate_page_n);
    lemma_wal_size_fits(w.page_size, w.opts.min_checkpoint_page_n);
}

/// Where a push stands.
#[derive(Debug, Clone, Copy, PartialEq, Eq, Structural)]
pub enum PushStage {
    Starting,
    CheckingCancel,
    EnsuringWal,
    MeasuringWal,
    Syncing,
    Persisting,
    CheckingCancelAgain,
    Checkpointing(CheckpointMode),
    CheckingLineage,
    Uploading,
    Pruning,
    ReadingPos,
    Ended,
}

/// One run of a push.
#[derive(Debug, Clone, Copy)]
pub struct Push {
    pub stage: PushStage,
    /// Logical WAL size before the push.
    pub orig_wal_size: u64,
    /// Logical WAL size after the sync.
    pub new_wal_size: u64,
    pub synced: bool,
    pub snapshotted: bool,
    pub snapshot_reason: Option<&'static str>,
    pub checkpointed: bool,
    pub uploaded: u64,
    pub bytes_uploaded: u64,
    pub remote_txid: Txid,
}

/// What the last action came to.
#[derive(Debug)]
pub enum PushEvent {
    Start,
    /// Whether the push was cancelled.
    CancelChecked(bool),
    WalEnsured,
    /// The size of the WAL file.
    WalSize(u64),
    Synced(SyncOutcome),
    /// The WAL offset was persisted, or the attempt failed: the two make no
    /// difference.
    Persisted,
    /// The checkpoint ran. `synced` is the outcome of the sync right before
    /// it, which takes up what was committed in the meantime.
    Checkpointed { synced: Option<SyncOutcome> },
    /// The checkpoint failed, behind the sync right before it; `busy` when
    /// another connection was in the way.
    CheckpointFailed { error: Error, busy: bool, synced: Option<SyncOutcome> },
    /// The lineage check came to its end.
    LineageChecked,
    Uploaded { uploaded: u64, bytes_uploaded: u64, remote_txid: Txid },
    Pruned,
    /// The position of the newest local L0 file.
    Pos(Pos),
}

/// What to do next.
#[derive(Debug)]
pub enum PushAction {
    CheckCancel,
    /// Force a write if the WAL is missing or has no header.
    EnsureWal,
    /// Measure the WAL file.
    MeasureWal,
    /// Run the WAL→L0 conversion.
    Sync,
    /// Persist the WAL offset (advisory).
    Persist(u64),
    /// Sync what was committed since, persist the WAL offset (advisory), and
    /// run the checkpoint.
    Checkpoint(CheckpointMode),
    /// Run the lineage check.
    CheckLineage,
    /// Upload what the bucket is missing.
    Upload,
    /// Delete local L0 files that the bucket holds, but for the newest.
    Prune(Txid),
    /// Read the local position.
    ReadPos,
    Done(PushResult),
    Failed(Error),
    /// The event does not answer the last action; nothing changed.
    Unexpected,
}

/// The mathematical counterpart of [`PushEvent`].
#[verifier::ext_equal]
pub enum PushEventView {
    Start,
    CancelChecked(bool),
    WalEnsured,
    WalSize(u64),
    Synced(SyncOutcome),
    Persisted,
    Checkpointed { synced: Option<SyncOutcome> },
    CheckpointFailed { error: ErrorView, busy: bool, synced: Option<SyncOutcome> },
    LineageChecked,
    Uploaded { uploaded: u64, bytes_uploaded: u64, remote_txid: Txid },
    Pruned,
    Pos(Pos),
}

/// The mathematical counterpart of [`PushAction`].
#[verifier::ext_equal]
pub enum PushActionView {
    CheckCancel,
    EnsureWal,
    MeasureWal,
    Sync,
    Persist(u64),
    Checkpoint(CheckpointMode),
    CheckLineage,
    Upload,
    Prune(Txid),
    ReadPos,
    Done(PushResult),
    Failed(ErrorView),
    Unexpected,
}

impl View for PushEvent {
    type V = PushEventView;

    open spec fn view(&self) -> PushEventView {
        match self {
            PushEvent::Start => PushEventView::Start,
            PushEvent::CancelChecked(b) => PushEventView::CancelChecked(*b),
            PushEvent::WalEnsured => PushEventView::WalEnsured,
            PushEvent::WalSize(n) => PushEventView::WalSize(*n),
            PushEvent::Synced(o) => PushEventView::Synced(*o),
            PushEvent::Persisted => PushEventView::Persisted,
            PushEvent::Checkpointed { synced } => PushEventView::Checkpointed { synced: *synced },
            PushEvent::CheckpointFailed { error, busy, synced } => PushEventView::CheckpointFailed {
                error: error@,
                busy: *busy,
                synced: *synced,
            },
            PushEvent::LineageChecked => PushEventView::LineageChecked,
            PushEvent::Uploaded { uploaded, bytes_uploaded, remote_txid } => PushEventView::Uploaded {
                uploaded: *uploaded,
                bytes_uploaded: *bytes_uploaded,
                remote_txid: *remote_txid,
            },
            PushEvent::Pruned => PushEventView::Pruned,
            PushEvent::Pos(p) => PushEventView::Pos(*p),
        }
    }
}

impl View for PushAction {
    type V = PushActionView;

    open spec fn view(&self) -> PushActionView {
        match self {
            PushAction::CheckCancel => PushActionView::CheckCancel,
            PushAction::EnsureWal => PushActionView::EnsureWal,
            PushAction::MeasureWal => PushActionView::MeasureWal,
            PushAction::Sync => PushActionView::Sync,
            PushAction::Persist(n) => PushActionView::Persist(*n),
            PushAction::Checkpoint(m) => PushActionView::Checkpoint(*m),
            PushAction::CheckLineage => PushActionView::CheckLineage,
            PushAction::Upload => PushActionView::Upload,
            PushAction::Prune(t) => PushActionView::Prune(*t),
            PushAction::ReadPos => PushActionView::ReadPos,
            PushAction::Done(r) => PushActionView::Done(*r),
            PushAction::Failed(e) => PushActionView::Failed(e@),
            PushAction::Unexpected => PushActionView::Unexpected,
        }
    }
}

/// The push goes on to the bucket. Nothing is uploaded in a session whose
/// lineage has not been checked.
pub open spec fn push_to_bucket(w: Writer, p: Push) -> (Writer, Push, PushActionView) {
    if w.lineage_checked {
        (w, Push { stage: PushStage::Uploading, ..p }, PushActionView::Upload)
    } else {
        (w, Push { stage: PushStage::CheckingLineage, ..p }, PushActionView::CheckLineage)
    }
}

/// The result of a push that ends at `txid`.
pub open spec fn push_result(p: Push, txid: Txid) -> PushResult {
    PushResult {
        txid,
        synced: p.synced,
        uploaded: p.uploaded,
        remote_txid: p.remote_txid,
        checkpointed: p.checkpointed,
        snapshotted: p.snapshotted,
        snapshot_reason: p.snapshot_reason,
        bytes_uploaded: p.bytes_uploaded,
    }
}

/// Ends the push.
pub open spec fn push_fails(w: Writer, p: Push, e: ErrorView) -> (Writer, Push, PushActionView) {
    (w, Push { stage: PushStage::Ended, ..p }, PushActionView::Failed(e))
}

/// The writer after the outcome `o` of a sync.
pub open spec fn after_sync(w: Writer, o: SyncOutcome) -> Writer {
    Writer {
        state: SyncState {
            last_synced_wal_offset: o.new_wal_size,
            synced_to_wal_end: o.synced_to_wal_end,
            synced_since_checkpoint: w.state.synced_since_checkpoint || o.synced,
        },
        cached_pos: if o.pos is Some {
            o.pos
        } else {
            w.cached_pos
        },
        ..w
    }
}

/// The writer after the sync before a checkpoint, if there was one.
pub open spec fn after_late_sync(w: Writer, o: Option<SyncOutcome>) -> Writer {
    match o {
        Some(o) => after_sync(w, o),
        None => w,
    }
}

/// The writer after a checkpoint: nothing has been synced since.
pub open spec fn after_checkpoint(w: Writer, o: Option<SyncOutcome>) -> Writer {
    let w2 = after_late_sync(w, o);
    Writer { state: SyncState { synced_since_checkpoint: false, ..w2.state }, ..w2 }
}

/// What a push reports of the sync before its checkpoint: an L0 file, or a
/// snapshot, counts whichever of the push's syncs wrote it.
pub open spec fn with_late_sync(p: Push, o: Option<SyncOutcome>) -> Push {
    match o {
        Some(o) => Push {
            synced: p.synced || o.synced,
            snapshotted: p.snapshotted || o.snapshotted,
            snapshot_reason: if p.snapshot_reason is Some {
                p.snapshot_reason
            } else {
                o.snapshot_reason
            },
            ..p
        },
        None => p,
    }
}

/// A push at its start.
pub open spec fn push_start() -> Push {
    Push {
        stage: PushStage::Starting,
        orig_wal_size: 0,
        new_wal_size: 0,
        synced: false,
        snapshotted: false,
        snapshot_reason: None,
        checkpointed: false,
        uploaded: 0,
        bytes_uploaded: 0,
        remote_txid: Txid(0),
    }
}

/// One step of a push.
pub open spec fn push_step(w: Writer, p: Push, e: PushEventView) -> (Writer, Push, PushActionView) {
    match (p.stage, e) {
        (PushStage::Starting, PushEventView::Start) => (
            w,
            Push { stage: PushStage::CheckingCancel, ..p },
            PushActionView::CheckCancel,
        ),
        (PushStage::CheckingCancel, PushEventView::CancelChecked(cancelled)) => if cancelled {
            push_fails(w, p, ErrorView::Cancelled)
        } else {
            (w, Push { stage: PushStage::EnsuringWal, ..p }, PushActionView::EnsureWal)
        },
        (PushStage::EnsuringWal, PushEventView::WalEnsured) => if w.state.last_synced_wal_offset > 0 {
            (
                w,
                Push {
                    stage: PushStage::Syncing,
                    orig_wal_size: w.state.last_synced_wal_offset,
                    ..p
                },
                PushActionView::Sync,
            )
        } else {
            (w, Push { stage: PushStage::MeasuringWal, ..p }, PushActionView::MeasureWal)
        },
        (PushStage::MeasuringWal, PushEventView::WalSize(n)) => (
            w,
            Push { stage: PushStage::Syncing, orig_wal_size: n, ..p },
            PushActionView::Sync,
        ),
        (PushStage::Syncing, PushEventView::Synced(o)) => (
            after_sync(w, o),
            Push {
                stage: PushStage::Persisting,
                new_wal_size: o.new_wal_size,
                synced: o.synced,
                snapshotted: o.snapshotted,
                snapshot_reason: o.snapshot_reason,
                ..p
            },
            PushActionView::Persist(o.new_wal_size),
        ),
        (PushStage::Persisting, PushEventView::Persisted) => (
            w,
            Push { stage: PushStage::CheckingCancelAgain, ..p },
            PushActionView::CheckCancel,
        ),
        (PushStage::CheckingCancelAgain, PushEventView::CancelChecked(cancelled)) => if cancelled {
            push_fails(w, p, ErrorView::Cancelled)
        } else if w.opts.auto_checkpoint {
            match checkpoint_due(w, p.orig_wal_size, p.new_wal_size) {
                Some(mode) => (
                    w,
                    Push { stage: PushStage::Checkpointing(mode), ..p },
                    PushActionView::Checkpoint(mode),
                ),
                None => push_to_bucket(w, p),
            }
        } else {
            push_to_bucket(w, p)
        },
        (PushStage::Checkpointing(_), PushEventView::Checkpointed { synced }) => push_to_bucket(
            after_checkpoint(w, synced),
            Push { checkpointed: true, ..with_late_sync(p, synced) },
        ),
        (
            PushStage::Checkpointing(mode),
            PushEventView::CheckpointFailed { error, busy, synced },
        ) => if busy && mode == CheckpointMode::Passive {
            // Expected under contention.
            push_to_bucket(after_late_sync(w, synced), with_late_sync(p, synced))
        } else {
            push_fails(after_late_sync(w, synced), with_late_sync(p, synced), error)
        },
        (PushStage::CheckingLineage, PushEventView::LineageChecked) => push_to_bucket(w, p),
        (PushStage::Uploading, PushEventView::Uploaded { uploaded, bytes_uploaded, remote_txid }) => (
            w,
            Push { stage: PushStage::Pruning, uploaded, bytes_uploaded, remote_txid, ..p },
            PushActionView::Prune(remote_txid),
        ),
        (PushStage::Pruning, PushEventView::Pruned) => match w.cached_pos {
            Some(pos) => (
                w,
                Push { stage: PushStage::Ended, ..p },
                PushActionView::Done(push_result(p, pos.txid)),
            ),
            None => (w, Push { stage: PushStage::ReadingPos, ..p }, PushActionView::ReadPos),
        },
        (PushStage::ReadingPos, PushEventView::Pos(pos)) => (
            Writer { cached_pos: Some(pos), ..w },
            Push { stage: PushStage::Ended, ..p },
            PushActionView::Done(push_result(p, pos.txid)),
        ),
        _ => (w, p, PushActionView::Unexpected),
    }
}

impl Push {
    pub fn new() -> (p: Push)
        ensures
            p == push_start(),
    {
        Push {
            stage: PushStage::Starting,
            orig_wal_size: 0,
            new_wal_size: 0,
            synced: false,
            snapshotted: false,
            snapshot_reason: None,
            checkpointed: false,
            uploaded: 0,
            bytes_uploaded: 0,
            remote_txid: Txid(0),
        }
    }

    fn result(&self, txid: Txid) -> (r: PushResult)
        ensures
            r == push_result(*self, txid),
    {
        PushResult {
            txid,
            synced: self.synced,
            uploaded: self.uploaded,
            remote_txid: self.remote_txid,
            checkpointed: self.checkpointed,
            snapshotted: self.snapshotted,
            snapshot_reason: self.snapshot_reason,
            bytes_uploaded: self.bytes_uploaded,
        }
    }
}

impl Writer {
    /// Starts a push: syncs committed WAL content into L0, maybe checkpoints,
    /// and uploads pending L0 files to the bucket. [`Writer::push_with`] does
    /// the rest.
    pub fn push(&mut self, run: &mut Push) -> (a: PushAction)
        requires
            old(self).thresholds_fit(),
        ensures
            (*final(self), *final(run), a@) == push_step(*old(self), *old(run), PushEventView::Start),
    {
        self.push_with(run, PushEvent::Start)
    }

    fn push_to_bucket(&self, run: &mut Push) -> (a: PushAction)
        ensures
            (*self, *final(run), a@) == push_to_bucket(*self, *old(run)),
    {
        // First bucket mutation of the session: the lineage check must pass
        // before anything is uploaded.
        if self.lineage_checked {
            run.stage = PushStage::Uploading;
            PushAction::Upload
        } else {
            run.stage = PushStage::CheckingLineage;
            PushAction::CheckLineage
        }
    }

    /// Takes up the sync before a checkpoint.
    fn take_late_sync(&mut self, run: &mut Push, synced: Option<SyncOutcome>)
        ensures
            *final(self) == after_late_sync(*old(self), synced),
            *final(run) == with_late_sync(*old(run), synced),
    {
        match synced {
            Some(outcome) => {
                self.apply_sync_outcome(&outcome);
                if outcome.synced {
                    self.state.synced_since_checkpoint = true;
                    run.synced = true;
                }
                if outcome.snapshotted {
                    run.snapshotted = true;
                }
                if run.snapshot_reason.is_none() {
                    run.snapshot_reason = outcome.snapshot_reason;
                }
            },
            None => {},
        }
    }

    /// A push, one step at a time, cancellable at every natural boundary. A
    /// cancelled push is indistinguishable from a kill-then-restart: completed
    /// L0 files persist, and the next push resumes exactly where this one
    /// stopped.
    ///
    /// The WAL→L0 conversion runs BEFORE the lineage check on purpose: with
    /// the bucket unreachable the check fails, but the conversion must still
    /// land committed WAL content in local L0 files so a later checkpoint
    /// cannot orphan it.
    pub fn push_with(&mut self, run: &mut Push, event: PushEvent) -> (a: PushAction)
        requires
            old(self).thresholds_fit(),
        ensures
            (*final(self), *final(run), a@) == push_step(*old(self), *old(run), event@),
    {
        match (run.stage, event) {
            (PushStage::Starting, PushEvent::Start) => {
                run.stage = PushStage::CheckingCancel;
                PushAction::CheckCancel
            },
            (PushStage::CheckingCancel, PushEvent::CancelChecked(cancelled)) => {
                if cancelled {
                    run.stage = PushStage::Ended;
                    return PushAction::Failed(Error::Cancelled);
                }
                run.stage = PushStage::EnsuringWal;
                PushAction::EnsureWal
            },
            (PushStage::EnsuringWal, PushEvent::WalEnsured) => {
                // Logical WAL size for checkpoint thresholds.
                if self.state.last_synced_wal_offset > 0 {
                    run.stage = PushStage::Syncing;
                    run.orig_wal_size = self.state.last_synced_wal_offset;
                    PushAction::Sync
                } else {
                    run.stage = PushStage::MeasuringWal;
                    PushAction::MeasureWal
                }
            },
            (PushStage::MeasuringWal, PushEvent::WalSize(n)) => {
                run.stage = PushStage::Syncing;
                run.orig_wal_size = n;
                PushAction::Sync
            },
            (PushStage::Syncing, PushEvent::Synced(outcome)) => {
                run.stage = PushStage::Persisting;
                run.new_wal_size = outcome.new_wal_size;
                run.synced = outcome.synced;
                run.snapshotted = outcome.snapshotted;
                run.snapshot_reason = outcome.snapshot_reason;
                let persist: u64 = self.apply_sync_outcome(&outcome);
                if outcome.synced {
                    self.state.synced_since_checkpoint = true;
                }
                PushAction::Persist(persist)
            },
            (PushStage::Persisting, PushEvent::Persisted) => {
                run.stage = PushStage::CheckingCancelAgain;
                PushAction::CheckCancel
            },
            (PushStage::CheckingCancelAgain, PushEvent::CancelChecked(cancelled)) => {
                if cancelled {
                    run.stage = PushStage::Ended;
                    return PushAction::Failed(Error::Cancelled);
                }
                if self.opts.auto_checkpoint {
                    match self.checkpoint_if_needed(run.orig_wal_size, run.new_wal_size) {
                        Some(mode) => {
                            run.stage = PushStage::Checkpointing(mode);
                            return PushAction::Checkpoint(mode);
                        },
                        None => {},
                    }
                }
                self.push_to_bucket(run)
            },
            (PushStage::Checkpointing(_), PushEvent::Checkpointed { synced }) => {
                self.take_late_sync(run, synced);
                self.state.synced_since_checkpoint = false;
                run.checkpointed = true;
                self.push_to_bucket(run)
            },
            (
                PushStage::Checkpointing(mode),
                PushEvent::CheckpointFailed { error, busy, synced },
            ) => {
                self.take_late_sync(run, synced);
                // SQLITE_BUSY is expected under contention for a PASSIVE
                // checkpoint, and swallowed.
                if busy && mode == CheckpointMode::Passive {
                    self.push_to_bucket(run)
                } else {
                    run.stage = PushStage::Ended;
                    PushAction::Failed(error)
                }
            },
            (PushStage::CheckingLineage, PushEvent::LineageChecked) => self.push_to_bucket(run),
            (
                PushStage::Uploading,
                PushEvent::Uploaded { uploaded, bytes_uploaded, remote_txid },
            ) => {
                run.stage = PushStage::Pruning;
                run.uploaded = uploaded;
                run.bytes_uploaded = bytes_uploaded;
                run.remote_txid = remote_txid;
                // Uploaded L0s are prunable; the newest is always kept.
                PushAction::Prune(remote_txid)
            },
            (PushStage::Pruning, PushEvent::Pruned) => match self.cached_pos {
                Some(pos) => {
                    run.stage = PushStage::Ended;
                    PushAction::Done(run.result(pos.txid))
                },
                None => {
                    run.stage = PushStage::ReadingPos;
                    PushAction::ReadPos
                },
            },
            (PushStage::ReadingPos, PushEvent::Pos(pos)) => {
                self.cached_pos = Some(pos);
                run.stage = PushStage::Ended;
                PushAction::Done(run.result(pos.txid))
            },
            _ => PushAction::Unexpected,
        }
    }
}

/// The states that a push can reach from its start.
pub open spec fn push_reaches(w: Writer, p: Push, events: Seq<PushEventView>) -> (Writer, Push)
    decreases events.len(),
{
    if events.len() == 0 {
        (w, p)
    } else {
        let (w1, p1) = push_reaches(w, p, events.drop_last());
        let (w2, p2, _) = push_step(w1, p1, events.last());
        (w2, p2)
    }
}

/// Nothing is uploaded before the session's lineage check has passed: however
/// a push goes, an upload is asked for only of a writer whose lineage is
/// checked.
pub proof fn lemma_upload_after_lineage(w: Writer, p: Push, e: PushEventView)
    ensures
        push_step(w, p, e).2 is Upload ==> w.lineage_checked,
{
}

/// The WAL's content is in a local L0 file before the bucket is touched: a
/// push that reaches the lineage check or an upload has been through its
/// sync, whose outcome the writer's state holds.
pub proof fn lemma_sync_before_bucket(w: Writer, p: Push, events: Seq<PushEventView>)
    requires
        p.stage == PushStage::Starting,
    ensures
        ({
            let (w2, p2) = push_reaches(w, p, events);
            p2.stage == PushStage::CheckingLineage || p2.stage == PushStage::Uploading || p2.stage
                == PushStage::Pruning ==> exists|i: int|
                0 <= i < events.len() && #[trigger] events[i] is Synced
        }),
    decreases events.len(),
{
    lemma_early_stages(w, p, events);
}

/// Before the sync's outcome has come in, a push is in one of its first
/// stages.
proof fn lemma_early_stages(w: Writer, p: Push, events: Seq<PushEventView>)
    requires
        p.stage == PushStage::Starting,
    ensures
        ({
            let p2 = push_reaches(w, p, events).1;
            ||| p2.stage == PushStage::Starting
            ||| p2.stage == PushStage::CheckingCancel
            ||| p2.stage == PushStage::EnsuringWal
            ||| p2.stage == PushStage::MeasuringWal
            ||| p2.stage == PushStage::Syncing
            ||| p2.stage == PushStage::Ended
            ||| exists|i: int| 0 <= i < events.len() && #[trigger] events[i] is Synced
        }),
    decreases events.len(),
{
    if events.len() > 0 {
        let before = events.drop_last();
        lemma_early_stages(w, p, before);
        if exists|i: int| 0 <= i < before.len() && #[trigger] before[i] is Synced {
            let i = choose|i: int| 0 <= i < before.len() && #[trigger] before[i] is Synced;
            assert(events[i] is Synced);
        } else {
            assert(events.last() == events[events.len() - 1]);
        }
    }
}

/// Whether the snapshot flag and its reason agree.
pub open spec fn reason_fits(snapshotted: bool, reason: Option<&'static str>) -> bool {
    snapshotted == (reason is Some)
}

/// A push that reports a snapshot reports a reason, and one without has none,
/// given that of its syncs: the flag and the reason come from their outcomes
/// and reach the result unchanged.
pub proof fn lemma_reason_reported(w: Writer, p: Push, e: PushEventView)
    requires
        reason_fits(p.snapshotted, p.snapshot_reason),
        e matches PushEventView::Synced(o) ==> reason_fits(o.snapshotted, o.snapshot_reason),
        e matches PushEventView::Checkpointed { synced: Some(o) } ==> reason_fits(
            o.snapshotted,
            o.snapshot_reason,
        ),
        e matches PushEventView::CheckpointFailed { synced: Some(o), .. } ==> reason_fits(
            o.snapshotted,
            o.snapshot_reason,
        ),
    ensures
        ({
            let (w2, p2, a) = push_step(w, p, e);
            &&& reason_fits(p2.snapshotted, p2.snapshot_reason)
            &&& a matches PushActionView::Done(r) ==> reason_fits(r.snapshotted, r.snapshot_reason)
                && r.snapshot_reason == p.snapshot_reason
        }),
{
}

/// A push that sees a cancellation ends with it and leaves the writer as it
/// is: what was synced before stays known, and nothing else was begun.
pub proof fn lemma_push_cancelled(w: Writer, p: Push)
    requires
        p.stage == PushStage::CheckingCancel || p.stage == PushStage::CheckingCancelAgain,
    ensures
        push_step(w, p, PushEventView::CancelChecked(true)) == (
            w,
            Push { stage: PushStage::Ended, ..p },
            PushActionView::Failed(ErrorView::Cancelled),
        ),
{
}

/// After a checkpoint nothing counts as synced since, whatever was synced
/// right before it; and what that sync took up is known to the writer whether
/// the checkpoint ran or not.
pub proof fn lemma_checkpoint_settles(w: Writer, p: Push, mode: CheckpointMode, e: PushEventView)
    requires
        p.stage == PushStage::Checkpointing(mode),
    ensures
        ({
            let w2 = push_step(w, p, e).0;
            &&& e is Checkpointed ==> !w2.state.synced_since_checkpoint
            &&& e matches PushEventView::Checkpointed { synced: Some(o) } ==> {
                &&& w2.state.last_synced_wal_offset == o.new_wal_size
                &&& w2.state.synced_to_wal_end == o.synced_to_wal_end
                &&& o.pos is Some ==> w2.cached_pos == o.pos
            }
            &&& e matches PushEventView::CheckpointFailed { synced: Some(o), .. } ==> {
                &&& w2.state.last_synced_wal_offset == o.new_wal_size
                &&& w2.state.synced_to_wal_end == o.synced_to_wal_end
                &&& o.pos is Some ==> w2.cached_pos == o.pos
            }
        }),
{
}

/// The end of a push whose upload came to this: the writer, and the push's
/// last action.
pub open spec fn push_finish(w: Writer, p: Push, upload: UploadActionView) -> (
    Writer,
    PushActionView,
) {
    match upload {
        UploadActionView::Done { uploaded, bytes_uploaded, remote_txid } => {
            let (w1, p1, _) = push_step(
                w,
                p,
                PushEventView::Uploaded { uploaded, bytes_uploaded, remote_txid },
            );
            let (w2, _, a) = push_step(w1, p1, PushEventView::Pruned);
            (w2, a)
        },
        _ => (w, PushActionView::Unexpected),
    }
}

/// A push from start to end that nobody cancels, whose sync came to `o`: its
/// last action. The WAL file has this length, where the push asks for it.
pub open spec fn quiet_push(w: Writer, wal_len: u64, o: SyncOutcome) -> PushActionView {
    let (w1, p1, _) = push_step(w, push_start(), PushEventView::Start);
    let (w2, p2, _) = push_step(w1, p1, PushEventView::CancelChecked(false));
    let (w3, p3, a3) = push_step(w2, p2, PushEventView::WalEnsured);
    let (w4, p4, _) = if a3 is MeasureWal {
        push_step(w3, p3, PushEventView::WalSize(wal_len))
    } else {
        (w3, p3, a3)
    };
    let (w5, p5, _) = push_step(w4, p4, PushEventView::Synced(o));
    let (w6, p6, _) = push_step(w5, p5, PushEventView::Persisted);
    let (w7, p7, a7) = push_step(w6, p6, PushEventView::CancelChecked(false));
    if a7 is Upload {
        let (w8, _, upload) = upload_step(w7, upload_start(), UploadEventView::Start);
        push_finish(w8, p7, upload).1
    } else {
        a7
    }
}

/// Whether the WAL holds nothing behind the newest local L0 file: it is the
/// one that the file was made from, the file's last frame is in place, and no
/// commit follows it.
pub open spec fn wal_consumed(page_size: u32, seen: ReadingsView, scan: WalScan) -> bool {
    &&& seen.ltx_header matches Some(h) && {
        let end = h.wal_offset + h.wal_size;
        &&& segment_ok(h)
        &&& end == WAL_HEADER_SIZE || end >= WAL_HEADER_SIZE + WAL_FRAME_HEADER_SIZE + page_size
        &&& seen.wal_size matches Some(n) && n >= end
        &&& seen.wal_header matches Some(b) && header_salts(b) == (h.wal_salt1, h.wal_salt2)
        &&& seen.last_page != Some(false)
        &&& scan.max_offset == 0 || scan.max_offset == end
    }
}

/// Whether a sync that resumes where `decided` says, or at the top of the WAL
/// where that frame is gone, found nothing to do and kept what it knew of the
/// WAL's end. The next one then decides on the same grounds.
pub open spec fn found_nothing(decided: SyncInfoView, info: SyncInfo, scan: WalScan) -> bool {
    &&& !decided.snapshotting()
    &&& !decided.clear_synced_to_wal_end
    &&& info@ == decided || info@ == (SyncInfoView { offset: WAL_HEADER_SIZE as int, ..decided })
    &&& new_wal_bytes(scan, info.offset) == Some(0int)
}

/// A push with nothing new behind a push that uploaded is a no-op: it writes
/// no L0 file, takes no snapshot and gives no reason for one, sends nothing,
/// and reports the same local position and the same bucket position. The
/// first push is taken up at its upload. Nothing new means that the WAL holds
/// nothing behind the newest local L0 file, or that the first push's sync had
/// found nothing to do either; and the WAL is below the thresholds.
pub proof fn lemma_no_op_push(
    w: Writer,
    p: Push,
    upload: Seq<UploadEventView>,
    wal_len: u64,
    seen: ReadingsView,
    decided: SyncInfoView,
    info: SyncInfo,
    scan: WalScan,
)
    requires
        p.stage == PushStage::Uploading,
        w.lineage_checked,
        upload.len() > 0,
        upload_asks(w, upload_start(), upload) matches UploadActionView::Done { uploaded, .. }
            && uploaded > 0,
        info.wf(),
        ({
            let w1 = push_finish(
                upload_reaches(w, upload_start(), upload).0,
                p,
                upload_asks(w, upload_start(), upload),
            ).0;
            let size = if w1.state.last_synced_wal_offset > 0 {
                w1.state.last_synced_wal_offset
            } else {
                wal_len
            };
            &&& w1.cached_pos matches Some(pos) && verify_tree(
                w1.page_size as int,
                pos.txid,
                w1.state.synced_to_wal_end,
                seen,
            ) == StepView::Done(Ok::<SyncInfoView, ErrorView>(decided))
            &&& (wal_consumed(w1.page_size, seen, scan) && info@ == decided) || found_nothing(
                decided,
                info,
                scan,
            )
            &&& w1.opts.auto_checkpoint ==> checkpoint_due(w1, size, info.offset) is None
        }),
    ensures
        ({
            let (w1, done) = push_finish(
                upload_reaches(w, upload_start(), upload).0,
                p,
                upload_asks(w, upload_start(), upload),
            );
            &&& !info.snapshotting && new_wal_bytes(scan, info.offset) == Some(0int)
            &&& done matches PushActionView::Done(r1) && quiet_push(
                w1,
                wal_len,
                nothing_synced(w1.state, info),
            ) matches PushActionView::Done(r2) && {
                &&& !r2.synced
                &&& !r2.snapshotted
                &&& r2.snapshot_reason is None
                &&& !r2.checkpointed
                &&& r2.uploaded == 0
                &&& r2.bytes_uploaded == 0
                &&& r2.txid == r1.txid
                &&& r2.remote_txid == r1.remote_txid
            }
        }),
{
    lemma_upload_leaves(w, upload);
}

/// Where a reset stands.
#[derive(Debug, Clone, Copy, PartialEq, Eq, Structural)]
pub enum ResetStage {
    Starting,
    Saving,
    Clearing,
    Ended,
}

/// What to do next to reset a writer's local state.
#[derive(Debug, Clone, Copy, PartialEq, Eq, Structural)]
pub enum ResetAction {
    /// Persist this verified position; a failure ends the reset.
    Save(Txid),
    /// Delete the local L0 files; a failure ends the reset.
    ClearL0,
    Done,
}

/// The writer after one step of a reset.
pub open spec fn reset_step(w: Writer, stage: ResetStage) -> (Writer, ResetStage, ResetAction) {
    match stage {
        ResetStage::Starting => (
            Writer { verified_pos: Txid(0), ..w },
            ResetStage::Saving,
            ResetAction::Save(Txid(0)),
        ),
        ResetStage::Saving => (
            Writer { verified_pos_provisional: false, lineage_checked: false, ..w },
            ResetStage::Clearing,
            ResetAction::ClearL0,
        ),
        ResetStage::Clearing => (
            Writer {
                cached_pos: None,
                remote_txid: None,
                state: SyncState { synced_to_wal_end: false, ..w.state },
                ..w
            },
            ResetStage::Ended,
            ResetAction::Done,
        ),
        ResetStage::Ended => (w, ResetStage::Ended, ResetAction::Done),
    }
}

impl Writer {
    /// Recovery for a local L0 file that is missing or corrupt: wipes local L0
    /// state, the cached position, and the verified position, so the next push
    /// re-derives everything from the bucket. One step; each is taken after
    /// the last one's action succeeded.
    ///
    /// The verified position is zeroed BEFORE the L0 files go: if that fails
    /// midway, a stale high verified position over a gapped local L0 chain
    /// would skip the rebaseline and strand low-TXID L0s below the bucket's
    /// cursor forever.
    pub fn reset_local(&mut self, stage: &mut ResetStage) -> (a: ResetAction)
        ensures
            (*final(self), *final(stage), a) == reset_step(*old(self), *old(stage)),
    {
        match *stage {
            ResetStage::Starting => {
                self.verified_pos = Txid(0);
                *stage = ResetStage::Saving;
                ResetAction::Save(Txid(0))
            },
            ResetStage::Saving => {
                self.verified_pos_provisional = false;
                self.lineage_checked = false;
                *stage = ResetStage::Clearing;
                ResetAction::ClearL0
            },
            ResetStage::Clearing => {
                self.invalidate_pos();
                self.remote_txid = None;
                self.state.synced_to_wal_end = false;
                *stage = ResetStage::Ended;
                ResetAction::Done
            },
            ResetStage::Ended => ResetAction::Done,
        }
    }
}

/// A reset zeroes the verified position before any L0 file is deleted, and a
/// complete one leaves nothing known of either side.
pub proof fn lemma_reset_order(w: Writer)
    ensures
        ({
            let (w1, s1, a1) = reset_step(w, ResetStage::Starting);
            let (w2, s2, a2) = reset_step(w1, s1);
            let (w3, s3, a3) = reset_step(w2, s2);
            &&& a1 == ResetAction::Save(Txid(0))
            &&& a2 == ResetAction::ClearL0
            &&& w1.verified_pos == Txid(0)
            &&& w2.verified_pos == Txid(0)
            &&& a3 == ResetAction::Done
            &&& w3 == (Writer {
                cached_pos: None,
                remote_txid: None,
                verified_pos: Txid(0),
                verified_pos_provisional: false,
                lineage_checked: false,
                state: SyncState { synced_to_wal_end: false, ..w.state },
                ..w
            })
        }),
{
}

/// The size of a WAL of so many frames of this page size: a header of 32
/// bytes, and for each frame 24 bytes and a page.
pub open spec fn is_wal_size(n: int, page_size: u32, frames: u32) -> bool {
    n == 32 + frames * (24 + page_size)
}

/// The way of a push that nobody cancels to its checkpoint or the bucket. It
/// makes sure of the WAL, syncs, persists the consumed end of the WAL, and
/// takes the sync's outcome into what it reports and what the writer knows.
/// The WAL's size before the push is the consumed end known so far, else that
/// of the file. By it a TRUNCATE checkpoint is due, before any other, once the
/// WAL has as many frames as its threshold, if it has one; a PASSIVE one is
/// due once the consumed end has as many as its own. Without a checkpoint to
/// run, or with checkpoints switched off, the push goes on to the bucket: to
/// the lineage check where this session has not passed it, else to the upload.
pub proof fn lemma_push_runs(w: Writer, wal_len: u64, o: SyncOutcome, truncate_at: int, passive_at: int)
    requires
        is_wal_size(truncate_at, w.page_size, w.opts.truncate_page_n),
        is_wal_size(passive_at, w.page_size, w.opts.min_checkpoint_page_n),
        w.page_size > 0,
    ensures
        ({
            let (w1, p1, a1) = push_step(w, push_start(), PushEventView::Start);
            let (w2, p2, a2) = push_step(w1, p1, PushEventView::CancelChecked(false));
            let (w3, p3, a3) = push_step(w2, p2, PushEventView::WalEnsured);
            let known = w.state.last_synced_wal_offset > 0;
            let (w4, p4, a4) = if known {
                (w3, p3, a3)
            } else {
                push_step(w3, p3, PushEventView::WalSize(wal_len))
            };
            let (w5, p5, a5) = push_step(w4, p4, PushEventView::Synced(o));
            let (w6, p6, a6) = push_step(w5, p5, PushEventView::Persisted);
            let (w7, p7, a7) = push_step(w6, p6, PushEventView::CancelChecked(false));
            let before = if known {
                w.state.last_synced_wal_offset
            } else {
                wal_len
            };
            let truncate = w.opts.auto_checkpoint && w.opts.truncate_page_n > 0 && before
                >= truncate_at;
            let passive = w.opts.auto_checkpoint && !truncate && o.new_wal_size >= passive_at;
            &&& a1 == PushActionView::CheckCancel
            &&& a2 == PushActionView::EnsureWal
            &&& a3 == if known {
                PushActionView::Sync
            } else {
                PushActionView::MeasureWal
            }
            &&& a4 == PushActionView::Sync
            &&& w4 == w
            &&& a5 == PushActionView::Persist(o.new_wal_size)
            &&& w5.state.last_synced_wal_offset == o.new_wal_size
            &&& w5.state.synced_to_wal_end == o.synced_to_wal_end
            &&& w5.state.synced_since_checkpoint == (w.state.synced_since_checkpoint || o.synced)
            &&& w5.cached_pos == if o.pos is Some {
                o.pos
            } else {
                w.cached_pos
            }
            &&& w7 == (Writer { state: w5.state, cached_pos: w5.cached_pos, ..w })
            &&& a6 == PushActionView::CheckCancel
            &&& (p7.synced, p7.snapshotted, p7.snapshot_reason) == (
                o.synced,
                o.snapshotted,
                o.snapshot_reason,
            )
            &&& !p7.checkpointed
            &&& truncate ==> a7 == PushActionView::Checkpoint(CheckpointMode::Truncate)
            &&& passive ==> a7 == PushActionView::Checkpoint(CheckpointMode::Passive)
            &&& !truncate && !passive && w.lineage_checked ==> a7 == PushActionView::Upload
            &&& !truncate && !passive && !w.lineage_checked ==> a7 == PushActionView::CheckLineage
        }),
{
    let ps = w.page_size as int;
    let n = w.opts.truncate_page_n as int;
    let m = w.opts.min_checkpoint_page_n as int;
    assert(n * (24 + ps) == (24 + ps) * n) by (nonlinear_arith);
    assert(m * (24 + ps) == (24 + ps) * m) by (nonlinear_arith);
}

/// The way of a push from its checkpoint to its end. A checkpoint that ran is
/// reported; a busy PASSIVE one is passed over, and any other failed one ends
/// the push with its failure. Behind the lineage check comes the upload, then
/// the files that the bucket holds are pruned locally, and the push reports
/// what its parts came to at the local position.
pub proof fn lemma_push_ends(w: Writer, p: Push, e: PushEventView)
    ensures
        ({
            let (w2, p2, a) = push_step(w, p, e);
            let bucket = if w.lineage_checked {
                PushActionView::Upload
            } else {
                PushActionView::CheckLineage
            };
            &&& p.stage matches PushStage::Checkpointing(mode) ==> {
                &&& e == (PushEventView::Checkpointed { synced: None }) ==> a == bucket
                    && p2.checkpointed && p2.synced == p.synced && p2.snapshotted == p.snapshotted
                &&& e matches PushEventView::CheckpointFailed { error, busy, synced: None } ==> {
                    &&& w2 == w
                    &&& !(busy && mode == CheckpointMode::Passive) ==> a == PushActionView::Failed(
                        error,
                    )
                    &&& busy && mode == CheckpointMode::Passive ==> a == bucket && p2.checkpointed
                        == p.checkpointed
                }
            }
            &&& p.stage == PushStage::CheckingLineage && e is LineageChecked ==> a == bucket && w2 == w
            &&& p.stage == PushStage::Uploading ==> (e matches PushEventView::Uploaded {
                uploaded,
                bytes_uploaded,
                remote_txid,
            } ==> a == PushActionView::Prune(remote_txid) && w2 == w && (
                p2.uploaded,
                p2.bytes_uploaded,
                p2.remote_txid,
            ) == (uploaded, bytes_uploaded, remote_txid))
            &&& p.stage == PushStage::Pruning && e is Pruned ==> match w.cached_pos {
                Some(pos) => a matches PushActionView::Done(r) && r.txid == pos.txid && reports(r, p),
                None => a == PushActionView::ReadPos,
            }
            &&& p.stage == PushStage::ReadingPos ==> (e matches PushEventView::Pos(pos) ==> (
            a matches PushActionView::Done(r) && r.txid == pos.txid && reports(r, p)) && w2.cached_pos
                == Some(pos))
        }),
{
}

/// Whether a result reports what the parts of a push came to.
pub open spec fn reports(r: PushResult, p: Push) -> bool {
    &&& r.synced == p.synced
    &&& r.uploaded == p.uploaded
    &&& r.remote_txid == p.remote_txid
    &&& r.checkpointed == p.checkpointed
    &&& r.snapshotted == p.snapshotted
    &&& r.snapshot_reason == p.snapshot_reason
    &&& r.bytes_uploaded == p.bytes_uploaded
}

/// A sync right before a checkpoint counts for the push, whether the
/// checkpoint then ran or not: an L0 file or a snapshot is reported if either
/// sync wrote one, with the first reason there is; the writer goes by the later
/// sync's end of the WAL and position; and nothing else is touched.
pub proof fn lemma_late_sync_counts(
    w: Writer,
    p: Push,
    mode: CheckpointMode,
    o: SyncOutcome,
    error: ErrorView,
    busy: bool,
)
    requires
        p.stage == PushStage::Checkpointing(mode),
    ensures
        ({
            let ran = push_step(w, p, PushEventView::Checkpointed { synced: Some(o) });
            let failed = push_step(
                w,
                p,
                PushEventView::CheckpointFailed { error, busy, synced: Some(o) },
            );
            let counted = |q: Push|
                {
                    &&& q.synced == (p.synced || o.synced)
                    &&& q.snapshotted == (p.snapshotted || o.snapshotted)
                    &&& q.snapshot_reason == match p.snapshot_reason {
                        Some(t) => Some(t),
                        None => o.snapshot_reason,
                    }
                    &&& (q.uploaded, q.bytes_uploaded, q.remote_txid) == (
                        p.uploaded,
                        p.bytes_uploaded,
                        p.remote_txid,
                    )
                };
            let known = |v: Writer, since: bool|
                v == (Writer {
                    state: SyncState {
                        last_synced_wal_offset: o.new_wal_size,
                        synced_to_wal_end: o.synced_to_wal_end,
                        synced_since_checkpoint: since,
                    },
                    cached_pos: match o.pos {
                        Some(pos) => Some(pos),
                        None => w.cached_pos,
                    },
                    ..w
                });
            &&& counted(ran.1) && ran.1.checkpointed && known(ran.0, false)
            &&& counted(failed.1) && failed.1.checkpointed == p.checkpointed
            &&& known(failed.0, w.state.synced_since_checkpoint || o.synced)
            &&& failed.2 == PushActionView::Failed(error) <==> !(busy && mode
                == CheckpointMode::Passive)
        }),
{
}

/// What a whole push reports that syncs, checkpoints, uploads and prunes: what
/// its syncs wrote, that it checkpointed, what it uploaded, and the position
/// that the writer knows then.
pub proof fn lemma_push_reports(
    w: Writer,
    wal_len: u64,
    first: SyncOutcome,
    late: Option<SyncOutcome>,
    uploaded: u64,
    bytes_uploaded: u64,
    remote_txid: Txid,
    pos: Pos,
)
    requires
        w.lineage_checked,
    ensures
        ({
            let (w1, p1, _) = push_step(w, push_start(), PushEventView::Start);
            let (w2, p2, _) = push_step(w1, p1, PushEventView::CancelChecked(false));
            let (w3, p3, a3) = push_step(w2, p2, PushEventView::WalEnsured);
            let (w4, p4) = if a3 is MeasureWal {
                let (w, p, _) = push_step(w3, p3, PushEventView::WalSize(wal_len));
                (w, p)
            } else {
                (w3, p3)
            };
            let (w5, p5, _) = push_step(w4, p4, PushEventView::Synced(first));
            let (w6, p6, _) = push_step(w5, p5, PushEventView::Persisted);
            let (w7, p7, a7) = push_step(w6, p6, PushEventView::CancelChecked(false));
            let (w8, p8, a8) = if a7 is Checkpoint {
                push_step(w7, p7, PushEventView::Checkpointed { synced: late })
            } else {
                (w7, p7, a7)
            };
            let (w9, p9, a9) = push_step(
                w8,
                p8,
                PushEventView::Uploaded { uploaded, bytes_uploaded, remote_txid },
            );
            let (w10, p10, a10) = push_step(w9, p9, PushEventView::Pruned);
            let (w11, p11, a11) = if a10 is ReadPos {
                push_step(w10, p10, PushEventView::Pos(pos))
            } else {
                (w10, p10, a10)
            };
            let late = if a7 is Checkpoint {
                late
            } else {
                None
            };
            let last = match late {
                Some(o) if o.pos is Some => o.pos,
                _ => match first.pos {
                    Some(q) => Some(q),
                    None => w.cached_pos,
                },
            };
            &&& a8 == PushActionView::Upload
            &&& a9 == PushActionView::Prune(remote_txid)
            &&& a11 == PushActionView::Done(
                PushResult {
                    txid: match last {
                        Some(q) => q.txid,
                        None => pos.txid,
                    },
                    synced: first.synced || (late matches Some(o) && o.synced),
                    uploaded,
                    remote_txid,
                    checkpointed: a7 is Checkpoint,
                    snapshotted: first.snapshotted || (late matches Some(o) && o.snapshotted),
                    snapshot_reason: match (first.snapshot_reason, late) {
                        (Some(t), _) => Some(t),
                        (None, Some(o)) => o.snapshot_reason,
                        (None, None) => None,
                    },
                    bytes_uploaded,
                },
            )
            &&& w11.cached_pos == match last {
                Some(q) => Some(q),
                None => Some(pos),
            }
        }),
{
}

/// Without a page size there is no WAL to speak of, and no checkpoint is due.
pub proof fn lemma_no_pages_no_checkpoint(w: Writer, orig_wal_size: u64, new_wal_size: u64)
    requires
        w.page_size == 0,
    ensures
        checkpoint_due(w, orig_wal_size, new_wal_size) is None,
{
}

/// An event that does not answer what a push asked for changes nothing, and
/// nothing answers a push that has ended. A push ends by itself only when it
/// is done or failed, and only its syncs, its checkpoint and a position that
/// was read change what the writer knows.
pub proof fn lemma_push_unanswered(w: Writer, p: Push, e: PushEventView)
    ensures
        ({
            let (w2, p2, a) = push_step(w, p, e);
            &&& a is Unexpected ==> w2 == w && p2 == p
            &&& p.stage == PushStage::Ended ==> a is Unexpected
            &&& p2.stage == PushStage::Ended && p.stage != PushStage::Ended <==> a is Done || a is Failed
            &&& w2 != w ==> e is Synced || e is Checkpointed || e is CheckpointFailed || e is Pos
            &&& w2.state != w.state ==> !(e is Pos)
            &&& w2 == (Writer { state: w2.state, cached_pos: w2.cached_pos, ..w })
        }),
{
}

} // verus!
