//! One round of catching up with a bucket: L0 files from the local position,
//! gaps bridged through the compacted levels, a snapshot where those were
//! pruned, and divergence detection.
//!
//! A state machine: [`IncrementalSync`] holds where one round stands; a step
//! takes what the last action came to and gives the next action. A listing or
//! a write that fails ends the round with its own error.

use vstd::prelude::*;

use crate::error::Error;
#[allow(unused_imports)]
use crate::error::ErrorView;
#[allow(unused_imports)]
use crate::ltx::types::contiguous;
use crate::ltx::{FileInfo, Txid};
use crate::storage::{StorageError, SNAPSHOT_LEVEL};
#[allow(unused_imports)]
use crate::storage::StorageErrorView;

verus! {

/// Which file of a bucket.
#[derive(Debug, Clone, Copy, PartialEq, Eq, Structural)]
pub struct LtxFile {
    pub level: u8,
    pub min_txid: Txid,
    pub max_txid: Txid,
}

/// Where a round stands.
#[derive(Debug, Clone, Copy, PartialEq, Eq, Structural)]
pub enum SyncStage {
    Starting,
    ListingL0,
    CheckingCancel,
    Applying,
    ListingGap,
    CheckingCancelInGap,
    ApplyingInGap,
    Scanning,
    CheckingCancelForSnapshot,
    ApplyingSnapshot,
    WritingTxid,
    Ended,
}

/// One round of incremental application.
#[derive(Debug)]
pub struct IncrementalSync {
    pub stage: SyncStage,
    /// The position at the start of the round.
    pub from: Txid,
    /// The position now.
    pub current: Txid,
    /// Whether a file of the gap's levels vanished between listing and fetch.
    pub saw_404: bool,
    /// The bucket's L0 files behind `from`, and the one in hand.
    pub l0: Vec<FileInfo>,
    pub i: usize,
    /// The position before the gap, and where the gap ends.
    pub gap_after: Txid,
    pub gap_min: Txid,
    /// The level being listed, its files, and the one in hand.
    pub level: u8,
    pub files: Vec<FileInfo>,
    pub j: usize,
    /// The newest transaction of the bucket, and its newest snapshot.
    pub bucket_max: Txid,
    pub newest: Option<LtxFile>,
}

/// What the last action came to.
#[derive(Debug)]
pub enum SyncEvent {
    Start,
    /// The files listed.
    Listed(Vec<FileInfo>),
    /// Whether the sync was cancelled.
    CancelChecked(bool),
    Applied,
    ApplyFailed(Error),
    TxidWritten,
}

/// What to do next.
#[derive(Debug)]
pub enum SyncAction {
    /// List a level's files from this transaction on.
    List { level: u8, from: Txid },
    CheckCancel,
    /// Fetch a file and apply its pages.
    Apply(LtxFile),
    /// Persist the position.
    WriteTxid(Txid),
    Done(Txid),
    Failed(Error),
    /// The event does not answer the last action; nothing changed.
    Unexpected,
}

/// The mathematical counterpart of [`IncrementalSync`].
#[verifier::ext_equal]
pub struct SyncView {
    pub stage: SyncStage,
    pub from: Txid,
    pub current: Txid,
    pub saw_404: bool,
    pub l0: Seq<FileInfo>,
    pub i: int,
    pub gap_after: Txid,
    pub gap_min: Txid,
    pub level: u8,
    pub files: Seq<FileInfo>,
    pub j: int,
    pub bucket_max: Txid,
    pub newest: Option<LtxFile>,
}

/// The mathematical counterpart of [`SyncEvent`].
#[verifier::ext_equal]
pub enum SyncEventView {
    Start,
    Listed(Seq<FileInfo>),
    CancelChecked(bool),
    Applied,
    ApplyFailed(ErrorView),
    TxidWritten,
}

/// The mathematical counterpart of [`SyncAction`].
#[verifier::ext_equal]
pub enum SyncActionView {
    List { level: u8, from: Txid },
    CheckCancel,
    Apply(LtxFile),
    WriteTxid(Txid),
    Done(Txid),
    Failed(ErrorView),
    Unexpected,
}

impl View for IncrementalSync {
    type V = SyncView;

    open spec fn view(&self) -> SyncView {
        SyncView {
            stage: self.stage,
            from: self.from,
            current: self.current,
            saw_404: self.saw_404,
            l0: self.l0@,
            i: self.i as int,
            gap_after: self.gap_after,
            gap_min: self.gap_min,
            level: self.level,
            files: self.files@,
            j: self.j as int,
            bucket_max: self.bucket_max,
            newest: self.newest,
        }
    }
}

impl View for SyncEvent {
    type V = SyncEventView;

    open spec fn view(&self) -> SyncEventView {
        match self {
            SyncEvent::Start => SyncEventView::Start,
            SyncEvent::Listed(v) => SyncEventView::Listed(v@),
            SyncEvent::CancelChecked(b) => SyncEventView::CancelChecked(*b),
            SyncEvent::Applied => SyncEventView::Applied,
            SyncEvent::ApplyFailed(e) => SyncEventView::ApplyFailed(e@),
            SyncEvent::TxidWritten => SyncEventView::TxidWritten,
        }
    }
}

impl View for SyncAction {
    type V = SyncActionView;

    open spec fn view(&self) -> SyncActionView {
        match self {
            SyncAction::List { level, from } => SyncActionView::List { level: *level, from: *from },
            SyncAction::CheckCancel => SyncActionView::CheckCancel,
            SyncAction::Apply(f) => SyncActionView::Apply(*f),
            SyncAction::WriteTxid(t) => SyncActionView::WriteTxid(*t),
            SyncAction::Done(t) => SyncActionView::Done(*t),
            SyncAction::Failed(e) => SyncActionView::Failed(e@),
            SyncAction::Unexpected => SyncActionView::Unexpected,
        }
    }
}

/// Which file a listing entry is.
pub open spec fn file_of(info: FileInfo) -> LtxFile {
    LtxFile { level: info.level, min_txid: info.min_txid, max_txid: info.max_txid }
}

/// Whether a file behind it could still follow each of `files`.
pub open spec fn files_ok(files: Seq<FileInfo>) -> bool {
    forall|k: int| 0 <= k < files.len() ==> (#[trigger] files[k]).max_txid.0 < u64::MAX
}

impl SyncView {
    /// What every round keeps at every stage.
    pub open spec fn in_bounds(self) -> bool {
        &&& self.from.0 <= self.current.0 < u64::MAX
        &&& files_ok(self.l0)
        &&& files_ok(self.files)
        &&& 0 <= self.i <= self.l0.len()
        &&& 0 <= self.j <= self.files.len()
        &&& self.gap_after.0 <= self.current.0
    }

    /// What every round keeps. In particular a file is applied only where it
    /// continues the position, and the bucket is scanned, or a snapshot
    /// applied, only in a round that made no progress and saw no file vanish.
    pub open spec fn wf(self) -> bool {
        &&& self.in_bounds()
        &&& match self.stage {
            SyncStage::CheckingCancel => self.i < self.l0.len(),
            SyncStage::Applying => self.i < self.l0.len() && self.current.0
                < self.l0[self.i].max_txid.0 && self.l0[self.i].min_txid.0 <= self.current.0 + 1,
            SyncStage::ListingGap => 1 <= self.level < SNAPSHOT_LEVEL && (self.l0.len() == 0 || self.i
                < self.l0.len()),
            SyncStage::CheckingCancelInGap | SyncStage::ApplyingInGap => 1 <= self.level
                < SNAPSHOT_LEVEL && self.j < self.files.len() && (self.l0.len() == 0 || self.i
                < self.l0.len()) && self.current.0 < self.files[self.j].max_txid.0
                && self.files[self.j].min_txid.0 <= self.current.0 + 1,
            SyncStage::Scanning => self.level <= SNAPSHOT_LEVEL && self.current == self.from
                && !self.saw_404 && (self.newest matches Some(f) ==> f.max_txid.0 < u64::MAX),
            SyncStage::CheckingCancelForSnapshot | SyncStage::ApplyingSnapshot => self.newest is Some
                && self.current.0 < self.newest.unwrap().max_txid.0 < u64::MAX && self.current
                == self.from && !self.saw_404,
            _ => true,
        }
    }
}

/// Ends the round: the position is persisted if it moved.
pub open spec fn conclude(s: SyncView) -> (SyncView, SyncActionView) {
    if s.current.0 > s.from.0 {
        (SyncView { stage: SyncStage::WritingTxid, ..s }, SyncActionView::WriteTxid(s.current))
    } else {
        (SyncView { stage: SyncStage::Ended, ..s }, SyncActionView::Done(s.current))
    }
}

/// Ends the round with an error.
pub open spec fn sync_fails(s: SyncView, e: ErrorView) -> (SyncView, SyncActionView) {
    (SyncView { stage: SyncStage::Ended, ..s }, SyncActionView::Failed(e))
}

/// After the last file. Without progress, the whole bucket tells up-to-date,
/// snapshot-only and diverged apart — unless a listed file vanished
/// (`allow_scan` is false), which means "retry next sync", not "the chain was
/// pruned".
pub open spec fn finish_incremental(s: SyncView, allow_scan: bool) -> (SyncView, SyncActionView) {
    if s.current == s.from && allow_scan {
        (
            SyncView {
                stage: SyncStage::Scanning,
                level: SNAPSHOT_LEVEL,
                bucket_max: Txid(0),
                newest: None,
                ..s
            },
            SyncActionView::List { level: SNAPSHOT_LEVEL, from: Txid(0) },
        )
    } else {
        conclude(s)
    }
}

/// The next L0 file, or the end of them.
pub open spec fn next_l0(s: SyncView) -> (SyncView, SyncActionView) {
    if s.i < s.l0.len() {
        (SyncView { stage: SyncStage::CheckingCancel, ..s }, SyncActionView::CheckCancel)
    } else if s.l0.len() == 0 {
        start_gap(s, Txid((s.current.0 + 1) as u64))
    } else {
        finish_incremental(s, !s.saw_404)
    }
}

/// The L0 file in hand: skipped when it brings nothing new, else applied.
pub open spec fn take_l0(s: SyncView) -> (SyncView, SyncActionView) {
    if s.l0[s.i].max_txid.0 <= s.current.0 {
        next_l0(SyncView { i: s.i + 1, ..s })
    } else {
        (
            SyncView { stage: SyncStage::Applying, ..s },
            SyncActionView::Apply(file_of(s.l0[s.i])),
        )
    }
}

/// Bridges an L0 gap through levels 1..8 (never the snapshot level).
pub open spec fn start_gap(s: SyncView, gap_min: Txid) -> (SyncView, SyncActionView) {
    (
        SyncView {
            stage: SyncStage::ListingGap,
            gap_after: s.current,
            gap_min,
            level: 1,
            ..s
        },
        SyncActionView::List { level: 1, from: Txid(0) },
    )
}

/// Back from a gap, to the L0 file in front of which it stood.
pub open spec fn end_gap(s: SyncView) -> (SyncView, SyncActionView) {
    if s.l0.len() == 0 {
        finish_incremental(s, !s.saw_404)
    } else if s.l0[s.i].max_txid.0 > s.current.0 && s.l0[s.i].min_txid.0 > s.current.0 + 1 {
        // Still gapped; try again next sync (or snapshot).
        finish_incremental(s, !s.saw_404)
    } else {
        take_l0(s)
    }
}

/// After the files of one level: progress goes back to L0, else the next
/// level is tried.
pub open spec fn end_gap_level(s: SyncView) -> (SyncView, SyncActionView) {
    if s.current.0 > s.gap_after.0 || s.level + 1 >= SNAPSHOT_LEVEL {
        end_gap(s)
    } else {
        (
            SyncView { stage: SyncStage::ListingGap, level: (s.level + 1) as u8, ..s },
            SyncActionView::List { level: (s.level + 1) as u8, from: Txid(0) },
        )
    }
}

/// The next file of a level that reaches behind the position, as long as the
/// level has no gap itself.
pub open spec fn fill_follow_gap(s: SyncView) -> (SyncView, SyncActionView)
    decreases s.files.len() - s.j,
{
    if s.j >= s.files.len() {
        end_gap_level(s)
    } else if s.files[s.j].min_txid.0 > s.current.0 + 1 {
        end_gap_level(s)
    } else if s.files[s.j].max_txid.0 <= s.current.0 {
        fill_follow_gap(SyncView { j: s.j + 1, ..s })
    } else {
        (SyncView { stage: SyncStage::CheckingCancelInGap, ..s }, SyncActionView::CheckCancel)
    }
}

/// The larger of the two.
pub open spec fn txid_max(a: Txid, b: Txid) -> Txid {
    if b.0 > a.0 {
        b
    } else {
        a
    }
}

/// The newest transaction of `files`, or `so_far` when that is newer.
pub open spec fn scan_max(files: Seq<FileInfo>, so_far: Txid) -> Txid
    decreases files.len(),
{
    if files.len() == 0 {
        so_far
    } else {
        txid_max(scan_max(files.drop_last(), so_far), files.last().max_txid)
    }
}

/// The newest of `files`, the first where two are equally new, or `so_far`
/// when none is newer.
pub open spec fn scan_newest(files: Seq<FileInfo>, so_far: Option<LtxFile>) -> Option<LtxFile>
    decreases files.len(),
{
    if files.len() == 0 {
        so_far
    } else {
        let best = scan_newest(files.drop_last(), so_far);
        match best {
            Some(f) => if files.last().max_txid.0 > f.max_txid.0 {
                Some(file_of(files.last()))
            } else {
                best
            },
            None => Some(file_of(files.last())),
        }
    }
}

/// One level of the bucket was listed for its newest transaction.
pub open spec fn scan_level(s: SyncView, files: Seq<FileInfo>) -> (SyncView, SyncActionView) {
    let s2 = SyncView {
        bucket_max: scan_max(files, s.bucket_max),
        newest: if s.level == SNAPSHOT_LEVEL {
            scan_newest(files, s.newest)
        } else {
            s.newest
        },
        ..s
    };
    if s.level > 0 {
        (
            SyncView { level: (s.level - 1) as u8, ..s2 },
            SyncActionView::List { level: (s.level - 1) as u8, from: Txid(0) },
        )
    } else if s2.bucket_max.0 == 0 {
        // An empty bucket is the window of a wipe-then-reseed, not divergence.
        (SyncView { stage: SyncStage::Ended, ..s2 }, SyncActionView::Done(s2.current))
    } else if s2.bucket_max.0 < s2.current.0 {
        sync_fails(s2, ErrorView::Diverged { local: s2.current, remote: s2.bucket_max })
    } else {
        match s2.newest {
            Some(f) => if f.max_txid.0 > s2.current.0 {
                (
                    SyncView { stage: SyncStage::CheckingCancelForSnapshot, ..s2 },
                    SyncActionView::CheckCancel,
                )
            } else {
                conclude(s2)
            },
            None => conclude(s2),
        }
    }
}

/// Whether a failure to fetch a file means that the bucket lost it between
/// listing and fetch.
pub open spec fn is_404(e: ErrorView) -> bool {
    e matches ErrorView::Storage(StorageErrorView::NotFound { .. })
}

/// A round from the position `from`, at its start.
pub open spec fn sync_start(from: Txid) -> SyncView {
    SyncView {
        stage: SyncStage::Starting,
        from,
        current: from,
        saw_404: false,
        l0: Seq::empty(),
        i: 0,
        gap_after: Txid(0),
        gap_min: Txid(0),
        level: 0,
        files: Seq::empty(),
        j: 0,
        bucket_max: Txid(0),
        newest: None,
    }
}

/// One step of a round.
pub open spec fn sync_step(s: SyncView, e: SyncEventView) -> (SyncView, SyncActionView) {
    match (s.stage, e) {
        (SyncStage::Starting, SyncEventView::Start) => (
            SyncView { stage: SyncStage::ListingL0, ..s },
            SyncActionView::List { level: 0, from: Txid((s.current.0 + 1) as u64) },
        ),
        (SyncStage::ListingL0, SyncEventView::Listed(files)) => next_l0(
            SyncView { l0: files, i: 0, ..s },
        ),
        (SyncStage::CheckingCancel, SyncEventView::CancelChecked(cancelled)) => if cancelled {
            sync_fails(s, ErrorView::Cancelled)
        } else if s.l0[s.i].min_txid.0 > s.current.0 + 1 {
            start_gap(s, s.l0[s.i].min_txid)
        } else {
            take_l0(s)
        },
        (SyncStage::Applying, SyncEventView::Applied) => next_l0(
            SyncView { current: s.l0[s.i].max_txid, i: s.i + 1, ..s },
        ),
        (SyncStage::Applying, SyncEventView::ApplyFailed(err)) => if is_404(err) {
            // Re-list next sync; never advance past it.
            finish_incremental(s, false)
        } else {
            sync_fails(s, err)
        },
        (SyncStage::ListingGap, SyncEventView::Listed(files)) => fill_follow_gap(
            SyncView { files, j: 0, ..s },
        ),
        (SyncStage::CheckingCancelInGap, SyncEventView::CancelChecked(cancelled)) => if cancelled {
            sync_fails(s, ErrorView::Cancelled)
        } else {
            (
                SyncView { stage: SyncStage::ApplyingInGap, ..s },
                SyncActionView::Apply(file_of(s.files[s.j])),
            )
        },
        (SyncStage::ApplyingInGap, SyncEventView::Applied) => {
            let s2 = SyncView { current: s.files[s.j].max_txid, ..s };
            if s2.current.0 + 1 >= s2.gap_min.0 {
                end_gap(s2)
            } else {
                fill_follow_gap(SyncView { j: s.j + 1, ..s2 })
            }
        },
        (SyncStage::ApplyingInGap, SyncEventView::ApplyFailed(err)) => if is_404(err) {
            end_gap(SyncView { saw_404: true, ..s })
        } else {
            sync_fails(s, err)
        },
        (SyncStage::Scanning, SyncEventView::Listed(files)) => scan_level(s, files),
        (SyncStage::CheckingCancelForSnapshot, SyncEventView::CancelChecked(cancelled)) => if cancelled {
            sync_fails(s, ErrorView::Cancelled)
        } else {
            (
                SyncView { stage: SyncStage::ApplyingSnapshot, ..s },
                SyncActionView::Apply(s.newest.unwrap()),
            )
        },
        (SyncStage::ApplyingSnapshot, SyncEventView::Applied) => conclude(
            SyncView { current: s.newest.unwrap().max_txid, ..s },
        ),
        (SyncStage::ApplyingSnapshot, SyncEventView::ApplyFailed(err)) => sync_fails(s, err),
        (SyncStage::WritingTxid, SyncEventView::TxidWritten) => (
            SyncView { stage: SyncStage::Ended, ..s },
            SyncActionView::Done(s.current),
        ),
        _ => (s, SyncActionView::Unexpected),
    }
}

fn file_ref(info: &FileInfo) -> (r: LtxFile)
    ensures
        r == file_of(*info),
{
    LtxFile { level: info.level, min_txid: info.min_txid, max_txid: info.max_txid }
}

impl IncrementalSync {
    /// A round from the position `from`.
    pub fn new(from: Txid) -> (s: IncrementalSync)
        ensures
            s@ == sync_start(from),
            from.0 < u64::MAX ==> s@.wf(),
    {
        IncrementalSync {
            stage: SyncStage::Starting,
            from,
            current: from,
            saw_404: false,
            l0: Vec::new(),
            i: 0,
            gap_after: Txid(0),
            gap_min: Txid(0),
            level: 0,
            files: Vec::new(),
            j: 0,
            bucket_max: Txid(0),
            newest: None,
        }
    }

    fn fail(&mut self, e: Error) -> (a: SyncAction)
        ensures
            (final(self)@, a@) == sync_fails(old(self)@, e@),
    {
        self.stage = SyncStage::Ended;
        SyncAction::Failed(e)
    }

    fn conclude(&mut self) -> (a: SyncAction)
        ensures
            (final(self)@, a@) == conclude(old(self)@),
    {
        if self.current.0 > self.from.0 {
            self.stage = SyncStage::WritingTxid;
            SyncAction::WriteTxid(self.current)
        } else {
            self.stage = SyncStage::Ended;
            SyncAction::Done(self.current)
        }
    }

    fn finish_incremental(&mut self, allow_scan: bool) -> (a: SyncAction)
        ensures
            (final(self)@, a@) == finish_incremental(old(self)@, allow_scan),
    {
        if self.current == self.from && allow_scan {
            self.stage = SyncStage::Scanning;
            self.level = SNAPSHOT_LEVEL;
            self.bucket_max = Txid(0);
            self.newest = None;
            SyncAction::List { level: SNAPSHOT_LEVEL, from: Txid(0) }
        } else {
            self.conclude()
        }
    }

    fn start_gap(&mut self, gap_min: Txid) -> (a: SyncAction)
        ensures
            (final(self)@, a@) == start_gap(old(self)@, gap_min),
    {
        self.stage = SyncStage::ListingGap;
        self.gap_after = self.current;
        self.gap_min = gap_min;
        self.level = 1;
        SyncAction::List { level: 1, from: Txid(0) }
    }

    fn next_l0(&mut self) -> (a: SyncAction)
        requires
            old(self).current.0 < u64::MAX,
        ensures
            (final(self)@, a@) == next_l0(old(self)@),
    {
        if self.i < self.l0.len() {
            self.stage = SyncStage::CheckingCancel;
            SyncAction::CheckCancel
        } else if self.l0.len() == 0 {
            self.start_gap(Txid(self.current.0 + 1))
        } else {
            let allow: bool = !self.saw_404;
            self.finish_incremental(allow)
        }
    }

    fn take_l0(&mut self) -> (a: SyncAction)
        requires
            old(self).current.0 < u64::MAX,
            old(self).i < old(self).l0@.len(),
        ensures
            (final(self)@, a@) == take_l0(old(self)@),
    {
        let info = &self.l0[self.i];
        if info.max_txid.0 <= self.current.0 {
            assert(self.i < self.l0.len());
            self.i = self.i + 1;
            self.next_l0()
        } else {
            let f = file_ref(info);
            self.stage = SyncStage::Applying;
            SyncAction::Apply(f)
        }
    }

    fn end_gap(&mut self) -> (a: SyncAction)
        requires
            old(self).current.0 < u64::MAX,
            old(self).l0@.len() == 0 || old(self).i < old(self).l0@.len(),
        ensures
            (final(self)@, a@) == end_gap(old(self)@),
    {
        if self.l0.len() == 0 {
            let allow: bool = !self.saw_404;
            return self.finish_incremental(allow);
        }
        let min: u64 = self.l0[self.i].min_txid.0;
        let max: u64 = self.l0[self.i].max_txid.0;
        if max > self.current.0 && min > self.current.0 + 1 {
            let allow: bool = !self.saw_404;
            self.finish_incremental(allow)
        } else {
            self.take_l0()
        }
    }

    fn end_gap_level(&mut self) -> (a: SyncAction)
        requires
            old(self).current.0 < u64::MAX,
            old(self).level < SNAPSHOT_LEVEL,
            old(self).l0@.len() == 0 || old(self).i < old(self).l0@.len(),
        ensures
            (final(self)@, a@) == end_gap_level(old(self)@),
    {
        if self.current.0 > self.gap_after.0 || self.level + 1 >= SNAPSHOT_LEVEL {
            self.end_gap()
        } else {
            self.stage = SyncStage::ListingGap;
            self.level = self.level + 1;
            SyncAction::List { level: self.level, from: Txid(0) }
        }
    }

    fn fill_follow_gap(&mut self) -> (a: SyncAction)
        requires
            old(self).current.0 < u64::MAX,
            old(self).level < SNAPSHOT_LEVEL,
            old(self).j <= old(self).files@.len(),
            old(self).l0@.len() == 0 || old(self).i < old(self).l0@.len(),
        ensures
            (final(self)@, a@) == fill_follow_gap(old(self)@),
        decreases old(self).files@.len() - old(self).j,
    {
        if self.j >= self.files.len() {
            return self.end_gap_level();
        }
        let min: u64 = self.files[self.j].min_txid.0;
        let max: u64 = self.files[self.j].max_txid.0;
        if min > self.current.0 + 1 {
            // Gap at this level too.
            self.end_gap_level()
        } else if max <= self.current.0 {
            self.j = self.j + 1;
            assert(self@ == (SyncView { j: old(self)@.j + 1, ..old(self)@ }));
            self.fill_follow_gap()
        } else {
            self.stage = SyncStage::CheckingCancelInGap;
            SyncAction::CheckCancel
        }
    }
}

impl IncrementalSync {
    fn scan_files(&mut self, files: &Vec<FileInfo>)
        ensures
            final(self)@ == (SyncView {
                bucket_max: scan_max(files@, old(self)@.bucket_max),
                newest: if old(self)@.level == SNAPSHOT_LEVEL {
                    scan_newest(files@, old(self)@.newest)
                } else {
                    old(self)@.newest
                },
                ..old(self)@
            }),
    {
        let n: usize = files.len();
        let mut k: usize = 0;
        let ghost before = self@;
        assert(files@.take(0) =~= Seq::empty());
        while k < n
            invariant
                k <= n == files@.len(),
                before == old(self)@,
                self@ == (SyncView {
                    bucket_max: scan_max(files@.take(k as int), before.bucket_max),
                    newest: if before.level == SNAPSHOT_LEVEL {
                        scan_newest(files@.take(k as int), before.newest)
                    } else {
                        before.newest
                    },
                    ..before
                }),
            decreases n - k,
        {
            let info = &files[k];
            proof {
                let next = files@.take(k + 1);
                assert(next.drop_last() =~= files@.take(k as int));
                assert(next.last() == files@[k as int]);
            }
            if info.max_txid.0 > self.bucket_max.0 {
                self.bucket_max = info.max_txid;
            }
            if self.level == SNAPSHOT_LEVEL {
                let newer: bool = match self.newest {
                    Some(f) => info.max_txid.0 > f.max_txid.0,
                    None => true,
                };
                if newer {
                    self.newest = Some(file_ref(info));
                }
            }
            k = k + 1;
        }
        assert(files@.take(n as int) =~= files@);
    }

    fn scan_level(&mut self, files: &Vec<FileInfo>) -> (a: SyncAction)
        ensures
            (final(self)@, a@) == scan_level(old(self)@, files@),
    {
        self.scan_files(files);
        if self.level > 0 {
            self.level = self.level - 1;
            return SyncAction::List { level: self.level, from: Txid(0) };
        }
        // A completely empty bucket is a no-op sync, not divergence: it is
        // the transient window of a wipe-then-reseed, and there is nothing to
        // restore from anyway. Divergence is only declared on positive
        // evidence: files present whose max is below ours.

        if self.bucket_max.is_zero() {
            self.stage = SyncStage::Ended;
            return SyncAction::Done(self.current);
        }
        if self.bucket_max.0 < self.current.0 {
            let e = Error::Diverged { local: self.current, remote: self.bucket_max };
            return self.fail(e);
        }
        // Newer data reachable only via a snapshot (levels 0-8 pruned): a
        // snapshot is contiguous with any position and contains every page,
        // so it is applied in place.

        match self.newest {
            Some(f) => {
                if f.max_txid.0 > self.current.0 {
                    self.stage = SyncStage::CheckingCancelForSnapshot;
                    return SyncAction::CheckCancel;
                }
            },
            None => {},
        }
        self.conclude()
    }

    /// One round of follow-mode application: one step.
    pub fn incremental_sync(&mut self, event: SyncEvent) -> (a: SyncAction)
        requires
            old(self)@.wf(),
            event matches SyncEvent::Listed(files) ==> files_ok(files@),
        ensures
            (final(self)@, a@) == sync_step(old(self)@, event@),
            final(self)@.wf(),
    {
        proof {
            lemma_step_keeps_wf(self@, event@);
        }
        match (self.stage, event) {
            (SyncStage::Starting, SyncEvent::Start) => {
                self.stage = SyncStage::ListingL0;
                SyncAction::List { level: 0, from: Txid(self.current.0 + 1) }
            },
            (SyncStage::ListingL0, SyncEvent::Listed(files)) => {
                self.l0 = files;
                self.i = 0;
                self.next_l0()
            },
            (SyncStage::CheckingCancel, SyncEvent::CancelChecked(cancelled)) => {
                if cancelled {
                    return self.fail(Error::Cancelled);
                }
                let min: Txid = self.l0[self.i].min_txid;
                if min.0 > self.current.0 + 1 {
                    self.start_gap(min)
                } else {
                    self.take_l0()
                }
            },
            (SyncStage::Applying, SyncEvent::Applied) => {
                self.current = self.l0[self.i].max_txid;
                assert(self.i < self.l0.len());
                self.i = self.i + 1;
                self.next_l0()
            },
            (SyncStage::Applying, SyncEvent::ApplyFailed(e)) => match e {
                Error::Storage(StorageError::NotFound { .. }) => self.finish_incremental(false),
                e => self.fail(e),
            },
            (SyncStage::ListingGap, SyncEvent::Listed(files)) => {
                self.files = files;
                self.j = 0;
                self.fill_follow_gap()
            },
            (SyncStage::CheckingCancelInGap, SyncEvent::CancelChecked(cancelled)) => {
                if cancelled {
                    return self.fail(Error::Cancelled);
                }
                self.stage = SyncStage::ApplyingInGap;
                SyncAction::Apply(file_ref(&self.files[self.j]))
            },
            (SyncStage::ApplyingInGap, SyncEvent::Applied) => {
                self.current = self.files[self.j].max_txid;
                if self.current.0 + 1 >= self.gap_min.0 {
                    self.end_gap()
                } else {
                    assert(self.j < self.files.len());
                    self.j = self.j + 1;
                    self.fill_follow_gap()
                }
            },
            (SyncStage::ApplyingInGap, SyncEvent::ApplyFailed(e)) => match e {
                Error::Storage(StorageError::NotFound { .. }) => {
                    self.saw_404 = true;
                    self.end_gap()
                },
                e => self.fail(e),
            },
            (SyncStage::Scanning, SyncEvent::Listed(files)) => self.scan_level(&files),
            (SyncStage::CheckingCancelForSnapshot, SyncEvent::CancelChecked(cancelled)) => {
                if cancelled {
                    return self.fail(Error::Cancelled);
                }
                match self.newest {
                    Some(f) => {
                        self.stage = SyncStage::ApplyingSnapshot;
                        SyncAction::Apply(f)
                    },
                    None => SyncAction::Unexpected,
                }
            },
            (SyncStage::ApplyingSnapshot, SyncEvent::Applied) => {
                match self.newest {
                    Some(f) => {
                        self.current = f.max_txid;
                    },
                    None => {},
                }
                self.conclude()
            },
            (SyncStage::ApplyingSnapshot, SyncEvent::ApplyFailed(e)) => self.fail(e),
            (SyncStage::WritingTxid, SyncEvent::TxidWritten) => {
                self.stage = SyncStage::Ended;
                SyncAction::Done(self.current)
            },
            _ => SyncAction::Unexpected,
        }
    }
}

/// The newest snapshot seen is one of the files seen.
proof fn lemma_scan_newest(files: Seq<FileInfo>, so_far: Option<LtxFile>)
    requires
        files_ok(files),
        so_far matches Some(f) ==> f.max_txid.0 < u64::MAX,
    ensures
        scan_newest(files, so_far) matches Some(f) ==> f.max_txid.0 < u64::MAX,
    decreases files.len(),
{
    if files.len() > 0 {
        assert(files_ok(files.drop_last()));
        assert(files[files.len() - 1].max_txid.0 < u64::MAX);
        lemma_scan_newest(files.drop_last(), so_far);
    }
}

proof fn lemma_fill_keeps_wf(s: SyncView)
    requires
        s.in_bounds(),
        1 <= s.level < SNAPSHOT_LEVEL,
        s.l0.len() == 0 || s.i < s.l0.len(),
    ensures
        fill_follow_gap(s).0.wf(),
    decreases s.files.len() - s.j,
{
    if s.j < s.files.len() && s.files[s.j].min_txid.0 <= s.current.0 + 1 && s.files[s.j].max_txid.0
        <= s.current.0 {
        lemma_fill_keeps_wf(SyncView { j: s.j + 1, ..s });
    }
}

proof fn lemma_step_keeps_wf(s: SyncView, e: SyncEventView)
    requires
        s.wf(),
        e matches SyncEventView::Listed(files) ==> files_ok(files),
    ensures
        sync_step(s, e).0.wf(),
{
    match (s.stage, e) {
        (SyncStage::ListingGap, SyncEventView::Listed(files)) => {
            lemma_fill_keeps_wf(SyncView { files, j: 0, ..s });
        },
        (SyncStage::ApplyingInGap, SyncEventView::Applied) => {
            let s2 = SyncView { current: s.files[s.j].max_txid, ..s };
            lemma_fill_keeps_wf(SyncView { j: s.j + 1, ..s2 });
        },
        (SyncStage::Scanning, SyncEventView::Listed(files)) => {
            lemma_scan_newest(files, s.newest);
        },
        _ => {},
    }
}

/// A file is applied only where it continues the local position: it starts no
/// later than right behind it and ends behind it. Only a snapshot, which
/// holds every page, may start elsewhere, and it too ends behind the position.
/// No snapshot is applied in a round that made progress or saw a file vanish.
pub proof fn lemma_applies_contiguous(s: SyncView, e: SyncEventView)
    requires
        s.wf(),
        e matches SyncEventView::Listed(files) ==> files_ok(files),
    ensures
        ({
            let (s2, a) = sync_step(s, e);
            a matches SyncActionView::Apply(f) ==> {
                &&& f.max_txid.0 > s2.current.0
                &&& s2.stage != SyncStage::ApplyingSnapshot ==> contiguous(
                    s2.current,
                    f.min_txid,
                    f.max_txid,
                )
                &&& s2.stage == SyncStage::ApplyingSnapshot ==> s2.current == s2.from && !s2.saw_404
            }
        }),
{
    lemma_step_keeps_wf(s, e);
    match (s.stage, e) {
        (SyncStage::ListingGap, SyncEventView::Listed(files)) => {
            lemma_fill_actions(SyncView { files, j: 0, ..s });
        },
        (SyncStage::ApplyingInGap, SyncEventView::Applied) => {
            let s2 = SyncView { current: s.files[s.j].max_txid, ..s };
            lemma_fill_actions(SyncView { j: s.j + 1, ..s2 });
        },
        _ => {},
    }
}

/// What the end of a gap can ask for.
proof fn lemma_fill_actions(s: SyncView)
    requires
        s.in_bounds(),
    ensures
        fill_follow_gap(s).0.current == s.current,
        fill_follow_gap(s).0.from == s.from,
        fill_follow_gap(s).1 matches SyncActionView::Apply(f) ==> f == file_of(s.l0[s.i])
            && fill_follow_gap(s).0.stage == SyncStage::Applying && f.max_txid.0 > s.current.0
            && f.min_txid.0 <= s.current.0 + 1,
        !(fill_follow_gap(s).1 is Failed),
        fill_follow_gap(s).1 matches SyncActionView::WriteTxid(t) ==> t == s.current && t.0 > s.from.0,
        fill_follow_gap(s).1 matches SyncActionView::Done(t) ==> t == s.current && t.0 <= s.from.0,
    decreases s.files.len() - s.j,
{
    if s.j < s.files.len() && s.files[s.j].min_txid.0 <= s.current.0 + 1 && s.files[s.j].max_txid.0
        <= s.current.0 {
        lemma_fill_actions(SyncView { j: s.j + 1, ..s });
    }
}

/// The position never goes back, moves only when a file was applied, and
/// moves then to the file's last transaction. It is persisted only when it
/// moved in this round, and what is persisted or reported is the position.
pub proof fn lemma_position_monotone(s: SyncView, e: SyncEventView)
    requires
        s.wf(),
        e matches SyncEventView::Listed(files) ==> files_ok(files),
    ensures
        ({
            let (s2, a) = sync_step(s, e);
            &&& s2.from == s.from
            &&& s2.current.0 >= s.current.0
            &&& s2.current != s.current ==> e is Applied
            &&& a matches SyncActionView::WriteTxid(t) ==> t == s2.current && t.0 > s2.from.0
            &&& a matches SyncActionView::Done(t) ==> t == s2.current
        }),
{
    match (s.stage, e) {
        (SyncStage::ListingGap, SyncEventView::Listed(files)) => {
            lemma_fill_actions(SyncView { files, j: 0, ..s });
        },
        (SyncStage::ApplyingInGap, SyncEventView::Applied) => {
            let s2 = SyncView { current: s.files[s.j].max_txid, ..s };
            lemma_fill_actions(SyncView { j: s.j + 1, ..s2 });
        },
        _ => {},
    }
}

/// The state that a round reaches through these events.
pub open spec fn sync_reaches(s: SyncView, events: Seq<SyncEventView>) -> SyncView
    decreases events.len(),
{
    if events.len() == 0 {
        s
    } else {
        sync_step(sync_reaches(s, events.drop_last()), events.last()).0
    }
}

/// What a round asks for after the last of these events.
pub open spec fn sync_asks(s: SyncView, events: Seq<SyncEventView>) -> SyncActionView
    recommends
        events.len() > 0,
{
    sync_step(sync_reaches(s, events.drop_last()), events.last()).1
}

/// The position in the sidecar after these events of a round: the one before
/// it, until a write of the round's position went through.
pub open spec fn sidecar_after_sync(old_txid: Txid, s: SyncView, events: Seq<SyncEventView>) -> Txid
    decreases events.len(),
{
    if events.len() == 0 {
        old_txid
    } else {
        let s1 = sync_reaches(s, events.drop_last());
        if s1.stage == SyncStage::WritingTxid && events.last() is TxidWritten {
            s1.current
        } else {
            sidecar_after_sync(old_txid, s, events.drop_last())
        }
    }
}

/// Whether every listing among the events can be followed.
pub open spec fn listings_ok(events: Seq<SyncEventView>) -> bool {
    forall|i: int|
        0 <= i < events.len() ==> (#[trigger] events[i] matches SyncEventView::Listed(files)
            ==> files_ok(files))
}

/// A round that ends well reports what the sidecar then holds, and that is
/// not before the position the round started from. One that fails leaves the
/// sidecar as it was.
pub proof fn lemma_round_reports_sidecar(from: Txid, events: Seq<SyncEventView>)
    requires
        from.0 < u64::MAX,
        events.len() > 0,
        listings_ok(events),
    ensures
        ({
            let sidecar = sidecar_after_sync(from, sync_start(from), events);
            match sync_asks(sync_start(from), events) {
                SyncActionView::Done(to) => to == sidecar && to.0 >= from.0,
                SyncActionView::Failed(_) => sidecar == from,
                _ => true,
            }
        }),
{
    let before = events.drop_last();
    assert(events.last() == events[events.len() - 1]);
    assert forall|i: int| 0 <= i < before.len() implies (
    #[trigger] before[i] matches SyncEventView::Listed(files) ==> files_ok(files)) by {
        assert(before[i] == events[i]);
    }
    lemma_sidecar_holds(from, before);
    let s1 = sync_reaches(sync_start(from), before);
    lemma_position_monotone(s1, events.last());
    lemma_step_keeps_wf(s1, events.last());
    match (s1.stage, events.last()) {
        (SyncStage::ListingGap, SyncEventView::Listed(files)) => {
            lemma_fill_actions(SyncView { files, j: 0, ..s1 });
        },
        (SyncStage::ApplyingInGap, SyncEventView::Applied) => {
            let s2 = SyncView { current: s1.files[s1.j].max_txid, ..s1 };
            lemma_fill_actions(SyncView { j: s1.j + 1, ..s2 });
        },
        _ => {},
    }
}

/// Until a round has ended, the sidecar holds the position it started from.
proof fn lemma_sidecar_holds(from: Txid, events: Seq<SyncEventView>)
    requires
        from.0 < u64::MAX,
        listings_ok(events),
    ensures
        ({
            let s = sync_reaches(sync_start(from), events);
            &&& s.wf()
            &&& s.from == from
            &&& s.stage != SyncStage::Ended ==> sidecar_after_sync(from, sync_start(from), events)
                == from
        }),
    decreases events.len(),
{
    if events.len() > 0 {
        let before = events.drop_last();
        assert(events.last() == events[events.len() - 1]);
        assert forall|i: int| 0 <= i < before.len() implies (
        #[trigger] before[i] matches SyncEventView::Listed(files) ==> files_ok(files)) by {
            assert(before[i] == events[i]);
        }
        lemma_sidecar_holds(from, before);
        let s1 = sync_reaches(sync_start(from), before);
        lemma_step_keeps_wf(s1, events.last());
        lemma_position_monotone(s1, events.last());
    }
}

/// `scan_max` is the newest transaction of the files seen.
pub proof fn lemma_scan_max(files: Seq<FileInfo>, so_far: Txid)
    ensures
        scan_max(files, so_far).0 >= so_far.0,
        forall|k: int|
            0 <= k < files.len() ==> (#[trigger] files[k]).max_txid.0 <= scan_max(files, so_far).0,
        scan_max(files, so_far) == so_far || exists|k: int|
            0 <= k < files.len() && (#[trigger] files[k]).max_txid == scan_max(files, so_far),
    decreases files.len(),
{
    if files.len() > 0 {
        let front = files.drop_last();
        lemma_scan_max(front, so_far);
        let m = scan_max(files, so_far);
        assert forall|k: int| 0 <= k < files.len() implies (#[trigger] files[k]).max_txid.0 <= m.0 by {
            if k < front.len() {
                assert(files[k] == front[k]);
            }
        }
        if m == files.last().max_txid {
            assert(files[files.len() - 1].max_txid == m);
        } else if scan_max(front, so_far) != so_far {
            let k = choose|k: int|
                0 <= k < front.len() && (#[trigger] front[k]).max_txid == scan_max(front, so_far);
            assert(files[k] == front[k]);
        }
    }
}

/// Divergence is declared on positive evidence alone: of what a listing leads
/// to, only the last level of a scan fails, and exactly when the bucket holds
/// files and all of them end before the local position. A bucket without any
/// is left alone and the position stands.
pub proof fn lemma_divergence(s: SyncView, files: Seq<FileInfo>)
    requires
        s.wf(),
        files_ok(files),
    ensures
        ({
            let (s2, a) = sync_step(s, SyncEventView::Listed(files));
            let max = scan_max(files, s.bucket_max);
            let last_level = s.stage == SyncStage::Scanning && s.level == 0;
            &&& a is Failed <==> last_level && 0 < max.0 < s.current.0
            &&& a matches SyncActionView::Failed(e) ==> e == (ErrorView::Diverged {
                local: s.current,
                remote: max,
            })
            &&& last_level && max.0 == 0 ==> a == SyncActionView::Done(s.current)
        }),
{
    if s.stage == SyncStage::ListingGap {
        lemma_fill_actions(SyncView { files, j: 0, ..s });
    }
}

/// Whether the files from the `k`-th on continue `current` and one another.
pub open spec fn chained(files: Seq<FileInfo>, k: int, current: Txid) -> bool
    decreases files.len() - k,
{
    k >= files.len() || (contiguous(current, files[k].min_txid, files[k].max_txid) && chained(
        files,
        k + 1,
        files[k].max_txid,
    ))
}

/// A round in which the next `n` L0 files are applied without trouble.
pub open spec fn apply_next(s: SyncView, n: nat) -> SyncView
    decreases n,
{
    if n == 0 {
        s
    } else {
        let s1 = sync_step(s, SyncEventView::CancelChecked(false)).0;
        let s2 = sync_step(s1, SyncEventView::Applied).0;
        apply_next(s2, (n - 1) as nat)
    }
}

/// A round over L0 files that continue the position and one another applies
/// each of them, in order, and ends at the last one's end, which is persisted.
pub proof fn lemma_catches_up(from: Txid, files: Seq<FileInfo>)
    requires
        files.len() > 0,
        files_ok(files),
        from.0 < u64::MAX,
        chained(files, 0, from),
    ensures
        ({
            let start = sync_step(sync_start(from), SyncEventView::Start).0;
            let listed = sync_step(start, SyncEventView::Listed(files)).0;
            let end = apply_next(listed, files.len());
            &&& end.stage == SyncStage::WritingTxid
            &&& end.current == files.last().max_txid
            &&& sync_step(end, SyncEventView::TxidWritten).1 == SyncActionView::Done(
                files.last().max_txid,
            )
        }),
{
    let start = sync_step(sync_start(from), SyncEventView::Start).0;
    let listed = sync_step(start, SyncEventView::Listed(files)).0;
    lemma_apply_next(listed);
}

proof fn lemma_apply_next(s: SyncView)
    requires
        s.wf(),
        s.stage == SyncStage::CheckingCancel,
        !s.saw_404,
        chained(s.l0, s.i, s.current),
    ensures
        ({
            let end = apply_next(s, (s.l0.len() - s.i) as nat);
            &&& end.stage == SyncStage::WritingTxid
            &&& end.current == s.l0.last().max_txid
            &&& end.from == s.from
        }),
    decreases s.l0.len() - s.i,
{
    let s1 = sync_step(s, SyncEventView::CancelChecked(false)).0;
    lemma_step_keeps_wf(s, SyncEventView::CancelChecked(false));
    assert(s1.stage == SyncStage::Applying);
    let s2 = sync_step(s1, SyncEventView::Applied).0;
    lemma_step_keeps_wf(s1, SyncEventView::Applied);
    assert(chained(s.l0, s.i + 1, s.l0[s.i].max_txid));
    if s.i + 1 < s.l0.len() {
        lemma_apply_next(s2);
        assert(apply_next(s, (s.l0.len() - s.i) as nat) == apply_next(
            s2,
            (s.l0.len() - s.i - 1) as nat,
        ));
    } else {
        assert(apply_next(s2, 0) == s2);
        assert(apply_next(s, 1) == apply_next(s2, 0));
    }
}

/// Whether the files of one level leave a gap behind `current` open: the
/// first of them that ends behind it, if any, starts too late.
pub open spec fn leaves_gap(files: Seq<FileInfo>, current: Txid) -> bool {
    exists|n: int|
        0 <= n <= files.len() && #[trigger] all_old(files, n, current) && (n == files.len()
            || files[n].min_txid.0 > current.0 + 1)
}

/// Whether each of the first `n` files ends at `current` or before it, and
/// starts no later than right behind it.
pub open spec fn all_old(files: Seq<FileInfo>, n: int, current: Txid) -> bool {
    forall|k: int|
        0 <= k < n ==> (#[trigger] files[k]).max_txid.0 <= current.0 && files[k].min_txid.0
            <= current.0 + 1
}

/// Whether the `n`-th of the files is the first one that ends behind
/// `current`, and continues it.
pub open spec fn bridges(files: Seq<FileInfo>, n: int, current: Txid) -> bool {
    &&& 0 <= n < files.len()
    &&& all_old(files, n, current)
    &&& files[n].max_txid.0 > current.0
    &&& files[n].min_txid.0 <= current.0 + 1
}

/// Where a round stands that comes to a gap, before it lists a level: the
/// bucket has no L0 file behind the position, or the next one starts too late.
pub open spec fn at_gap(s: SyncView, e: SyncEventView) -> bool {
    ||| s.stage == SyncStage::ListingL0 && e == SyncEventView::Listed(Seq::empty())
    ||| s.stage == SyncStage::CheckingCancel && e == SyncEventView::CancelChecked(false)
        && s.l0[s.i].min_txid.0 > s.current.0 + 1
}

/// A gap is bridged wherever a compacted level can bridge it. A round that
/// comes to a gap lists the levels from 1 on, each from its start, one after
/// the other, as long as what they hold leaves the gap open; no level up to 8
/// is passed over. The first level with a file that continues the position
/// has that file applied.
pub proof fn lemma_gap_bridged(
    s: SyncView,
    e: SyncEventView,
    lists: Seq<Seq<FileInfo>>,
    level: nat,
    n: int,
)
    requires
        s.wf(),
        at_gap(s, e),
        1 <= level <= 8,
        lists.len() == level,
        forall|k: int| 0 <= k < level - 1 ==> leaves_gap(#[trigger] lists[k], s.current),
        bridges(lists[level - 1], n, s.current),
        forall|k: int| 0 <= k < level ==> files_ok(#[trigger] lists[k]),
    ensures
        forall|k: int|
            0 <= k < level ==> sync_asks(s, seq![e] + #[trigger] listings(lists.take(k)))
                == (SyncActionView::List { level: (k + 1) as u8, from: Txid(0) }),
        sync_asks(s, seq![e] + listings(lists)) == SyncActionView::CheckCancel,
        sync_asks(s, (seq![e] + listings(lists)).push(SyncEventView::CancelChecked(false)))
            == SyncActionView::Apply(
            LtxFile {
                level: lists[level - 1][n].level,
                min_txid: lists[level - 1][n].min_txid,
                max_txid: lists[level - 1][n].max_txid,
            },
        ),
{
    assert forall|k: int| 0 <= k < level implies sync_asks(
        s,
        seq![e] + #[trigger] listings(lists.take(k)),
    ) == (SyncActionView::List { level: (k + 1) as u8, from: Txid(0) }) by {
        lemma_gap_walk(s, e, lists.take(k));
    }
    let front = lists.take(level - 1);
    lemma_gap_walk(s, e, front);
    let events = seq![e] + listings(lists);
    assert(events.drop_last() =~= seq![e] + listings(front));
    assert(events.last() == SyncEventView::Listed(lists[level - 1]));
    let s1 = sync_reaches(s, events.drop_last());
    let s2 = SyncView { files: lists[level - 1], j: 0, ..s1 };
    lemma_fill_finds(s2, n);
    let all = events.push(SyncEventView::CancelChecked(false));
    assert(all.drop_last() =~= events);
}

/// These listings, one after the other.
pub open spec fn listings(lists: Seq<Seq<FileInfo>>) -> Seq<SyncEventView> {
    Seq::new(lists.len(), |k: int| SyncEventView::Listed(lists[k]))
}

/// A round gives up on a gap only behind all eight compacted levels: with
/// fewer of them listed, none of which closes the gap, it lists the next one.
pub proof fn lemma_gap_exhausted(s: SyncView, e: SyncEventView, lists: Seq<Seq<FileInfo>>)
    requires
        s.wf(),
        at_gap(s, e),
        s.stage == SyncStage::CheckingCancel ==> s.l0[s.i].min_txid.0 <= s.l0[s.i].max_txid.0,
        lists.len() == 8,
        forall|k: int| 0 <= k < 8 ==> leaves_gap(#[trigger] lists[k], s.current),
        forall|k: int| 0 <= k < 8 ==> files_ok(#[trigger] lists[k]),
    ensures
        ({
            let s2 = sync_reaches(s, seq![e] + listings(lists));
            &&& s2.stage != SyncStage::ListingGap
            &&& s2.current == s.current
            &&& s.current == s.from && !s.saw_404 ==> s2.stage == SyncStage::Scanning && sync_asks(
                s,
                seq![e] + listings(lists),
            ) == (SyncActionView::List { level: 9, from: Txid(0) })
            &&& s.current.0 > s.from.0 ==> sync_asks(s, seq![e] + listings(lists))
                == SyncActionView::WriteTxid(s.current)
            &&& s.current == s.from && s.saw_404 ==> sync_asks(s, seq![e] + listings(lists))
                == SyncActionView::Done(s.current)
        }),
{
    let front = lists.take(7);
    lemma_gap_walk(s, e, front);
    let events = seq![e] + listings(lists);
    assert(events.drop_last() =~= seq![e] + listings(front));
    assert(events.last() == SyncEventView::Listed(lists[7]));
    let s1 = sync_reaches(s, events.drop_last());
    assert(leaves_gap(lists[7], s1.current));
    lemma_fill_gives_up(SyncView { files: lists[7], j: 0, ..s1 });
}

/// Where a round stands after the event that brought it to a gap and listings
/// that leave it open.
proof fn lemma_gap_walk(s: SyncView, e: SyncEventView, lists: Seq<Seq<FileInfo>>)
    requires
        s.wf(),
        at_gap(s, e),
        lists.len() <= 7,
        forall|k: int| 0 <= k < lists.len() ==> leaves_gap(#[trigger] lists[k], s.current),
        forall|k: int| 0 <= k < lists.len() ==> files_ok(#[trigger] lists[k]),
    ensures
        ({
            let events = seq![e] + listings(lists);
            let s2 = sync_reaches(s, events);
            &&& s2.wf()
            &&& s2.stage == SyncStage::ListingGap
            &&& s2.level == lists.len() + 1
            &&& s2.current == s.current
            &&& s2.gap_after == s.current
            &&& s2.from == s.from
            &&& s2.saw_404 == s.saw_404
            &&& s.stage == SyncStage::ListingL0 ==> s2.l0.len() == 0
            &&& s.stage == SyncStage::CheckingCancel ==> s2.l0 == s.l0 && s2.i == s.i
            &&& sync_asks(s, events) == (SyncActionView::List {
                level: (lists.len() + 1) as u8,
                from: Txid(0),
            })
        }),
    decreases lists.len(),
{
    let events = seq![e] + listings(lists);
    if lists.len() == 0 {
        assert(events.drop_last() =~= Seq::empty());
        assert(events.last() == e);
        assert(sync_reaches(s, events.drop_last()) == s);
        lemma_step_keeps_wf(s, e);
    } else {
        let front = lists.drop_last();
        assert forall|k: int| 0 <= k < front.len() implies leaves_gap(#[trigger] front[k], s.current)
            && files_ok(front[k]) by {
            assert(front[k] == lists[k]);
        }
        lemma_gap_walk(s, e, front);
        assert(events.drop_last() =~= seq![e] + listings(front));
        let last = lists[lists.len() - 1];
        assert(events.last() == SyncEventView::Listed(last));
        let s1 = sync_reaches(s, events.drop_last());
        assert(leaves_gap(last, s1.current));
        lemma_fill_gives_up(SyncView { files: last, j: 0, ..s1 });
        lemma_step_keeps_wf(s1, events.last());
    }
}

/// The files of a level that leaves the gap open are passed over.
proof fn lemma_fill_gives_up(s: SyncView)
    requires
        s.in_bounds(),
        s.j == 0,
        leaves_gap(s.files, s.current),
    ensures
        exists|j: int| fill_follow_gap(s) == end_gap_level(SyncView { j, ..s }),
{
    let n = choose|n: int|
        0 <= n <= s.files.len() && #[trigger] all_old(s.files, n, s.current) && (n == s.files.len()
            || s.files[n].min_txid.0 > s.current.0 + 1);
    lemma_fill_skips(s, n);
}

proof fn lemma_fill_skips(s: SyncView, n: int)
    requires
        0 <= s.j <= n <= s.files.len(),
        all_old(s.files, n, s.current),
    ensures
        fill_follow_gap(s) == fill_follow_gap(SyncView { j: n, ..s }),
    decreases n - s.j,
{
    if s.j < n {
        assert(s.files[s.j].max_txid.0 <= s.current.0);
        lemma_fill_skips(SyncView { j: s.j + 1, ..s }, n);
    }
}

proof fn lemma_fill_finds(s: SyncView, n: int)
    requires
        s.in_bounds(),
        s.j == 0,
        bridges(s.files, n, s.current),
    ensures
        fill_follow_gap(s) == (
            SyncView { stage: SyncStage::CheckingCancelInGap, j: n, ..s },
            SyncActionView::CheckCancel,
        ),
{
    lemma_fill_skips(s, n);
}

/// Whether `m` is the newest transaction of all these files, zero where there
/// is none.
pub open spec fn newest_of(lists: Seq<Seq<FileInfo>>, m: Txid) -> bool {
    &&& forall|k: int, i: int|
        0 <= k < lists.len() && 0 <= i < lists[k].len() ==> (#[trigger] lists[k][i]).max_txid.0 <= m.0
    &&& m.0 == 0 || exists|k: int, i: int|
        0 <= k < lists.len() && 0 <= i < lists[k].len() && (#[trigger] lists[k][i]).max_txid == m
}

/// A round that applied nothing, and saw no file vanish, looks at the whole
/// bucket before it ends: the snapshots, then every level from 8 down to 0,
/// each from its start. Only then does it decide, by the newest transaction of
/// all the files it saw: an empty bucket leaves the replica as it is; a bucket
/// that ends before the position has diverged; else the newest snapshot, if it
/// ends behind the position, is applied and its end is the new position, which
/// is persisted; and without one the replica is up to date.
pub proof fn lemma_bucket_scanned(s: SyncView, lists: Seq<Seq<FileInfo>>, m: Txid)
    requires
        s.wf(),
        s.stage == SyncStage::Scanning,
        s.level == 9,
        s.bucket_max.0 == 0,
        s.newest is None,
        lists.len() == 10,
        forall|k: int| 0 <= k < 10 ==> files_ok(#[trigger] lists[k]),
        newest_of(lists, m),
    ensures
        forall|k: int|
            1 <= k < 10 ==> sync_asks(s, #[trigger] listings(lists.take(k))) == (
            SyncActionView::List { level: (9 - k) as u8, from: Txid(0) }),
        ({
            let events = listings(lists);
            let a = sync_asks(s, events);
            &&& m.0 == 0 ==> a == SyncActionView::Done(s.current)
            &&& 0 < m.0 < s.current.0 ==> a == SyncActionView::Failed(
                ErrorView::Diverged { local: s.current, remote: m },
            )
            &&& m.0 != 0 && m.0 >= s.current.0 && (forall|i: int|
                0 <= i < lists[0].len() ==> (#[trigger] lists[0][i]).max_txid.0 <= s.current.0)
                ==> a == SyncActionView::Done(s.current)
            &&& m.0 != 0 && m.0 >= s.current.0 && (exists|i: int|
                0 <= i < lists[0].len() && (#[trigger] lists[0][i]).max_txid.0 > s.current.0) ==> {
                let applying = events.push(SyncEventView::CancelChecked(false));
                let applied = applying.push(SyncEventView::Applied);
                &&& a == SyncActionView::CheckCancel
                &&& sync_asks(s, applying) matches SyncActionView::Apply(f) && {
                    &&& exists|i: int|
                        0 <= i < lists[0].len() && file_of(#[trigger] lists[0][i]) == f
                    &&& forall|i: int|
                        0 <= i < lists[0].len() ==> (#[trigger] lists[0][i]).max_txid.0 <= f.max_txid.0
                    &&& sync_asks(s, applied) == SyncActionView::WriteTxid(f.max_txid)
                    &&& sync_asks(s, applied.push(SyncEventView::TxidWritten))
                        == SyncActionView::Done(f.max_txid)
                }
            }
        }),
{
    assert forall|k: int| 1 <= k < 10 implies sync_asks(s, #[trigger] listings(lists.take(k))) == (
    SyncActionView::List { level: (9 - k) as u8, from: Txid(0) }) by {
        lemma_scan_walk(s, lists.take(k));
    }
    let front = lists.take(9);
    lemma_scan_walk(s, front);
    let events = listings(lists);
    assert(events.drop_last() =~= listings(front));
    assert(events.last() == SyncEventView::Listed(lists[9]));
    let s1 = sync_reaches(s, events.drop_last());
    lemma_scan_max(lists[9], s1.bucket_max);
    let max = scan_max(lists[9], s1.bucket_max);
    assert(front[0] == lists[0]);
    assert(max == m) by {
        assert forall|k: int, i: int| 0 <= k < 10 && 0 <= i < lists[k].len() implies (
        #[trigger] lists[k][i]).max_txid.0 <= max.0 by {
            if k < 9 {
                assert(front[k][i] == lists[k][i]);
            }
        }
        if max.0 != 0 {
            if max != s1.bucket_max {
                let i = choose|i: int|
                    0 <= i < lists[9].len() && (#[trigger] lists[9][i]).max_txid == max;
                assert(lists[9][i].max_txid == max);
            } else {
                let (k, i) = choose|k: int, i: int|
                    0 <= k < front.len() && 0 <= i < front[k].len()
                        && (#[trigger] front[k][i]).max_txid == max;
                assert(lists[k][i].max_txid == max);
            }
        }
    }
    lemma_newest_snapshot(lists[0], None);
    let s2 = sync_reaches(s, events);
    let applying = events.push(SyncEventView::CancelChecked(false));
    let applied = applying.push(SyncEventView::Applied);
    let written = applied.push(SyncEventView::TxidWritten);
    assert(applying.drop_last() =~= events);
    assert(applied.drop_last() =~= applying);
    assert(written.drop_last() =~= applied);
}

/// Where a scan stands after the first of its listings.
proof fn lemma_scan_walk(s: SyncView, lists: Seq<Seq<FileInfo>>)
    requires
        s.wf(),
        s.stage == SyncStage::Scanning,
        s.level == 9,
        s.bucket_max.0 == 0,
        s.newest is None,
        lists.len() <= 9,
        forall|k: int| 0 <= k < lists.len() ==> files_ok(#[trigger] lists[k]),
    ensures
        ({
            let s2 = sync_reaches(s, listings(lists));
            &&& s2.stage == SyncStage::Scanning
            &&& s2.level == 9 - lists.len()
            &&& s2.current == s.current
            &&& s2.from == s.from
            &&& newest_of(lists, s2.bucket_max)
            &&& s2.newest == if lists.len() == 0 {
                None
            } else {
                scan_newest(lists[0], None)
            }
            &&& lists.len() > 0 ==> sync_asks(s, listings(lists)) == (SyncActionView::List {
                level: (9 - lists.len()) as u8,
                from: Txid(0),
            })
        }),
    decreases lists.len(),
{
    let events = listings(lists);
    if lists.len() == 0 {
        assert(events =~= Seq::empty());
    } else {
        let front = lists.drop_last();
        assert forall|k: int| 0 <= k < front.len() implies files_ok(#[trigger] front[k]) by {
            assert(front[k] == lists[k]);
        }
        lemma_scan_walk(s, front);
        assert(events.drop_last() =~= listings(front));
        let last = lists[lists.len() - 1];
        assert(events.last() == SyncEventView::Listed(last));
        let s1 = sync_reaches(s, listings(front));
        lemma_scan_max(last, s1.bucket_max);
        let max = scan_max(last, s1.bucket_max);
        assert(newest_of(lists, max)) by {
            assert forall|k: int, i: int| 0 <= k < lists.len() && 0 <= i < lists[k].len() implies (
            #[trigger] lists[k][i]).max_txid.0 <= max.0 by {
                if k < front.len() {
                    assert(front[k][i] == lists[k][i]);
                }
            }
            if max.0 != 0 {
                if max != s1.bucket_max {
                    let i = choose|i: int|
                        0 <= i < last.len() && (#[trigger] last[i]).max_txid == max;
                    assert(lists[lists.len() - 1][i].max_txid == max);
                } else {
                    let (k, i) = choose|k: int, i: int|
                        0 <= k < front.len() && 0 <= i < front[k].len()
                            && (#[trigger] front[k][i]).max_txid == max;
                    assert(lists[k][i].max_txid == max);
                }
            }
        }
        if front.len() > 0 {
            assert(front[0] == lists[0]);
        }
    }
}

/// `scan_newest` is one of the files, or the one before them, and none of
/// them is newer.
proof fn lemma_newest_snapshot(files: Seq<FileInfo>, so_far: Option<LtxFile>)
    ensures
        match scan_newest(files, so_far) {
            None => files.len() == 0 && so_far is None,
            Some(f) => {
                &&& forall|i: int|
                    0 <= i < files.len() ==> (#[trigger] files[i]).max_txid.0 <= f.max_txid.0
                &&& so_far == Some(f) || exists|i: int|
                    0 <= i < files.len() && file_of(#[trigger] files[i]) == f
                &&& so_far matches Some(g) ==> g.max_txid.0 <= f.max_txid.0
            },
        },
    decreases files.len(),
{
    if files.len() > 0 {
        let front = files.drop_last();
        lemma_newest_snapshot(front, so_far);
        let f = scan_newest(files, so_far).unwrap();
        assert forall|i: int| 0 <= i < files.len() implies (#[trigger] files[i]).max_txid.0
            <= f.max_txid.0 by {
            if i < front.len() {
                assert(front[i] == files[i]);
            }
        }
        if f == file_of(files.last()) {
            assert(file_of(files[files.len() - 1]) == f);
        } else if so_far != Some(f) {
            let i = choose|i: int| 0 <= i < front.len() && file_of(#[trigger] front[i]) == f;
            assert(files[i] == front[i]);
        }
    }
}

/// A round starts with the L0 files right behind the position, and ends at
/// once where it finds itself cancelled.
pub proof fn lemma_round_begins(from: Txid, files: Seq<FileInfo>)
    requires
        from.0 < u64::MAX,
        files.len() > 0,
    ensures
        ({
            let start = seq![SyncEventView::Start];
            let listed = start.push(SyncEventView::Listed(files));
            &&& sync_asks(sync_start(from), start) == (SyncActionView::List {
                level: 0,
                from: Txid((from.0 + 1) as u64),
            })
            &&& sync_asks(sync_start(from), listed) == SyncActionView::CheckCancel
            &&& sync_asks(sync_start(from), listed.push(SyncEventView::CancelChecked(true)))
                == SyncActionView::Failed(ErrorView::Cancelled)
        }),
{
    let s = sync_start(from);
    let start = seq![SyncEventView::Start];
    let listed = start.push(SyncEventView::Listed(files));
    let cancelled = listed.push(SyncEventView::CancelChecked(true));
    assert(start.drop_last() =~= Seq::empty());
    assert(sync_reaches(s, Seq::empty()) == s);
    assert(listed.drop_last() =~= start);
    assert(cancelled.drop_last() =~= listed);
}

/// One L0 file in hand, taken without trouble: one that ends at the position
/// or before it is passed over; one that continues the position is applied,
/// and the position is then its end. Either way the next file is in hand.
pub proof fn lemma_l0_file_taken(s: SyncView)
    requires
        s.wf(),
        s.stage == SyncStage::CheckingCancel,
        s.l0[s.i].min_txid.0 <= s.current.0 + 1,
    ensures
        ({
            let f = s.l0[s.i];
            let (s1, a1) = sync_step(s, SyncEventView::CancelChecked(false));
            let (s2, a2) = sync_step(s1, SyncEventView::Applied);
            let more = s.i + 1 < s.l0.len();
            &&& f.max_txid.0 > s.current.0 ==> {
                &&& a1 == SyncActionView::Apply(
                    LtxFile { level: f.level, min_txid: f.min_txid, max_txid: f.max_txid },
                )
                &&& s1.current == s.current
                &&& s2.current == f.max_txid
                &&& more ==> a2 == SyncActionView::CheckCancel && s2.i == s.i + 1
                &&& !more ==> a2 == SyncActionView::WriteTxid(f.max_txid)
            }
            &&& f.max_txid.0 <= s.current.0 ==> {
                &&& s1.current == s.current
                &&& more ==> a1 == SyncActionView::CheckCancel && s1.i == s.i + 1
                &&& !more && s.current.0 > s.from.0 ==> a1 == SyncActionView::WriteTxid(s.current)
                &&& !more && s.current == s.from && !s.saw_404 ==> a1 == (SyncActionView::List {
                    level: 9,
                    from: Txid(0),
                })
                &&& !more && s.current == s.from && s.saw_404 ==> a1 == SyncActionView::Done(s.current)
            }
            &&& s1.l0 == s.l0
        }),
{
}

/// A file of a compacted level moves the position to its end. Once the L0 file
/// in front of which the gap stood continues the position, that file is
/// applied; before, the next file of the level that continues it is.
pub proof fn lemma_gap_file_taken(s: SyncView)
    requires
        s.wf(),
        s.stage == SyncStage::ApplyingInGap,
    ensures
        ({
            let f = s.files[s.j];
            let (s2, a) = sync_step(s, SyncEventView::Applied);
            &&& s2.current == f.max_txid
            &&& s.l0.len() > 0 && s.gap_min == s.l0[s.i].min_txid && s.l0[s.i].min_txid.0
                <= f.max_txid.0 + 1 && s.l0[s.i].max_txid.0 > f.max_txid.0 ==> a
                == SyncActionView::Apply(file_of(s.l0[s.i]))
            &&& s.gap_min.0 > f.max_txid.0 + 1 && s.j + 1 < s.files.len() && s.files[s.j
                + 1].min_txid.0 <= f.max_txid.0 + 1 && s.files[s.j + 1].max_txid.0 > f.max_txid.0
                ==> a == SyncActionView::CheckCancel && sync_step(
                s2,
                SyncEventView::CancelChecked(false),
            ).1 == SyncActionView::Apply(file_of(s.files[s.j + 1]))
        }),
{
    let s1 = SyncView { current: s.files[s.j].max_txid, ..s };
    lemma_fill_actions(SyncView { j: s.j + 1, ..s1 });
}

/// A listed file that vanished ends a round early but well: the position
/// reached so far is persisted if it moved, and the bucket is not scanned, so
/// no snapshot is applied and no divergence declared on its account. Every
/// other failure to apply a file ends the round with that failure, and a
/// cancellation that is seen ends it as cancelled.
pub proof fn lemma_round_breaks(s: SyncView, e: SyncEventView)
    requires
        s.wf(),
    ensures
        ({
            let (s2, a) = sync_step(s, e);
            let applying = s.stage == SyncStage::Applying || s.stage == SyncStage::ApplyingInGap
                || s.stage == SyncStage::ApplyingSnapshot;
            let vanished = e matches SyncEventView::ApplyFailed(
                ErrorView::Storage(StorageErrorView::NotFound { .. }),
            );
            &&& e == SyncEventView::CancelChecked(true) && (s.stage == SyncStage::CheckingCancel
                || s.stage == SyncStage::CheckingCancelInGap || s.stage
                == SyncStage::CheckingCancelForSnapshot) ==> a == SyncActionView::Failed(
                ErrorView::Cancelled,
            )
            &&& applying && !vanished ==> (e matches SyncEventView::ApplyFailed(err) ==> a
                == SyncActionView::Failed(err))
            &&& s.stage == SyncStage::ApplyingSnapshot ==> (e matches SyncEventView::ApplyFailed(err)
                ==> a == SyncActionView::Failed(err))
            &&& s.stage == SyncStage::Applying && vanished ==> a == if s.current.0 > s.from.0 {
                SyncActionView::WriteTxid(s.current)
            } else {
                SyncActionView::Done(s.current)
            }
            &&& s.stage == SyncStage::ApplyingInGap && vanished ==> s2.saw_404 && s2.current
                == s.current && !(a is List) && !(a is Failed)
            &&& s.saw_404 ==> s2.saw_404 && s2.stage != SyncStage::Scanning
        }),
{
    match (s.stage, e) {
        (SyncStage::ListingGap, SyncEventView::Listed(files)) => {
            lemma_fill_keeps_404(SyncView { files, j: 0, ..s });
        },
        (SyncStage::ApplyingInGap, SyncEventView::Applied) => {
            let s1 = SyncView { current: s.files[s.j].max_txid, ..s };
            lemma_fill_keeps_404(SyncView { j: s.j + 1, ..s1 });
        },
        _ => {},
    }
}

proof fn lemma_fill_keeps_404(s: SyncView)
    requires
        0 <= s.j <= s.files.len(),
        s.stage != SyncStage::Scanning,
    ensures
        s.saw_404 ==> fill_follow_gap(s).0.saw_404 && fill_follow_gap(s).0.stage
            != SyncStage::Scanning,
    decreases s.files.len() - s.j,
{
    if s.j < s.files.len() && s.files[s.j].min_txid.0 <= s.current.0 + 1 && s.files[s.j].max_txid.0
        <= s.current.0 {
        lemma_fill_keeps_404(SyncView { j: s.j + 1, ..s });
    }
}

/// Whether a round that moved to `at` in a gap, and is through with it, goes
/// on where it should: the L0 file in front of the gap is applied where it
/// continues `at`; passed over for the next one where it ends there already;
/// and else, or without such a file, the round ends and persists `at`.
pub open spec fn back_at_l0(s: SyncView, at: Txid, s2: SyncView, a: SyncActionView) -> bool {
    let f = s.l0[s.i];
    &&& s2.current == at
    &&& s2.l0 == s.l0
    &&& if s.l0.len() == 0 || (f.max_txid.0 > at.0 && f.min_txid.0 > at.0 + 1) {
        a == SyncActionView::WriteTxid(at)
    } else if f.max_txid.0 > at.0 {
        a == SyncActionView::Apply(
            LtxFile { level: f.level, min_txid: f.min_txid, max_txid: f.max_txid },
        ) && s2.i == s.i
    } else if s.i + 1 < s.l0.len() {
        a == SyncActionView::CheckCancel && s2.i == s.i + 1 && s2.stage == SyncStage::CheckingCancel
    } else {
        a == SyncActionView::WriteTxid(at)
    }
}

/// What follows a file that was applied in a gap. Once the gap is closed the
/// round is back at its L0 files. Before, the first further file of the level
/// that ends behind the position is next if it continues the position; where
/// it does not, or where there is none, the level is used up and the round
/// goes back to its L0 files with what it has.
pub proof fn lemma_gap_goes_on(s: SyncView, n: int)
    requires
        s.wf(),
        s.stage == SyncStage::ApplyingInGap,
        s.j < n <= s.files.len(),
        forall|k: int|
            s.j < k < n ==> (#[trigger] s.files[k]).max_txid.0 <= s.files[s.j].max_txid.0
                && s.files[k].min_txid.0 <= s.files[s.j].max_txid.0 + 1,
    ensures
        ({
            let at = s.files[s.j].max_txid;
            let (s2, a) = sync_step(s, SyncEventView::Applied);
            let closed = s.gap_min.0 <= at.0 + 1;
            let used_up = n == s.files.len() || s.files[n].min_txid.0 > at.0 + 1;
            &&& closed || used_up ==> back_at_l0(s, at, s2, a)
            &&& !closed && !used_up && s.files[n].max_txid.0 > at.0 ==> {
                &&& a == SyncActionView::CheckCancel
                &&& s2.current == at
                &&& sync_step(s2, SyncEventView::CancelChecked(false)).1 == SyncActionView::Apply(
                    file_of(s.files[n]),
                )
            }
        }),
{
    let at = s.files[s.j].max_txid;
    let s1 = SyncView { current: at, j: s.j + 1, ..s };
    lemma_fill_skips_from(s1, n);
}

proof fn lemma_fill_skips_from(s: SyncView, n: int)
    requires
        0 <= s.j <= n <= s.files.len(),
        forall|k: int|
            s.j <= k < n ==> (#[trigger] s.files[k]).max_txid.0 <= s.current.0 && s.files[k].min_txid.0
                <= s.current.0 + 1,
    ensures
        fill_follow_gap(s) == fill_follow_gap(SyncView { j: n, ..s }),
    decreases n - s.j,
{
    if s.j < n {
        assert(s.files[s.j].max_txid.0 <= s.current.0);
        lemma_fill_skips_from(SyncView { j: s.j + 1, ..s }, n);
    }
}

/// What follows a file of a gap that vanished: nothing more of the level is
/// tried. The L0 file in front of the gap is taken up where the position
/// reached so far allows it, and else the round ends there, without a look at
/// the rest of the bucket. And a position that was persisted is reported.
pub proof fn lemma_gap_file_lost(s: SyncView, err: ErrorView)
    requires
        s.wf(),
        s.stage == SyncStage::ApplyingInGap,
        err matches ErrorView::Storage(StorageErrorView::NotFound { .. }),
    ensures
        ({
            let (s2, a) = sync_step(s, SyncEventView::ApplyFailed(err));
            let f = s.l0[s.i];
            let ends = a == if s.current.0 > s.from.0 {
                SyncActionView::WriteTxid(s.current)
            } else {
                SyncActionView::Done(s.current)
            };
            &&& s2.current == s.current
            &&& if s.l0.len() == 0 || (f.max_txid.0 > s.current.0 && f.min_txid.0 > s.current.0 + 1) {
                ends
            } else if f.max_txid.0 > s.current.0 {
                a == SyncActionView::Apply(file_of(f))
            } else if s.i + 1 < s.l0.len() {
                a == SyncActionView::CheckCancel && s2.i == s.i + 1
            } else {
                ends
            }
            &&& a is WriteTxid ==> sync_step(s2, SyncEventView::TxidWritten).1 == SyncActionView::Done(
                s.current,
            )
        }),
{
}

/// An event that does not answer what a round asked for changes nothing, and
/// nothing answers a round that has ended. A round that persists its position
/// ends with it.
pub proof fn lemma_round_unanswered(s: SyncView, e: SyncEventView)
    ensures
        sync_step(s, e).1 is Unexpected ==> sync_step(s, e).0 == s,
        s.stage == SyncStage::Ended ==> sync_step(s, e).1 is Unexpected,
        s.stage == SyncStage::WritingTxid ==> sync_step(s, SyncEventView::TxidWritten).1
            == SyncActionView::Done(s.current),
{
    match (s.stage, e) {
        (SyncStage::ListingGap, SyncEventView::Listed(files)) => {
            lemma_fill_answers(SyncView { files, j: 0, ..s });
        },
        (SyncStage::ApplyingInGap, SyncEventView::Applied) => {
            let s1 = SyncView { current: s.files[s.j].max_txid, ..s };
            lemma_fill_answers(SyncView { j: s.j + 1, ..s1 });
        },
        _ => {},
    }
}

proof fn lemma_fill_answers(s: SyncView)
    ensures
        !(fill_follow_gap(s).1 is Unexpected),
    decreases s.files.len() - s.j,
{
    if s.j < s.files.len() && s.files[s.j].min_txid.0 <= s.current.0 + 1 && s.files[s.j].max_txid.0
        <= s.current.0 {
        lemma_fill_answers(SyncView { j: s.j + 1, ..s });
    }
}

} // verus!
