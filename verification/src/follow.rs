//! Following a bucket continuously: sync, then apply transactions as they
//! arrive over the backend's live stream, with polling where there is none.
//!
//! A state machine: [`Follow`] holds where a follower stands; a step takes
//! what the last action came to and gives the next action. Every stream
//! anomaly (gap, reseed, non-contiguous frame, corrupt file) routes back
//! through a sync, which owns the restore/bridge/divergence logic; following
//! never invents its own recovery. The position sidecar advances after every
//! applied transaction, so a killed follower resumes exactly where it stopped.
//!
//! A failure to read the position ends following with its own error.

use vstd::prelude::*;

use crate::error::Error;
#[allow(unused_imports)]
use crate::error::ErrorView;
use crate::ltx::types::is_contiguous;
#[allow(unused_imports)]
use crate::ltx::types::contiguous;
use crate::ltx::Txid;
use crate::storage::StorageError;
#[allow(unused_imports)]
use crate::storage::StorageErrorView;
#[allow(unused_imports)]
use crate::upload::from_storage;

verus! {

/// What a live stream delivers.
#[derive(Debug, Clone, Copy, PartialEq, Eq)]
pub enum StreamEvent {
    /// A complete LTX file, now in the spool.
    Ltx { min_txid: Txid, max_txid: Txid },
    /// Nothing new; the bucket's newest transaction where it is known.
    Idle { bucket_max: Option<Txid> },
    /// The stream cannot start where it was asked to.
    Gap,
    /// The bucket was reseeded.
    Reset,
    /// The stream ended.
    Closed,
    /// An event this version does not know.
    Unknown,
}

/// Where a follower stands.
#[derive(Debug, Clone, Copy, PartialEq, Eq, Structural)]
pub enum FollowStage {
    CheckingCancel,
    ReadingPosition,
    Syncing,
    ReadingPositionAgain,
    OpeningStream,
    OpeningDatabase,
    CheckingCancelInStream,
    RemovingSpoolToStop,
    CreatingSpool,
    Streaming,
    SyncingSpool,
    Applying,
    WritingTxid,
    RemovingSpool,
    /// Waiting out the poll interval.
    Polling,
    /// Waiting out a retry's backoff.
    BackingOff,
    Ended,
}

/// A follower of one bucket.
#[derive(Debug)]
pub struct Follow {
    pub stage: FollowStage,
    /// Whether transient failures are retried.
    pub retry: bool,
    /// Consecutive transient failures, driving the retry backoff; progress
    /// resets it, and so does a round that ends without a failure. Waiting for
    /// an empty bucket never touches it.
    pub attempt: u32,
    /// The position before this round's sync.
    pub before: Txid,
    /// The position now.
    pub position: Txid,
    pub made_progress: bool,
    /// The last transaction of the frame in the spool.
    pub frame_max: Txid,
    /// What ended this round's stream, if it failed.
    pub stream_err: Option<Error>,
}

/// What the last action came to.
#[derive(Debug)]
pub enum FollowEvent {
    Start,
    /// Whether following was cancelled.
    CancelChecked(bool),
    /// The position in the sidecar.
    Position(Txid),
    Synced,
    SyncFailed(Error),
    StreamOpened,
    /// The backend has no live stream.
    NoStream,
    StreamFailed(StorageError),
    DatabaseOpened,
    DatabaseFailed(Error),
    SpoolCreated,
    Stream(StreamEvent),
    /// The stream broke.
    StreamBroke(StorageError),
    SpoolSynced,
    Applied,
    ApplyFailed(Error),
    TxidWritten,
    /// A write to the spool or the sidecar failed.
    WriteFailed(Error),
    SpoolRemoved,
    /// The wait is over; whether it was cut short by a cancellation.
    Slept(bool),
}

/// What to do next.
#[derive(Debug)]
pub enum FollowAction {
    CheckCancel,
    ReadPosition,
    /// Bring the replica up to date.
    Sync,
    /// Open the live stream from this transaction on.
    OpenStream(Txid),
    /// Open the replica for page application.
    OpenDatabase,
    /// Start a new spool file.
    CreateSpool,
    /// Wait for the stream's next event.
    NextFrame,
    /// Flush the spool file.
    SyncSpool,
    /// Apply the spooled file.
    Apply,
    /// Persist the position.
    WriteTxid(Txid),
    RemoveSpool,
    /// Wait out the poll interval.
    SleepPoll,
    /// Wait out the backoff of this attempt.
    SleepRetry(u32),
    /// Following was cancelled.
    Stopped,
    Failed(Error),
    /// The event does not answer the last action; nothing changed.
    Unexpected,
}

/// The mathematical counterpart of [`Follow`].
#[verifier::ext_equal]
pub struct FollowView {
    pub stage: FollowStage,
    pub retry: bool,
    pub attempt: u32,
    pub before: Txid,
    pub position: Txid,
    pub made_progress: bool,
    pub frame_max: Txid,
    pub stream_err: Option<ErrorView>,
}

/// The mathematical counterpart of [`FollowEvent`].
#[verifier::ext_equal]
pub enum FollowEventView {
    Start,
    CancelChecked(bool),
    Position(Txid),
    Synced,
    SyncFailed(ErrorView),
    StreamOpened,
    NoStream,
    StreamFailed(StorageErrorView),
    DatabaseOpened,
    DatabaseFailed(ErrorView),
    SpoolCreated,
    Stream(StreamEvent),
    StreamBroke(StorageErrorView),
    SpoolSynced,
    Applied,
    ApplyFailed(ErrorView),
    TxidWritten,
    WriteFailed(ErrorView),
    SpoolRemoved,
    Slept(bool),
}

/// The mathematical counterpart of [`FollowAction`].
#[verifier::ext_equal]
pub enum FollowActionView {
    CheckCancel,
    ReadPosition,
    Sync,
    OpenStream(Txid),
    OpenDatabase,
    CreateSpool,
    NextFrame,
    SyncSpool,
    Apply,
    WriteTxid(Txid),
    RemoveSpool,
    SleepPoll,
    SleepRetry(u32),
    Stopped,
    Failed(ErrorView),
    Unexpected,
}

impl View for Follow {
    type V = FollowView;

    open spec fn view(&self) -> FollowView {
        FollowView {
            stage: self.stage,
            retry: self.retry,
            attempt: self.attempt,
            before: self.before,
            position: self.position,
            made_progress: self.made_progress,
            frame_max: self.frame_max,
            stream_err: match self.stream_err {
                Some(e) => Some(e@),
                None => None,
            },
        }
    }
}

impl View for FollowEvent {
    type V = FollowEventView;

    open spec fn view(&self) -> FollowEventView {
        match self {
            FollowEvent::Start => FollowEventView::Start,
            FollowEvent::CancelChecked(b) => FollowEventView::CancelChecked(*b),
            FollowEvent::Position(t) => FollowEventView::Position(*t),
            FollowEvent::Synced => FollowEventView::Synced,
            FollowEvent::SyncFailed(e) => FollowEventView::SyncFailed(e@),
            FollowEvent::StreamOpened => FollowEventView::StreamOpened,
            FollowEvent::NoStream => FollowEventView::NoStream,
            FollowEvent::StreamFailed(e) => FollowEventView::StreamFailed(e@),
            FollowEvent::DatabaseOpened => FollowEventView::DatabaseOpened,
            FollowEvent::DatabaseFailed(e) => FollowEventView::DatabaseFailed(e@),
            FollowEvent::SpoolCreated => FollowEventView::SpoolCreated,
            FollowEvent::Stream(e) => FollowEventView::Stream(*e),
            FollowEvent::StreamBroke(e) => FollowEventView::StreamBroke(e@),
            FollowEvent::SpoolSynced => FollowEventView::SpoolSynced,
            FollowEvent::Applied => FollowEventView::Applied,
            FollowEvent::ApplyFailed(e) => FollowEventView::ApplyFailed(e@),
            FollowEvent::TxidWritten => FollowEventView::TxidWritten,
            FollowEvent::WriteFailed(e) => FollowEventView::WriteFailed(e@),
            FollowEvent::SpoolRemoved => FollowEventView::SpoolRemoved,
            FollowEvent::Slept(b) => FollowEventView::Slept(*b),
        }
    }
}

impl View for FollowAction {
    type V = FollowActionView;

    open spec fn view(&self) -> FollowActionView {
        match self {
            FollowAction::CheckCancel => FollowActionView::CheckCancel,
            FollowAction::ReadPosition => FollowActionView::ReadPosition,
            FollowAction::Sync => FollowActionView::Sync,
            FollowAction::OpenStream(t) => FollowActionView::OpenStream(*t),
            FollowAction::OpenDatabase => FollowActionView::OpenDatabase,
            FollowAction::CreateSpool => FollowActionView::CreateSpool,
            FollowAction::NextFrame => FollowActionView::NextFrame,
            FollowAction::SyncSpool => FollowActionView::SyncSpool,
            FollowAction::Apply => FollowActionView::Apply,
            FollowAction::WriteTxid(t) => FollowActionView::WriteTxid(*t),
            FollowAction::RemoveSpool => FollowActionView::RemoveSpool,
            FollowAction::SleepPoll => FollowActionView::SleepPoll,
            FollowAction::SleepRetry(n) => FollowActionView::SleepRetry(*n),
            FollowAction::Stopped => FollowActionView::Stopped,
            FollowAction::Failed(e) => FollowActionView::Failed(e@),
            FollowAction::Unexpected => FollowActionView::Unexpected,
        }
    }
}

/// The follower stops cleanly.
pub open spec fn stops(f: FollowView) -> (FollowView, FollowActionView) {
    (FollowView { stage: FollowStage::Ended, ..f }, FollowActionView::Stopped)
}

/// Starts over with a sync.
pub open spec fn next_round(f: FollowView) -> (FollowView, FollowActionView) {
    (FollowView { stage: FollowStage::CheckingCancel, ..f }, FollowActionView::CheckCancel)
}

/// Waits out the poll interval.
pub open spec fn polls(f: FollowView) -> (FollowView, FollowActionView) {
    (FollowView { stage: FollowStage::Polling, ..f }, FollowActionView::SleepPoll)
}

/// A transient failure backs off where retrying is on; every other one ends
/// following.
pub open spec fn retries_or_fails(f: FollowView, e: ErrorView) -> (FollowView, FollowActionView) {
    if e.transient() && f.retry {
        (
            FollowView { stage: FollowStage::BackingOff, ..f },
            FollowActionView::SleepRetry(f.attempt),
        )
    } else {
        (FollowView { stage: FollowStage::Ended, ..f }, FollowActionView::Failed(e))
    }
}

/// The next turn of the stream.
pub open spec fn next_turn(f: FollowView) -> (FollowView, FollowActionView) {
    (
        FollowView { stage: FollowStage::CheckingCancelInStream, ..f },
        FollowActionView::CheckCancel,
    )
}

/// The stream is over. Without an error the next sync takes up what it
/// brought up.
pub open spec fn ends_stream(f: FollowView, e: Option<ErrorView>) -> (FollowView, FollowActionView) {
    (
        FollowView { stage: FollowStage::RemovingSpool, stream_err: e, ..f },
        FollowActionView::RemoveSpool,
    )
}

/// Whether a failed apply is for the next sync to route.
pub open spec fn resyncs(e: ErrorView) -> bool {
    e is Diverged || e is Ltx || e is Storage
}

/// What an event of the stream leads to.
pub open spec fn on_stream(f: FollowView, e: StreamEvent) -> (FollowView, FollowActionView) {
    match e {
        StreamEvent::Ltx { min_txid, max_txid } => if max_txid.0 <= f.position.0 {
            // Stale frame, already applied.
            next_turn(f)
        } else if !contiguous(f.position, min_txid, max_txid) {
            // Gapped frame: bridge via a sync.
            ends_stream(f, None)
        } else {
            (
                FollowView { stage: FollowStage::SyncingSpool, frame_max: max_txid, ..f },
                FollowActionView::SyncSpool,
            )
        },
        StreamEvent::Idle { bucket_max } => {
            // A non-empty bucket below our position is positive evidence of
            // divergence: the sync confirms and routes it.
            if bucket_max matches Some(m) && m.0 != 0 && m.0 < f.position.0 {
                ends_stream(f, None)
            } else {
                next_turn(f)
            }
        },
        _ => ends_stream(f, None),
    }
}

/// A round ended without a failure: a row of failures is over.
pub open spec fn row_over(f: FollowView) -> FollowView {
    FollowView { attempt: 0, ..f }
}

/// The end of a round: a broken stream backs off or fails; one that moved
/// nothing waits before the next sync, so a pruned or stalled bucket cannot
/// induce a hot spin.
pub open spec fn ends_round(f: FollowView) -> (FollowView, FollowActionView) {
    let f2 = FollowView {
        attempt: if f.made_progress || f.stream_err is None {
            0
        } else {
            f.attempt
        },
        stream_err: None,
        ..f
    };
    match f.stream_err {
        Some(ErrorView::Cancelled) => stops(f2),
        Some(e) => retries_or_fails(f2, e),
        None => if f.made_progress {
            next_round(f2)
        } else {
            polls(f2)
        },
    }
}

/// One step of following.
pub open spec fn follow_step(f: FollowView, e: FollowEventView) -> (FollowView, FollowActionView) {
    match (f.stage, e) {
        (FollowStage::CheckingCancel, FollowEventView::Start) => next_round(f),
        (FollowStage::CheckingCancel, FollowEventView::CancelChecked(cancelled)) => if cancelled {
            stops(f)
        } else {
            (
                FollowView { stage: FollowStage::ReadingPosition, ..f },
                FollowActionView::ReadPosition,
            )
        },
        (FollowStage::ReadingPosition, FollowEventView::Position(t)) => (
            FollowView { stage: FollowStage::Syncing, before: t, ..f },
            FollowActionView::Sync,
        ),
        (FollowStage::Syncing, FollowEventView::Synced) => (
            FollowView { stage: FollowStage::ReadingPositionAgain, ..f },
            FollowActionView::ReadPosition,
        ),
        (FollowStage::Syncing, FollowEventView::SyncFailed(err)) => match err {
            ErrorView::Cancelled => stops(f),
            // Empty bucket: the writer has not seeded it yet. Wait.
            ErrorView::TxNotAvailable => polls(f),
            _ => retries_or_fails(f, err),
        },
        (FollowStage::ReadingPositionAgain, FollowEventView::Position(t)) => (
            FollowView {
                stage: FollowStage::OpeningStream,
                attempt: if t.0 > f.before.0 {
                    0
                } else {
                    f.attempt
                },
                position: t,
                made_progress: t.0 > f.before.0,
                ..f
            },
            FollowActionView::OpenStream(Txid((t.0 + 1) as u64)),
        ),
        (FollowStage::OpeningStream, FollowEventView::StreamOpened) => (
            FollowView { stage: FollowStage::OpeningDatabase, ..f },
            FollowActionView::OpenDatabase,
        ),
        (FollowStage::OpeningStream, FollowEventView::NoStream) => polls(row_over(f)),
        (FollowStage::OpeningStream, FollowEventView::StreamFailed(err)) => if err is Cancelled {
            stops(f)
        } else {
            retries_or_fails(f, ErrorView::Storage(err))
        },
        (FollowStage::OpeningDatabase, FollowEventView::DatabaseOpened) => next_turn(f),
        (FollowStage::OpeningDatabase, FollowEventView::DatabaseFailed(err)) => retries_or_fails(f, err),
        (FollowStage::CheckingCancelInStream, FollowEventView::CancelChecked(cancelled)) => if cancelled {
            (
                FollowView { stage: FollowStage::RemovingSpoolToStop, ..f },
                FollowActionView::RemoveSpool,
            )
        } else {
            (FollowView { stage: FollowStage::CreatingSpool, ..f }, FollowActionView::CreateSpool)
        },
        (FollowStage::RemovingSpoolToStop, FollowEventView::SpoolRemoved) => stops(f),
        (FollowStage::CreatingSpool, FollowEventView::SpoolCreated) => (
            FollowView { stage: FollowStage::Streaming, ..f },
            FollowActionView::NextFrame,
        ),
        (FollowStage::CreatingSpool, FollowEventView::WriteFailed(err)) => ends_stream(f, Some(err)),
        (FollowStage::Streaming, FollowEventView::Stream(event)) => on_stream(f, event),
        (FollowStage::Streaming, FollowEventView::StreamBroke(err)) => ends_stream(
            f,
            Some(from_storage(err)),
        ),
        (FollowStage::SyncingSpool, FollowEventView::SpoolSynced) => (
            FollowView { stage: FollowStage::Applying, ..f },
            FollowActionView::Apply,
        ),
        (FollowStage::SyncingSpool, FollowEventView::WriteFailed(err)) => ends_stream(f, Some(err)),
        (FollowStage::Applying, FollowEventView::Applied) => (
            FollowView { stage: FollowStage::WritingTxid, position: f.frame_max, ..f },
            FollowActionView::WriteTxid(f.frame_max),
        ),
        (FollowStage::Applying, FollowEventView::ApplyFailed(err)) => ends_stream(
            f,
            if resyncs(err) {
                None
            } else {
                Some(err)
            },
        ),
        (FollowStage::WritingTxid, FollowEventView::TxidWritten) => next_turn(
            FollowView { made_progress: true, ..f },
        ),
        (FollowStage::WritingTxid, FollowEventView::WriteFailed(err)) => ends_stream(f, Some(err)),
        (FollowStage::RemovingSpool, FollowEventView::SpoolRemoved) => ends_round(f),
        (FollowStage::Polling, FollowEventView::Slept(cancelled)) => if cancelled {
            stops(f)
        } else {
            next_round(f)
        },
        (FollowStage::BackingOff, FollowEventView::Slept(cancelled)) => if cancelled {
            stops(f)
        } else {
            next_round(
                FollowView {
                    attempt: if f.attempt == u32::MAX {
                        u32::MAX
                    } else {
                        (f.attempt + 1) as u32
                    },
                    ..f
                },
            )
        },
        _ => (f, FollowActionView::Unexpected),
    }
}

impl Follow {
    /// A follower at the start. With `retry`, transient failures wait out a
    /// backoff instead of ending it.
    pub fn new(retry: bool) -> (f: Follow)
        ensures
            f@ == (FollowView {
                stage: FollowStage::CheckingCancel,
                retry,
                attempt: 0,
                before: Txid(0),
                position: Txid(0),
                made_progress: false,
                frame_max: Txid(0),
                stream_err: None,
            }),
    {
        Follow {
            stage: FollowStage::CheckingCancel,
            retry,
            attempt: 0,
            before: Txid(0),
            position: Txid(0),
            made_progress: false,
            frame_max: Txid(0),
            stream_err: None,
        }
    }

    fn stop(&mut self) -> (a: FollowAction)
        ensures
            (final(self)@, a@) == stops(old(self)@),
    {
        self.stage = FollowStage::Ended;
        FollowAction::Stopped
    }

    fn next_round(&mut self) -> (a: FollowAction)
        ensures
            (final(self)@, a@) == next_round(old(self)@),
    {
        self.stage = FollowStage::CheckingCancel;
        FollowAction::CheckCancel
    }

    fn poll(&mut self) -> (a: FollowAction)
        ensures
            (final(self)@, a@) == polls(old(self)@),
    {
        self.stage = FollowStage::Polling;
        FollowAction::SleepPoll
    }

    fn retry_or_fail(&mut self, e: Error) -> (a: FollowAction)
        ensures
            (final(self)@, a@) == retries_or_fails(old(self)@, e@),
    {
        if e.is_transient() && self.retry {
            self.stage = FollowStage::BackingOff;
            FollowAction::SleepRetry(self.attempt)
        } else {
            self.stage = FollowStage::Ended;
            FollowAction::Failed(e)
        }
    }

    fn next_turn(&mut self) -> (a: FollowAction)
        ensures
            (final(self)@, a@) == next_turn(old(self)@),
    {
        self.stage = FollowStage::CheckingCancelInStream;
        FollowAction::CheckCancel
    }

    fn end_stream(&mut self, e: Option<Error>) -> (a: FollowAction)
        ensures
            (final(self)@, a@) == ends_stream(
                old(self)@,
                match e {
                    Some(x) => Some(x@),
                    None => None,
                },
            ),
    {
        self.stage = FollowStage::RemovingSpool;
        self.stream_err = e;
        FollowAction::RemoveSpool
    }

    fn on_stream(&mut self, event: StreamEvent) -> (a: FollowAction)
        ensures
            (final(self)@, a@) == on_stream(old(self)@, event),
    {
        match event {
            StreamEvent::Ltx { min_txid, max_txid } => {
                if max_txid.0 <= self.position.0 {
                    return self.next_turn();
                }
                if !is_contiguous(self.position, min_txid, max_txid) {
                    return self.end_stream(None);
                }
                self.stage = FollowStage::SyncingSpool;
                self.frame_max = max_txid;
                FollowAction::SyncSpool
            },
            StreamEvent::Idle { bucket_max } => match bucket_max {
                Some(m) => if !m.is_zero() && m.0 < self.position.0 {
                    self.end_stream(None)
                } else {
                    self.next_turn()
                },
                None => self.next_turn(),
            },
            _ => self.end_stream(None),
        }
    }

    fn end_round(&mut self) -> (a: FollowAction)
        ensures
            (final(self)@, a@) == ends_round(old(self)@),
    {
        let err: Option<Error> = self.stream_err.take();
        if self.made_progress || err.is_none() {
            self.attempt = 0;
        }
        match err {
            // A cancelled stream (token-aware backend) is a clean stop.
            Some(Error::Cancelled) => self.stop(),
            Some(e) => self.retry_or_fail(e),
            None => if self.made_progress {
                self.next_round()
            } else {
                self.poll()
            },
        }
    }

    /// Follows the bucket until cancelled or a fatal error: one step.
    /// Cancellation is a clean stop, not an error.
    pub fn follow(&mut self, event: FollowEvent) -> (a: FollowAction)
        requires
            event matches FollowEvent::Position(t) ==> t.0 < u64::MAX,
        ensures
            (final(self)@, a@) == follow_step(old(self)@, event@),
    {
        match (self.stage, event) {
            (FollowStage::CheckingCancel, FollowEvent::Start) => self.next_round(),
            (FollowStage::CheckingCancel, FollowEvent::CancelChecked(cancelled)) => {
                if cancelled {
                    return self.stop();
                }
                self.stage = FollowStage::ReadingPosition;
                FollowAction::ReadPosition
            },
            (FollowStage::ReadingPosition, FollowEvent::Position(t)) => {
                self.before = t;
                self.stage = FollowStage::Syncing;
                FollowAction::Sync
            },
            (FollowStage::Syncing, FollowEvent::Synced) => {
                self.stage = FollowStage::ReadingPositionAgain;
                FollowAction::ReadPosition
            },
            (FollowStage::Syncing, FollowEvent::SyncFailed(e)) => match e {
                Error::Cancelled => self.stop(),
                Error::TxNotAvailable => self.poll(),
                e => self.retry_or_fail(e),
            },
            (FollowStage::ReadingPositionAgain, FollowEvent::Position(t)) => {
                self.position = t;
                // A sync that moved nothing is no progress: the failures of a
                // stream that stays down still count as consecutive.
                self.made_progress = t.0 > self.before.0;
                if self.made_progress {
                    self.attempt = 0;
                }
                self.stage = FollowStage::OpeningStream;
                FollowAction::OpenStream(Txid(t.0 + 1))
            },
            (FollowStage::OpeningStream, FollowEvent::StreamOpened) => {
                // The database is opened anew after every sync: a full restore
                // replaces the file, and a reseeded bucket may change the page
                // size.
                self.stage = FollowStage::OpeningDatabase;
                FollowAction::OpenDatabase
            },
            (FollowStage::OpeningStream, FollowEvent::NoStream) => {
                self.attempt = 0;
                self.poll()
            },
            (FollowStage::OpeningStream, FollowEvent::StreamFailed(e)) => match e {
                StorageError::Cancelled => self.stop(),
                e => self.retry_or_fail(Error::Storage(e)),
            },
            (FollowStage::OpeningDatabase, FollowEvent::DatabaseOpened) => self.next_turn(),
            (FollowStage::OpeningDatabase, FollowEvent::DatabaseFailed(e)) => self.retry_or_fail(e),
            (FollowStage::CheckingCancelInStream, FollowEvent::CancelChecked(cancelled)) => {
                if cancelled {
                    self.stage = FollowStage::RemovingSpoolToStop;
                    return FollowAction::RemoveSpool;
                }
                self.stage = FollowStage::CreatingSpool;
                FollowAction::CreateSpool
            },
            (FollowStage::RemovingSpoolToStop, FollowEvent::SpoolRemoved) => self.stop(),
            (FollowStage::CreatingSpool, FollowEvent::SpoolCreated) => {
                self.stage = FollowStage::Streaming;
                FollowAction::NextFrame
            },
            (FollowStage::CreatingSpool, FollowEvent::WriteFailed(e)) => self.end_stream(Some(e)),
            (FollowStage::Streaming, FollowEvent::Stream(event)) => self.on_stream(event),
            (FollowStage::Streaming, FollowEvent::StreamBroke(e)) => self.end_stream(
                Some(Error::from(e)),
            ),
            (FollowStage::SyncingSpool, FollowEvent::SpoolSynced) => {
                self.stage = FollowStage::Applying;
                FollowAction::Apply
            },
            (FollowStage::SyncingSpool, FollowEvent::WriteFailed(e)) => self.end_stream(Some(e)),
            (FollowStage::Applying, FollowEvent::Applied) => {
                self.position = self.frame_max;
                self.stage = FollowStage::WritingTxid;
                FollowAction::WriteTxid(self.position)
            },
            (FollowStage::Applying, FollowEvent::ApplyFailed(e)) => match e {
                // Divergence, checksum/decode failures, and storage errors
                // re-run through a sync.
                Error::Diverged { .. } => self.end_stream(None),
                Error::Ltx(_) => self.end_stream(None),
                Error::Storage(_) => self.end_stream(None),
                e => self.end_stream(Some(e)),
            },
            (FollowStage::WritingTxid, FollowEvent::TxidWritten) => {
                self.made_progress = true;
                self.next_turn()
            },
            (FollowStage::WritingTxid, FollowEvent::WriteFailed(e)) => self.end_stream(Some(e)),
            (FollowStage::RemovingSpool, FollowEvent::SpoolRemoved) => self.end_round(),
            (FollowStage::Polling, FollowEvent::Slept(cancelled)) => {
                if cancelled {
                    return self.stop();
                }
                self.next_round()
            },
            (FollowStage::BackingOff, FollowEvent::Slept(cancelled)) => {
                if cancelled {
                    return self.stop();
                }
                self.attempt = self.attempt.saturating_add(1);
                self.next_round()
            },
            _ => FollowAction::Unexpected,
        }
    }
}

/// Cancellation is a clean stop: wherever a sync, the stream or a wait reports
/// it, following stops without an error.
pub proof fn lemma_cancel_is_clean(f: FollowView, e: FollowEventView)
    requires
        f.stage != FollowStage::Ended,
    ensures
        ({
            let a = follow_step(f, e).1;
            &&& a == FollowActionView::Failed(ErrorView::Cancelled) ==> e
                == FollowEventView::DatabaseFailed(ErrorView::Cancelled)
            &&& f.stage == FollowStage::CheckingCancel && e == FollowEventView::CancelChecked(true)
                ==> a is Stopped
            &&& f.stage == FollowStage::Syncing && e == FollowEventView::SyncFailed(
                ErrorView::Cancelled,
            ) ==> a is Stopped
            &&& f.stage == FollowStage::OpeningStream && e == FollowEventView::StreamFailed(
                StorageErrorView::Cancelled,
            ) ==> a is Stopped
            &&& f.stage == FollowStage::RemovingSpool && f.stream_err == Some(ErrorView::Cancelled)
                && e is SpoolRemoved ==> a is Stopped
            &&& e == FollowEventView::Slept(true) && (f.stage == FollowStage::Polling || f.stage
                == FollowStage::BackingOff) ==> a is Stopped
        }),
{
}

/// Following ends with an error only where it is not transient, or where
/// retrying is off; and it backs off only for a transient one with retrying
/// on. An empty bucket is waited for, and is no failure.
pub proof fn lemma_fail_fast(f: FollowView, e: FollowEventView)
    ensures
        ({
            let (f2, a) = follow_step(f, e);
            &&& a matches FollowActionView::Failed(err) ==> !(err.transient() && f.retry)
            &&& a is SleepRetry ==> f.retry
            &&& e == FollowEventView::SyncFailed(ErrorView::TxNotAvailable) && f.stage
                == FollowStage::Syncing ==> a is SleepPoll && f2.attempt == f.attempt
            &&& a is Failed || a is Stopped ==> f2.stage == FollowStage::Ended
        }),
{
}

/// Only a frame that continues the position is applied, and the position then
/// moves to the frame's end: within one stream it never goes back. It is the
/// position that is persisted.
pub proof fn lemma_stream_applies_contiguous(f: FollowView, e: FollowEventView)
    requires
        f.stage == FollowStage::SyncingSpool || f.stage == FollowStage::Applying ==> f.frame_max.0
            > f.position.0,
    ensures
        ({
            let (f2, a) = follow_step(f, e);
            &&& a is SyncSpool ==> f2.position == f.position && (e matches FollowEventView::Stream(
                StreamEvent::Ltx { min_txid, max_txid },
            ) && contiguous(f.position, min_txid, max_txid) && f2.frame_max == max_txid)
            &&& f2.stage == FollowStage::SyncingSpool || f2.stage == FollowStage::Applying
                ==> f2.frame_max.0 > f2.position.0
            &&& !(e is Position) ==> f2.position.0 >= f.position.0
            &&& a matches FollowActionView::WriteTxid(t) ==> t == f2.position && t.0 > f.position.0
        }),
{
}

/// Where a run of events leads from `f`, and what it asks for on the way.
pub open spec fn follow_run(f: FollowView, events: Seq<FollowEventView>) -> (
    FollowView,
    Seq<FollowActionView>,
)
    decreases events.len(),
{
    if events.len() == 0 {
        (f, Seq::empty())
    } else {
        let (f1, actions) = follow_run(f, events.drop_last());
        let (f2, a) = follow_step(f1, events.last());
        (f2, actions.push(a))
    }
}

/// Whether a step moves the replica's position forward: by a sync, or by a
/// frame of the stream whose position was persisted.
pub open spec fn progresses(f: FollowView, e: FollowEventView) -> bool {
    match (f.stage, e) {
        (FollowStage::ReadingPositionAgain, FollowEventView::Position(t)) => t.0 > f.before.0,
        (FollowStage::WritingTxid, FollowEventView::TxidWritten) => true,
        _ => false,
    }
}

/// Whether a step ends a round that came through its sync and its stream, if
/// there is one, without a failure.
pub open spec fn ends_well(f: FollowView, e: FollowEventView) -> bool {
    match (f.stage, e) {
        (FollowStage::OpeningStream, FollowEventView::NoStream) => true,
        (FollowStage::RemovingSpool, FollowEventView::SpoolRemoved) => f.stream_err is None,
        _ => false,
    }
}

/// Whether none of the events brings progress or ends a round well: every
/// round that waits does so for a failure or for an empty bucket.
pub open spec fn stalls(f: FollowView, events: Seq<FollowEventView>) -> bool
    decreases events.len(),
{
    let f1 = follow_run(f, events.drop_last()).0;
    events.len() == 0 || (stalls(f, events.drop_last()) && !progresses(f1, events.last())
        && !ends_well(f1, events.last()))
}

/// The attempts whose backoff is waited out, in order.
pub open spec fn retry_waits(actions: Seq<FollowActionView>) -> Seq<u32>
    decreases actions.len(),
{
    if actions.len() == 0 {
        Seq::empty()
    } else {
        let front = retry_waits(actions.drop_last());
        match actions.last() {
            FollowActionView::SleepRetry(n) => front.push(n),
            _ => front,
        }
    }
}

/// The attempt that comes `k` failures behind `n`; the count stops at its
/// largest value.
pub open spec fn attempt_after(n: u32, k: nat) -> u32 {
    if n + k > u32::MAX {
        u32::MAX
    } else {
        (n + k) as u32
    }
}

/// Consecutive failures wait ever longer: as long as no round makes progress
/// or ends without a failure, the first one waits out the backoff of the
/// attempt reached so far, and each further one that of the next attempt. A
/// sync that succeeds but moves nothing does not start the count anew where
/// the stream behind it fails, and neither does the wait for an empty bucket.
pub proof fn lemma_backoff_grows(f: FollowView, events: Seq<FollowEventView>)
    requires
        f.stage == FollowStage::CheckingCancel,
        stalls(f, events),
    ensures
        ({
            let waits = retry_waits(follow_run(f, events).1);
            forall|i: int|
                0 <= i < waits.len() ==> #[trigger] waits[i] == attempt_after(f.attempt, i as nat)
        }),
{
    lemma_backoff_counts(f, events);
}

/// Whether a round of a follower is past its sync and before its end.
pub open spec fn in_stream(stage: FollowStage) -> bool {
    match stage {
        FollowStage::OpeningStream | FollowStage::OpeningDatabase
        | FollowStage::CheckingCancelInStream | FollowStage::CreatingSpool
        | FollowStage::Streaming | FollowStage::SyncingSpool | FollowStage::Applying
        | FollowStage::WritingTxid | FollowStage::RemovingSpool => true,
        _ => false,
    }
}

proof fn lemma_backoff_counts(f: FollowView, events: Seq<FollowEventView>)
    requires
        f.stage == FollowStage::CheckingCancel,
        stalls(f, events),
    ensures
        ({
            let (f2, actions) = follow_run(f, events);
            let waits = retry_waits(actions);
            &&& in_stream(f2.stage) ==> !f2.made_progress
            &&& f2.stage == FollowStage::BackingOff ==> waits.len() > 0
            &&& f2.stage != FollowStage::Ended ==> f2.attempt == attempt_after(
                f.attempt,
                (waits.len() - if f2.stage == FollowStage::BackingOff {
                    1int
                } else {
                    0int
                }) as nat,
            )
            &&& forall|i: int|
                0 <= i < waits.len() ==> #[trigger] waits[i] == attempt_after(f.attempt, i as nat)
        }),
    decreases events.len(),
{
    if events.len() > 0 {
        let before = events.drop_last();
        lemma_backoff_counts(f, before);
        let (f1, actions) = follow_run(f, before);
        let (f2, a) = follow_step(f1, events.last());
        assert(actions.push(a).drop_last() =~= actions);
        assert(actions.push(a).last() == a);
    }
}

/// Progress starts the count anew, and so does a round that ends without a
/// failure: a failure that follows waits out the first attempt. No other step
/// lowers the count.
pub proof fn lemma_count_restarts(f: FollowView, e: FollowEventView)
    ensures
        ({
            let (f2, a) = follow_step(f, e);
            &&& f.stage == FollowStage::ReadingPositionAgain && progresses(f, e) ==> f2.attempt == 0
                && f2.made_progress
            &&& f.stage == FollowStage::WritingTxid && progresses(f, e) ==> f2.made_progress
            &&& f.stage == FollowStage::RemovingSpool && f.made_progress && e is SpoolRemoved
                ==> f2.attempt == 0
            &&& ends_well(f, e) ==> f2.attempt == 0
            &&& a matches FollowActionView::SleepRetry(n) ==> n == f2.attempt
            &&& f2.attempt < f.attempt ==> progresses(f, e) || ends_well(f, e) || (f.stage
                == FollowStage::RemovingSpool && f.made_progress)
        }),
{
}

/// A round that moved nothing is followed by a wait, never by another round
/// at once.
pub proof fn lemma_no_hot_spin(f: FollowView)
    requires
        f.stage == FollowStage::RemovingSpool,
        !f.made_progress,
    ensures
        ({
            let a = follow_step(f, FollowEventView::SpoolRemoved).1;
            a is SleepPoll || a is SleepRetry || a is Stopped || a is Failed
        }),
{
}

/// The way of a round from its start to the stream. The position is read, the
/// replica is synced, the position is read again, and the stream is opened
/// from the transaction right behind it; the replica is then opened anew and,
/// unless cancelled, a spool is started for the stream's next file.
pub proof fn lemma_round_opens_stream(f: FollowView, before: Txid, after: Txid)
    requires
        f.stage == FollowStage::CheckingCancel,
        after.0 < u64::MAX,
    ensures
        ({
            let (f1, a1) = follow_step(f, FollowEventView::CancelChecked(false));
            let (f2, a2) = follow_step(f1, FollowEventView::Position(before));
            let (f3, a3) = follow_step(f2, FollowEventView::Synced);
            let (f4, a4) = follow_step(f3, FollowEventView::Position(after));
            let (f5, a5) = follow_step(f4, FollowEventView::StreamOpened);
            let (f6, a6) = follow_step(f5, FollowEventView::DatabaseOpened);
            let (f7, a7) = follow_step(f6, FollowEventView::CancelChecked(false));
            let (f8, a8) = follow_step(f7, FollowEventView::SpoolCreated);
            &&& a1 == FollowActionView::ReadPosition
            &&& a2 == FollowActionView::Sync
            &&& a3 == FollowActionView::ReadPosition
            &&& a4 matches FollowActionView::OpenStream(t) && t.0 == after.0 + 1
            &&& a5 == FollowActionView::OpenDatabase
            &&& a6 == FollowActionView::CheckCancel
            &&& a7 == FollowActionView::CreateSpool
            &&& a8 == FollowActionView::NextFrame
            &&& f8.position == after
            &&& f8.made_progress <==> after.0 > before.0
            &&& f8.retry == f.retry
            &&& follow_step(f4, FollowEventView::NoStream).1 == FollowActionView::SleepPoll
            &&& follow_step(f6, FollowEventView::CancelChecked(true)).1
                == FollowActionView::RemoveSpool
        }),
{
}

/// What a follower does with an event of the stream at its position. A frame
/// that ends at the position or before it is passed over. One that continues
/// it is flushed, applied, and its end persisted as the new position, in this
/// order, and then the next frame is waited for. One that starts too late ends
/// the stream, for the next sync to bridge. An idle tick is waited out unless
/// it tells of a bucket that holds something and ends before the position.
/// Everything else ends the stream without a failure.
pub proof fn lemma_stream_event(f: FollowView, e: StreamEvent)
    requires
        f.stage == FollowStage::Streaming,
        f.position.0 < u64::MAX,
    ensures
        ({
            let (f1, a1) = follow_step(f, FollowEventView::Stream(e));
            let waits = a1 == FollowActionView::CheckCancel && f1.position == f.position
                && follow_step(f1, FollowEventView::CancelChecked(false)).1
                == FollowActionView::CreateSpool;
            let ends = a1 == FollowActionView::RemoveSpool && f1.stream_err is None && f1.position
                == f.position;
            match e {
                StreamEvent::Ltx { min_txid, max_txid } => {
                    let (f2, a2) = follow_step(f1, FollowEventView::SpoolSynced);
                    let (f3, a3) = follow_step(f2, FollowEventView::Applied);
                    let (f4, a4) = follow_step(f3, FollowEventView::TxidWritten);
                    &&& max_txid.0 <= f.position.0 ==> waits
                    &&& max_txid.0 > f.position.0 && min_txid.0 > f.position.0 + 1 ==> ends
                    &&& max_txid.0 > f.position.0 && min_txid.0 <= f.position.0 + 1 ==> {
                        &&& a1 == FollowActionView::SyncSpool
                        &&& a2 == FollowActionView::Apply
                        &&& a3 == FollowActionView::WriteTxid(max_txid)
                        &&& a4 == FollowActionView::CheckCancel
                        &&& f2.position == f.position
                        &&& f4.position == max_txid
                        &&& f4.made_progress
                    }
                },
                StreamEvent::Idle { bucket_max: Some(m) } => if 0 < m.0 < f.position.0 {
                    ends
                } else {
                    waits
                },
                StreamEvent::Idle { bucket_max: None } => waits,
                _ => ends,
            }
        }),
{
}

/// What ends a stream, and what comes of it once the spool is gone. A frame
/// that does not apply for a divergence, a corrupt file or a failure of the
/// storage is left to the next sync; every other failure, of the stream, of a
/// write or of applying, is the round's. Without one the next round starts at
/// once where this one moved the position, else after the poll interval.
pub proof fn lemma_stream_ends(f: FollowView, e: FollowEventView)
    ensures
        ({
            let (f1, a1) = follow_step(f, e);
            let writing = f.stage == FollowStage::CreatingSpool || f.stage == FollowStage::SyncingSpool
                || f.stage == FollowStage::WritingTxid;
            &&& writing ==> (e matches FollowEventView::WriteFailed(err) ==> a1
                == FollowActionView::RemoveSpool && f1.stream_err == Some(err))
            &&& f.stage == FollowStage::Streaming ==> (e matches FollowEventView::StreamBroke(err)
                ==> a1 == FollowActionView::RemoveSpool && f1.stream_err == Some(
                if err is Cancelled {
                    ErrorView::Cancelled
                } else {
                    ErrorView::Storage(err)
                },
            ))
            &&& f.stage == FollowStage::Applying ==> (e matches FollowEventView::ApplyFailed(err)
                ==> a1 == FollowActionView::RemoveSpool && f1.stream_err == if err is Diverged || err
                is Ltx || err is Storage {
                None
            } else {
                Some(err)
            })
            &&& f.stage == FollowStage::RemovingSpool && e is SpoolRemoved && f.stream_err is None
                ==> a1 == if f.made_progress {
                FollowActionView::CheckCancel
            } else {
                FollowActionView::SleepPoll
            }
            &&& f.stage == FollowStage::RemovingSpool && e is SpoolRemoved ==> (
            f.stream_err matches Some(err) ==> err != ErrorView::Cancelled ==> a1 == if f.retry
                && err.transient() {
                FollowActionView::SleepRetry(
                    if f.made_progress {
                        0
                    } else {
                        f.attempt
                    },
                )
            } else {
                FollowActionView::Failed(err)
            })
        }),
{
}

/// What comes of a failure before the stream is open, and of a wait. A failed
/// sync, stream or database is waited out where it is transient and retrying
/// is on, else it ends following; a wait that was not cut short is followed by
/// the next round.
pub proof fn lemma_round_fails(f: FollowView, e: FollowEventView)
    ensures
        ({
            let (f1, a1) = follow_step(f, e);
            &&& f.stage == FollowStage::Syncing ==> (e matches FollowEventView::SyncFailed(err) ==> (
            err != ErrorView::Cancelled && err != ErrorView::TxNotAvailable) ==> a1 == if f.retry
                && err.transient() {
                FollowActionView::SleepRetry(f.attempt)
            } else {
                FollowActionView::Failed(err)
            })
            &&& f.stage == FollowStage::OpeningStream ==> (e matches FollowEventView::StreamFailed(
                err,
            ) ==> !(err is Cancelled) ==> a1 == if f.retry && err is Unavailable {
                FollowActionView::SleepRetry(f.attempt)
            } else {
                FollowActionView::Failed(ErrorView::Storage(err))
            })
            &&& f.stage == FollowStage::OpeningDatabase ==> (
            e matches FollowEventView::DatabaseFailed(err) ==> a1 == if f.retry && err.transient() {
                FollowActionView::SleepRetry(f.attempt)
            } else {
                FollowActionView::Failed(err)
            })
            &&& e == FollowEventView::Slept(false) && (f.stage == FollowStage::Polling || f.stage
                == FollowStage::BackingOff) ==> a1 == FollowActionView::CheckCancel
            &&& e == FollowEventView::Slept(false) && f.stage == FollowStage::BackingOff && f.attempt
                < u32::MAX ==> f1.attempt == f.attempt + 1
            &&& e == FollowEventView::Slept(false) && f.stage == FollowStage::Polling ==> f1.attempt
                == f.attempt
        }),
{
}

/// What a follower keeps. Whether it retries never changes. Its position
/// changes only when it is read behind a sync, and when a frame was applied;
/// progress once made in a round counts until the round is over; and a failure
/// of the stream is forgotten with the round. An event that does not answer
/// what it asked for changes nothing, and nothing answers a follower that has
/// ended.
pub proof fn lemma_follower_keeps(f: FollowView, e: FollowEventView)
    ensures
        ({
            let (f2, a) = follow_step(f, e);
            &&& f2.retry == f.retry
            &&& f2.position != f.position ==> (f.stage == FollowStage::ReadingPositionAgain && e
                == FollowEventView::Position(f2.position)) || (f.stage == FollowStage::Applying && e
                is Applied && f2.position == f.frame_max)
            &&& f.made_progress && !f2.made_progress ==> f.stage == FollowStage::ReadingPositionAgain
            &&& f2.made_progress && !f.made_progress ==> progresses(f, e)
            &&& f.stage == FollowStage::RemovingSpool && e is SpoolRemoved ==> f2.stream_err is None
            &&& f2.before != f.before ==> f.stage == FollowStage::ReadingPosition && e
                == FollowEventView::Position(f2.before)
            &&& f2.frame_max != f.frame_max ==> a is SyncSpool
            &&& a is Unexpected ==> f2 == f
            &&& f.stage == FollowStage::Ended ==> a is Unexpected
            &&& f.stage == FollowStage::CheckingCancel && e is Start ==> f2 == f && a
                == FollowActionView::CheckCancel
            &&& f.stage == FollowStage::RemovingSpoolToStop && e is SpoolRemoved ==> a
                == FollowActionView::Stopped
        }),
{
}

} // verus!
