//! The parts of a push that talk to the bucket: the session's lineage check
//! and the upload of local L0 files.
//!
//! Each is a state machine. [`Lineage`] and [`Upload`] hold where one run of
//! it stands; a step takes what the last action came to and gives the next
//! action. A listing, a file operation or a download that fails ends the run
//! with its own error, unless an event reports it.

use vstd::prelude::*;
use vstd::string::*;

use crate::error::Error;
#[allow(unused_imports)]
use crate::error::{quoted_path_text, ErrorView};
#[allow(unused_imports)]
use crate::ltx::Header;
use crate::ltx::{Pos, Txid};
use crate::storage::StorageError;
#[allow(unused_imports)]
use crate::storage::StorageErrorView;
use crate::verify::local_ltx_error;
#[allow(unused_imports)]
use crate::verify::{local_ltx_view, snapshot, verify_tree, ReadingsView, SyncState};
#[allow(unused_imports)]
use crate::wal::WAL_HEADER_SIZE;
use crate::writer::Writer;

verus! {

/// Where an upload stands.
#[derive(Debug, Clone, Copy, PartialEq, Eq, Structural)]
pub enum UploadStage {
    Starting,
    Listing,
    ReadingPos,
    CheckingCancel,
    Opening,
    Sending,
    Saving,
    Ended,
}

/// One upload of the L0 files that the bucket is missing, in TXID order.
#[derive(Debug, Clone, Copy, PartialEq, Eq, Structural)]
pub struct Upload {
    pub stage: UploadStage,
    /// The bucket's newest L0 file so far.
    pub cursor: Txid,
    /// The newest local L0 file.
    pub local: Txid,
    /// The size of the file being sent.
    pub size: u64,
    /// Files sent so far.
    pub uploaded: u64,
    /// Bytes sent so far.
    pub bytes_uploaded: u64,
}

/// What the last action came to.
#[derive(Debug)]
pub enum UploadEvent {
    Start,
    /// The bucket's newest L0 file; `None` for an empty bucket.
    Listed(Option<Txid>),
    /// The position of the newest local L0 file.
    Pos(Pos),
    /// Whether the push was cancelled.
    CancelChecked(bool),
    /// The local file is open; it has this size.
    Opened { size: u64 },
    /// The local file is missing or unreadable.
    OpenFailed { path: String, cause: String },
    Sent,
    SendFailed(StorageError),
    /// The verified position was persisted, or the attempt failed: the two
    /// make no difference.
    Saved,
}

/// What to do next.
#[derive(Debug)]
pub enum UploadAction {
    /// List the bucket's L0 files.
    List,
    /// Read the local position.
    ReadPos,
    CheckCancel,
    /// Open the local L0 file of this transaction.
    Open(Txid),
    /// Send the open file to the bucket.
    Send(Txid),
    /// Persist the verified position.
    Save(Txid),
    Done { uploaded: u64, bytes_uploaded: u64, remote_txid: Txid },
    Failed(Error),
    /// The event does not answer the last action; nothing changed.
    Unexpected,
}

/// The mathematical counterpart of [`UploadEvent`].
#[verifier::ext_equal]
pub enum UploadEventView {
    Start,
    Listed(Option<Txid>),
    Pos(Pos),
    CancelChecked(bool),
    Opened { size: u64 },
    OpenFailed { path: Seq<char>, cause: Seq<char> },
    Sent,
    SendFailed(StorageErrorView),
    Saved,
}

/// The mathematical counterpart of [`UploadAction`].
#[verifier::ext_equal]
pub enum UploadActionView {
    List,
    ReadPos,
    CheckCancel,
    Open(Txid),
    Send(Txid),
    Save(Txid),
    Done { uploaded: u64, bytes_uploaded: u64, remote_txid: Txid },
    Failed(ErrorView),
    Unexpected,
}

impl View for UploadEvent {
    type V = UploadEventView;

    open spec fn view(&self) -> UploadEventView {
        match self {
            UploadEvent::Start => UploadEventView::Start,
            UploadEvent::Listed(t) => UploadEventView::Listed(*t),
            UploadEvent::Pos(p) => UploadEventView::Pos(*p),
            UploadEvent::CancelChecked(b) => UploadEventView::CancelChecked(*b),
            UploadEvent::Opened { size } => UploadEventView::Opened { size: *size },
            UploadEvent::OpenFailed { path, cause } => UploadEventView::OpenFailed {
                path: path@,
                cause: cause@,
            },
            UploadEvent::Sent => UploadEventView::Sent,
            UploadEvent::SendFailed(e) => UploadEventView::SendFailed(e@),
            UploadEvent::Saved => UploadEventView::Saved,
        }
    }
}

impl View for UploadAction {
    type V = UploadActionView;

    open spec fn view(&self) -> UploadActionView {
        match self {
            UploadAction::List => UploadActionView::List,
            UploadAction::ReadPos => UploadActionView::ReadPos,
            UploadAction::CheckCancel => UploadActionView::CheckCancel,
            UploadAction::Open(t) => UploadActionView::Open(*t),
            UploadAction::Send(t) => UploadActionView::Send(*t),
            UploadAction::Save(t) => UploadActionView::Save(*t),
            UploadAction::Done { uploaded, bytes_uploaded, remote_txid } => UploadActionView::Done {
                uploaded: *uploaded,
                bytes_uploaded: *bytes_uploaded,
                remote_txid: *remote_txid,
            },
            UploadAction::Failed(e) => UploadActionView::Failed(e@),
            UploadAction::Unexpected => UploadActionView::Unexpected,
        }
    }
}

/// A storage failure as the core reports it: cancellation is one variant
/// whichever layer observed it.
pub open spec fn from_storage(e: StorageErrorView) -> ErrorView {
    if e is Cancelled {
        ErrorView::Cancelled
    } else {
        ErrorView::Storage(e)
    }
}

/// The next file, or the end once the bucket holds all local files.
pub open spec fn upload_turn(w: Writer, u: Upload) -> (Writer, Upload, UploadActionView) {
    if u.cursor.0 < u.local.0 {
        (w, Upload { stage: UploadStage::CheckingCancel, ..u }, UploadActionView::CheckCancel)
    } else {
        (
            w,
            Upload { stage: UploadStage::Ended, ..u },
            UploadActionView::Done {
                uploaded: u.uploaded,
                bytes_uploaded: u.bytes_uploaded,
                remote_txid: u.cursor,
            },
        )
    }
}

/// The bucket stands at `remote`: what is missing there depends on the local
/// position.
pub open spec fn upload_from(w: Writer, u: Upload, remote: Txid) -> (Writer, Upload, UploadActionView) {
    match w.cached_pos {
        Some(p) => upload_turn(w, Upload { cursor: remote, local: p.txid, ..u }),
        None => (
            w,
            Upload { cursor: remote, stage: UploadStage::ReadingPos, ..u },
            UploadActionView::ReadPos,
        ),
    }
}

/// Ends the upload. The bucket's position is unknown afterwards.
pub open spec fn upload_fails(w: Writer, u: Upload, e: ErrorView) -> (Writer, Upload, UploadActionView) {
    (
        Writer { remote_txid: None, ..w },
        Upload { stage: UploadStage::Ended, ..u },
        UploadActionView::Failed(e),
    )
}

/// One step of an upload.
pub open spec fn upload_step(w: Writer, u: Upload, e: UploadEventView) -> (
    Writer,
    Upload,
    UploadActionView,
) {
    let next = Txid((u.cursor.0 + 1) as u64);
    match (u.stage, e) {
        (UploadStage::Starting, UploadEventView::Start) => match w.remote_txid {
            Some(t) => upload_from(w, u, t),
            None => (w, Upload { stage: UploadStage::Listing, ..u }, UploadActionView::List),
        },
        (UploadStage::Listing, UploadEventView::Listed(max)) => {
            let t = match max {
                Some(t) => t,
                None => Txid(0),
            };
            if t != w.verified_pos {
                // The bucket holds what this session did not put there, or
                // lost what it did.
                (
                    Writer { lineage_checked: false, ..w },
                    Upload { stage: UploadStage::Ended, ..u },
                    UploadActionView::Failed(ErrorView::Other(moved_text(t, w.verified_pos))),
                )
            } else {
                upload_from(Writer { remote_txid: Some(t), ..w }, u, t)
            }
        },
        (UploadStage::ReadingPos, UploadEventView::Pos(p)) => upload_turn(
            Writer { cached_pos: Some(p), ..w },
            Upload { local: p.txid, ..u },
        ),
        (UploadStage::CheckingCancel, UploadEventView::CancelChecked(cancelled)) => if cancelled {
            upload_fails(w, u, ErrorView::Cancelled)
        } else {
            (w, Upload { stage: UploadStage::Opening, ..u }, UploadActionView::Open(next))
        },
        (UploadStage::Opening, UploadEventView::Opened { size }) => (
            w,
            Upload { stage: UploadStage::Sending, size, ..u },
            UploadActionView::Send(next),
        ),
        (UploadStage::Opening, UploadEventView::OpenFailed { path, cause }) => upload_fails(
            w,
            u,
            local_ltx_view(next, "open"@, quoted_path_text(path), cause),
        ),
        (UploadStage::Sending, UploadEventView::SendFailed(err)) => upload_fails(
            w,
            u,
            from_storage(err),
        ),
        (UploadStage::Sending, UploadEventView::Sent) => {
            let u2 = Upload {
                cursor: next,
                uploaded: (u.uploaded + 1) as u64,
                bytes_uploaded: (u.bytes_uploaded + u.size) as u64,
                ..u
            };
            if next.0 > w.verified_pos.0 {
                (
                    Writer { remote_txid: Some(next), verified_pos: next, ..w },
                    Upload { stage: UploadStage::Saving, ..u2 },
                    UploadActionView::Save(next),
                )
            } else {
                upload_turn(Writer { remote_txid: Some(next), ..w }, u2)
            }
        },
        (UploadStage::Saving, UploadEventView::Saved) => upload_turn(w, u),
        _ => (w, u, UploadActionView::Unexpected),
    }
}

/// An upload at its start.
pub open spec fn upload_start() -> Upload {
    Upload {
        stage: UploadStage::Starting,
        cursor: Txid(0),
        local: Txid(0),
        size: 0,
        uploaded: 0,
        bytes_uploaded: 0,
    }
}

/// The message when the bucket is not where this session left it.
pub open spec fn moved_text(bucket: Txid, verified: Txid) -> Seq<char> {
    "bucket moved outside this session's verified position (bucket at "@ + bucket.text()
        + ", session verified "@ + verified.text()
        + "): foreign writer suspected; the next push re-runs the lineage check"@
}

impl Upload {
    /// The files counted are behind the cursor, no bytes were sent without a
    /// file, and a file is on its way only while the bucket lacks one.
    pub open spec fn wf(self) -> bool {
        &&& self.uploaded <= self.cursor.0
        &&& self.uploaded == 0 ==> self.bytes_uploaded == 0
        &&& match self.stage {
            UploadStage::Starting | UploadStage::Listing => self.uploaded == 0,
            UploadStage::CheckingCancel | UploadStage::Opening => self.cursor.0 < self.local.0,
            UploadStage::Sending => self.cursor.0 < self.local.0 && self.bytes_uploaded + self.size
                <= u64::MAX,
            _ => true,
        }
    }

    pub fn new() -> (u: Upload)
        ensures
            u == upload_start(),
            u.wf(),
    {
        Upload {
            stage: UploadStage::Starting,
            cursor: Txid(0),
            local: Txid(0),
            size: 0,
            uploaded: 0,
            bytes_uploaded: 0,
        }
    }

    fn turn(&mut self) -> (a: UploadAction)
        ensures
            forall|w: Writer| #[trigger]
                upload_turn(w, *old(self)) == (w, *final(self), a@),
    {
        if self.cursor.0 < self.local.0 {
            self.stage = UploadStage::CheckingCancel;
            UploadAction::CheckCancel
        } else {
            self.stage = UploadStage::Ended;
            UploadAction::Done {
                uploaded: self.uploaded,
                bytes_uploaded: self.bytes_uploaded,
                remote_txid: self.cursor,
            }
        }
    }
}

impl Writer {
    fn upload_from(&mut self, run: &mut Upload, remote: Txid) -> (a: UploadAction)
        ensures
            (*final(self), *final(run), a@) == upload_from(*old(self), *old(run), remote),
    {
        run.cursor = remote;
        match self.cached_pos {
            Some(p) => {
                run.local = p.txid;
                let a = run.turn();
                assert(upload_turn(*self, Upload { cursor: remote, local: p.txid, ..*old(run) }) == (
                    *self,
                    *run,
                    a@,
                ));
                a
            },
            None => {
                run.stage = UploadStage::ReadingPos;
                UploadAction::ReadPos
            },
        }
    }

    /// Uploads local L0 files the bucket is missing, in TXID order: one step.
    ///
    /// The session's lineage check must have passed: appending to an
    /// unverified bucket could interleave this lineage's TXIDs with a foreign
    /// writer's. Where the bucket's position had to be listed again, it must
    /// be exactly the verified one; else the push fails and the next one runs
    /// the lineage check again.
    ///
    /// The verified position advances with each file that was placed, so that
    /// a kill in the middle cannot leave the bucket ahead of what the lineage
    /// remembers.
    pub fn upload(&mut self, run: &mut Upload, event: UploadEvent) -> (a: UploadAction)
        requires
            old(self).lineage_checked,
            old(run).wf(),
            event matches UploadEvent::Opened { size } ==> old(run).bytes_uploaded + size <= u64::MAX,
        ensures
            (*final(self), *final(run), a@) == upload_step(*old(self), *old(run), event@),
            final(run).wf(),
    {
        match (run.stage, event) {
            (UploadStage::Starting, UploadEvent::Start) => match self.remote_txid {
                Some(t) => self.upload_from(run, t),
                None => {
                    run.stage = UploadStage::Listing;
                    UploadAction::List
                },
            },
            (UploadStage::Listing, UploadEvent::Listed(max)) => {
                let t: Txid = match max {
                    Some(t) => t,
                    None => Txid(0),
                };
                if t != self.verified_pos {
                    self.lineage_checked = false;
                    run.stage = UploadStage::Ended;
                    let mut m = String::from_str(
                        "bucket moved outside this session's verified position (bucket at ",
                    );
                    m.append(t.to_string().as_str());
                    m.append(", session verified ");
                    m.append(self.verified_pos.to_string().as_str());
                    m.append(
                        "): foreign writer suspected; the next push re-runs the lineage check",
                    );
                    return UploadAction::Failed(Error::Other(m));
                }
                self.remote_txid = Some(t);
                self.upload_from(run, t)
            },
            (UploadStage::ReadingPos, UploadEvent::Pos(p)) => {
                self.cached_pos = Some(p);
                run.local = p.txid;
                let ghost before = *run;
                let a = run.turn();
                assert(upload_turn(*self, before) == (*self, *run, a@));
                a
            },
            (UploadStage::CheckingCancel, UploadEvent::CancelChecked(cancelled)) => {
                if cancelled {
                    // Re-derive the remote position on the next push, same as
                    // any upload error.
                    self.remote_txid = None;
                    run.stage = UploadStage::Ended;
                    return UploadAction::Failed(Error::Cancelled);
                }
                run.stage = UploadStage::Opening;
                UploadAction::Open(Txid(run.cursor.0 + 1))
            },
            (UploadStage::Opening, UploadEvent::Opened { size }) => {
                run.stage = UploadStage::Sending;
                run.size = size;
                UploadAction::Send(Txid(run.cursor.0 + 1))
            },
            (UploadStage::Opening, UploadEvent::OpenFailed { path, cause }) => {
                // Local gap: unrecoverable without a reset/snapshot.
                self.remote_txid = None;
                run.stage = UploadStage::Ended;
                UploadAction::Failed(
                    local_ltx_error(
                        Txid(run.cursor.0 + 1),
                        "open",
                        path.as_str(),
                        cause.as_str(),
                    ),
                )
            },
            (UploadStage::Sending, UploadEvent::SendFailed(e)) => {
                // Re-derive the remote position on the next push; uploads are
                // idempotent so double-upload is harmless.
                self.remote_txid = None;
                run.stage = UploadStage::Ended;
                UploadAction::Failed(Error::from(e))
            },
            (UploadStage::Sending, UploadEvent::Sent) => {
                let next = Txid(run.cursor.0 + 1);
                run.cursor = next;
                self.remote_txid = Some(next);
                run.uploaded = run.uploaded + 1;
                run.bytes_uploaded = run.bytes_uploaded + run.size;
                if next.0 > self.verified_pos.0 {
                    self.verified_pos = next;
                    run.stage = UploadStage::Saving;
                    return UploadAction::Save(next);
                }
                let ghost before = *run;
                let a = run.turn();
                assert(upload_turn(*self, before) == (*self, *run, a@));
                a
            },
            (UploadStage::Saving, UploadEvent::Saved) => {
                let ghost before = *run;
                let a = run.turn();
                assert(upload_turn(*self, before) == (*self, *run, a@));
                a
            },
            _ => UploadAction::Unexpected,
        }
    }
}

/// The sum of `sizes`.
pub open spec fn total_size(sizes: Seq<u64>) -> nat
    decreases sizes.len(),
{
    if sizes.len() == 0 {
        0
    } else {
        total_size(sizes.drop_last()) + sizes.last() as nat
    }
}

/// One file that is placed without trouble: not cancelled, opened with this
/// size, sent, and the verified position saved where it advanced.
pub open spec fn upload_round(w: Writer, u: Upload, size: u64) -> (Writer, Upload) {
    let (w1, u1, _) = upload_step(w, u, UploadEventView::CancelChecked(false));
    let (w2, u2, _) = upload_step(w1, u1, UploadEventView::Opened { size });
    let (w3, u3, _) = upload_step(w2, u2, UploadEventView::Sent);
    if u3.stage == UploadStage::Saving {
        let (w4, u4, _) = upload_step(w3, u3, UploadEventView::Saved);
        (w4, u4)
    } else {
        (w3, u3)
    }
}

/// Files of these sizes placed one after the other.
pub open spec fn upload_rounds(w: Writer, u: Upload, sizes: Seq<u64>) -> (Writer, Upload)
    decreases sizes.len(),
{
    if sizes.len() == 0 {
        (w, u)
    } else {
        let (w1, u1) = upload_rounds(w, u, sizes.drop_last());
        upload_round(w1, u1, sizes.last())
    }
}

/// Files go up in TXID order without a gap: the file that is opened and sent
/// next is the one right behind the bucket's newest, and with it placed the
/// bucket's position and the verified position have moved on to it.
pub proof fn lemma_upload_in_order(w: Writer, u: Upload, sizes: Seq<u64>)
    requires
        u.wf(),
        u.stage == UploadStage::CheckingCancel,
        sizes.len() <= u.local.0 - u.cursor.0,
        u.bytes_uploaded + total_size(sizes) <= u64::MAX,
    ensures
        ({
            let (w2, u2) = upload_rounds(w, u, sizes);
            let cursor = Txid((u.cursor.0 + sizes.len()) as u64);
            &&& u2.wf()
            &&& u2.cursor == cursor
            &&& u2.local == u.local
            &&& u2.uploaded == u.uploaded + sizes.len()
            &&& u2.bytes_uploaded == u.bytes_uploaded + total_size(sizes)
            &&& sizes.len() > 0 ==> w2.remote_txid == Some(cursor)
            &&& w2.verified_pos.0 == if sizes.len() > 0 && cursor.0 > w.verified_pos.0 {
                cursor.0
            } else {
                w.verified_pos.0
            }
            &&& if cursor.0 < u.local.0 {
                u2.stage == UploadStage::CheckingCancel && upload_step(
                    w2,
                    u2,
                    UploadEventView::CancelChecked(false),
                ).2 == UploadActionView::Open(Txid((cursor.0 + 1) as u64))
            } else {
                u2.stage == UploadStage::Ended
            }
        }),
    decreases sizes.len(),
{
    if sizes.len() > 0 {
        lemma_upload_in_order(w, u, sizes.drop_last());
    }
}

/// A failed upload forgets the bucket's position and keeps the verified one,
/// so the next push lists the bucket again; a bucket that moved costs the
/// session its lineage check instead. The verified position never goes back.
pub proof fn lemma_upload_failure(w: Writer, u: Upload, e: UploadEventView)
    requires
        u.wf(),
    ensures
        ({
            let (w2, u2, a) = upload_step(w, u, e);
            &&& w2.verified_pos.0 >= w.verified_pos.0
            &&& a is Failed ==> w2.verified_pos == w.verified_pos && w2.remote_txid is None || (
            w2.remote_txid == w.remote_txid && !w2.lineage_checked)
            &&& w.lineage_checked && !(a is Failed) ==> w2.lineage_checked
        }),
{
}

/// The writer and the upload after these events.
pub open spec fn upload_reaches(w: Writer, u: Upload, events: Seq<UploadEventView>) -> (
    Writer,
    Upload,
)
    decreases events.len(),
{
    if events.len() == 0 {
        (w, u)
    } else {
        let (w1, u1) = upload_reaches(w, u, events.drop_last());
        let (w2, u2, _) = upload_step(w1, u1, events.last());
        (w2, u2)
    }
}

/// What an upload asks for after the last of these events.
pub open spec fn upload_asks(w: Writer, u: Upload, events: Seq<UploadEventView>) -> UploadActionView
    recommends
        events.len() > 0,
{
    let (w1, u1) = upload_reaches(w, u, events.drop_last());
    upload_step(w1, u1, events.last()).2
}

/// An upload that ends well leaves the writer with both positions: the bucket
/// is known to stand where the upload reports it and, if anything was sent,
/// that is the local position. Nothing else but the verified position changed.
pub proof fn lemma_upload_leaves(w: Writer, events: Seq<UploadEventView>)
    requires
        events.len() > 0,
    ensures
        ({
            let w2 = upload_reaches(w, upload_start(), events).0;
            upload_asks(w, upload_start(), events) matches UploadActionView::Done {
                uploaded,
                bytes_uploaded,
                remote_txid,
            } ==> {
                &&& w2.remote_txid == Some(remote_txid)
                &&& w2.cached_pos is Some
                &&& uploaded > 0 ==> w2.cached_pos.unwrap().txid == remote_txid && remote_txid.0 > 0
                &&& w2 == (Writer {
                    cached_pos: w2.cached_pos,
                    remote_txid: w2.remote_txid,
                    verified_pos: w2.verified_pos,
                    ..w
                })
            }
        }),
{
    lemma_upload_knows(w, events.drop_last());
}

/// While an upload runs, the writer knows where the bucket stands and, once
/// files are being sent, where the local files end.
proof fn lemma_upload_knows(w: Writer, events: Seq<UploadEventView>)
    ensures
        ({
            let (w2, u2) = upload_reaches(w, upload_start(), events);
            u2.stage != UploadStage::Ended ==> {
                &&& w2 == (Writer {
                    cached_pos: w2.cached_pos,
                    remote_txid: w2.remote_txid,
                    verified_pos: w2.verified_pos,
                    ..w
                })
                &&& match u2.stage {
                    UploadStage::Starting | UploadStage::Listing => u2.uploaded == 0,
                    UploadStage::ReadingPos => u2.uploaded == 0 && w2.remote_txid == Some(u2.cursor),
                    _ => {
                        &&& w2.remote_txid == Some(u2.cursor)
                        &&& w2.cached_pos matches Some(p) && p.txid == u2.local
                        &&& u2.cursor.0 <= u2.local.0
                        &&& u2.uploaded > 0 ==> u2.cursor.0 > 0
                        &&& u2.stage != UploadStage::Saving ==> u2.cursor.0 < u2.local.0
                    },
                }
            }
        }),
    decreases events.len(),
{
    if events.len() > 0 {
        lemma_upload_knows(w, events.drop_last());
    }
}

/// Where a lineage check stands.
#[derive(Debug, Clone, Copy, PartialEq, Eq, Structural)]
pub enum LineageStage {
    Starting,
    CheckingCancel,
    Listing,
    /// The bucket is foreign and not empty: its newest L0 file will be
    /// adopted.
    CheckingCancelAgain,
    ClearingToAdopt,
    Adopting,
    /// The bucket was wiped.
    ClearingToReseed,
    ReadingVerified,
    Saving,
    Ended,
}

/// One run of the once-per-session lineage check.
#[derive(Debug, Clone, Copy, PartialEq, Eq, Structural)]
pub struct Lineage {
    pub stage: LineageStage,
    /// The transactions of the bucket's newest L0 file.
    pub remote_min: Txid,
    pub remote_max: Txid,
}

/// What the last action came to.
#[derive(Debug, Clone, Copy, PartialEq, Eq)]
pub enum LineageEvent {
    Start,
    /// Whether the push was cancelled.
    CancelChecked(bool),
    /// The transactions of the bucket's newest L0 file; `None` for an empty
    /// bucket.
    Listed(Option<(Txid, Txid)>),
    /// The local L0 files are gone.
    L0Cleared,
    /// The bucket's newest L0 file is the only local one.
    Adopted,
    /// The persisted verified position.
    VerifiedRead(Option<Txid>),
    /// The verified position was persisted, or the attempt failed: the two
    /// make no difference.
    Saved,
}

/// What to do next.
#[derive(Debug, Clone, Copy, PartialEq, Eq, Structural)]
pub enum LineageAction {
    CheckCancel,
    /// List the bucket's L0 files.
    List,
    /// Delete the local L0 files.
    ClearL0,
    /// Fetch this L0 file of the bucket and put it in place as the local one.
    Adopt { min_txid: Txid, max_txid: Txid },
    /// Read the persisted verified position.
    ReadVerified,
    /// Persist the verified position.
    Save(Txid),
    /// The check passed.
    Done,
    /// The push was cancelled.
    Cancelled,
    /// The event does not answer the last action; nothing changed.
    Unexpected,
}

/// Whether a bucket whose newest L0 file is `remote_max` holds a history that
/// this lineage did not write. A provisional baseline may sit ahead of the
/// bucket (an offline backlog); an exact one may not differ either way.
pub open spec fn foreign(w: Writer, remote_max: Txid) -> bool {
    if w.verified_pos_provisional {
        remote_max.0 > w.verified_pos.0
    } else {
        remote_max != w.verified_pos
    }
}

/// The writer once the session's lineage is settled.
pub open spec fn lineage_settled(w: Writer, remote_max: Txid) -> Writer {
    Writer {
        verified_pos_provisional: false,
        remote_txid: Some(remote_max),
        lineage_checked: true,
        ..w
    }
}

/// The writer after its local L0 files were dropped and, where the bucket has
/// one, replaced by the bucket's.
pub open spec fn rebaselined(w: Writer) -> Writer {
    Writer {
        cached_pos: None,
        state: SyncState { synced_to_wal_end: false, ..w.state },
        ..w
    }
}

/// One step of the lineage check.
pub open spec fn lineage_step(w: Writer, l: Lineage, e: LineageEvent) -> (Writer, Lineage, LineageAction) {
    match (l.stage, e) {
        (LineageStage::Starting, LineageEvent::Start) => if w.lineage_checked {
            (w, Lineage { stage: LineageStage::Ended, ..l }, LineageAction::Done)
        } else {
            (w, Lineage { stage: LineageStage::CheckingCancel, ..l }, LineageAction::CheckCancel)
        },
        (LineageStage::CheckingCancel, LineageEvent::CancelChecked(cancelled)) => if cancelled {
            (w, Lineage { stage: LineageStage::Ended, ..l }, LineageAction::Cancelled)
        } else {
            (w, Lineage { stage: LineageStage::Listing, ..l }, LineageAction::List)
        },
        (LineageStage::Listing, LineageEvent::Listed(None)) => {
            let l2 = Lineage { remote_min: Txid(0), remote_max: Txid(0), ..l };
            if foreign(w, Txid(0)) {
                (w, Lineage { stage: LineageStage::ClearingToReseed, ..l2 }, LineageAction::ClearL0)
            } else {
                (
                    Writer { verified_pos: Txid(0), ..w },
                    Lineage { stage: LineageStage::ReadingVerified, ..l2 },
                    LineageAction::ReadVerified,
                )
            }
        },
        (LineageStage::Listing, LineageEvent::Listed(Some(f))) => {
            let l2 = Lineage { remote_min: f.0, remote_max: f.1, ..l };
            if foreign(w, f.1) {
                (
                    w,
                    Lineage { stage: LineageStage::CheckingCancelAgain, ..l2 },
                    LineageAction::CheckCancel,
                )
            } else {
                (
                    Writer { verified_pos: f.1, ..w },
                    Lineage { stage: LineageStage::ReadingVerified, ..l2 },
                    LineageAction::ReadVerified,
                )
            }
        },
        (LineageStage::CheckingCancelAgain, LineageEvent::CancelChecked(cancelled)) => if cancelled {
            (w, Lineage { stage: LineageStage::Ended, ..l }, LineageAction::Cancelled)
        } else {
            (w, Lineage { stage: LineageStage::ClearingToAdopt, ..l }, LineageAction::ClearL0)
        },
        (LineageStage::ClearingToAdopt, LineageEvent::L0Cleared) => (
            Writer { cached_pos: None, ..w },
            Lineage { stage: LineageStage::Adopting, ..l },
            LineageAction::Adopt { min_txid: l.remote_min, max_txid: l.remote_max },
        ),
        (LineageStage::Adopting, LineageEvent::Adopted) => (
            Writer { verified_pos: l.remote_max, ..rebaselined(w) },
            Lineage { stage: LineageStage::Saving, ..l },
            LineageAction::Save(l.remote_max),
        ),
        (LineageStage::ClearingToReseed, LineageEvent::L0Cleared) => (
            Writer { verified_pos: l.remote_max, ..rebaselined(w) },
            Lineage { stage: LineageStage::Saving, ..l },
            LineageAction::Save(l.remote_max),
        ),
        (LineageStage::ReadingVerified, LineageEvent::VerifiedRead(persisted)) => if persisted == Some(
            l.remote_max,
        ) {
            (
                lineage_settled(w, l.remote_max),
                Lineage { stage: LineageStage::Ended, ..l },
                LineageAction::Done,
            )
        } else {
            (w, Lineage { stage: LineageStage::Saving, ..l }, LineageAction::Save(l.remote_max))
        },
        (LineageStage::Saving, LineageEvent::Saved) => (
            lineage_settled(w, l.remote_max),
            Lineage { stage: LineageStage::Ended, ..l },
            LineageAction::Done,
        ),
        _ => (w, l, LineageAction::Unexpected),
    }
}

impl Lineage {
    pub fn new() -> (l: Lineage)
        ensures
            l == (Lineage {
                stage: LineageStage::Starting,
                remote_min: Txid(0),
                remote_max: Txid(0),
            }),
    {
        Lineage { stage: LineageStage::Starting, remote_min: Txid(0), remote_max: Txid(0) }
    }
}

impl Writer {
    fn is_foreign(&self, remote_max: Txid) -> (r: bool)
        ensures
            r == foreign(*self, remote_max),
    {
        if self.verified_pos_provisional {
            // Baseline from local L0 evidence: only a bucket AHEAD of it is
            // provably foreign.
            remote_max.0 > self.verified_pos.0
        } else {
            remote_max != self.verified_pos
        }
    }

    fn settle_lineage(&mut self, remote_max: Txid)
        ensures
            *final(self) == lineage_settled(*old(self), remote_max),
    {
        self.verified_pos_provisional = false;
        self.remote_txid = Some(remote_max);
        self.lineage_checked = true;
    }

    /// Once-per-session lineage check, run before the FIRST bucket mutation:
    /// one step.
    ///
    /// `verified_pos` is the highest TXID this local lineage KNOWS it has
    /// placed in the bucket. A bucket whose max L0 TXID differs from it holds
    /// a history this lineage did not write: **ahead**, the device was
    /// restored from a backup or another writer owns the bucket; **behind but
    /// non-empty**, the bucket was wiped and reseeded by another writer;
    /// **empty**, the bucket was wiped outright.
    ///
    /// On foreign data the local L0 files are dropped and the newest remote
    /// L0, if any, is adopted as the baseline; the next push snapshots. The
    /// discarded L0s continued a history the bucket no longer tells, and
    /// uploading them over a foreign base would corrupt every restore.
    ///
    /// A passing check aligns the baseline to what the bucket itself proves.
    pub fn ensure_lineage_checked(&mut self, run: &mut Lineage, event: LineageEvent) -> (a: LineageAction)
        ensures
            (*final(self), *final(run), a) == lineage_step(*old(self), *old(run), event),
    {
        match (run.stage, event) {
            (LineageStage::Starting, LineageEvent::Start) => {
                if self.lineage_checked {
                    run.stage = LineageStage::Ended;
                    return LineageAction::Done;
                }
                run.stage = LineageStage::CheckingCancel;
                LineageAction::CheckCancel
            },
            (LineageStage::CheckingCancel, LineageEvent::CancelChecked(cancelled)) => {
                if cancelled {
                    run.stage = LineageStage::Ended;
                    return LineageAction::Cancelled;
                }
                run.stage = LineageStage::Listing;
                LineageAction::List
            },
            (LineageStage::Listing, LineageEvent::Listed(remote)) => {
                let (min, max): (Txid, Txid) = match remote {
                    Some(f) => f,
                    None => (Txid(0), Txid(0)),
                };
                run.remote_min = min;
                run.remote_max = max;
                if self.is_foreign(max) {
                    if remote.is_some() {
                        run.stage = LineageStage::CheckingCancelAgain;
                        LineageAction::CheckCancel
                    } else {
                        // Wiped bucket (empty, but this lineage verified
                        // placing files in it): full reseed.
                        run.stage = LineageStage::ClearingToReseed;
                        LineageAction::ClearL0
                    }
                } else {
                    self.verified_pos = max;
                    run.stage = LineageStage::ReadingVerified;
                    LineageAction::ReadVerified
                }
            },
            (LineageStage::CheckingCancelAgain, LineageEvent::CancelChecked(cancelled)) => {
                if cancelled {
                    run.stage = LineageStage::Ended;
                    return LineageAction::Cancelled;
                }
                run.stage = LineageStage::ClearingToAdopt;
                LineageAction::ClearL0
            },
            (LineageStage::ClearingToAdopt, LineageEvent::L0Cleared) => {
                self.invalidate_pos();
                run.stage = LineageStage::Adopting;
                LineageAction::Adopt { min_txid: run.remote_min, max_txid: run.remote_max }
            },
            (LineageStage::Adopting, LineageEvent::Adopted) => {
                self.rebaseline_from_remote();
                self.verified_pos = run.remote_max;
                run.stage = LineageStage::Saving;
                LineageAction::Save(run.remote_max)
            },
            (LineageStage::ClearingToReseed, LineageEvent::L0Cleared) => {
                self.rebaseline_from_remote();
                self.verified_pos = run.remote_max;
                run.stage = LineageStage::Saving;
                LineageAction::Save(run.remote_max)
            },
            (LineageStage::ReadingVerified, LineageEvent::VerifiedRead(persisted)) => {
                let same: bool = match persisted {
                    Some(t) => t == run.remote_max,
                    None => false,
                };
                if same {
                    self.settle_lineage(run.remote_max);
                    run.stage = LineageStage::Ended;
                    LineageAction::Done
                } else {
                    run.stage = LineageStage::Saving;
                    LineageAction::Save(run.remote_max)
                }
            },
            (LineageStage::Saving, LineageEvent::Saved) => {
                self.settle_lineage(run.remote_max);
                run.stage = LineageStage::Ended;
                LineageAction::Done
            },
            _ => LineageAction::Unexpected,
        }
    }

    /// Local L0 state was replaced: forget the position, and that the WAL had
    /// been consumed to its end. The latter described the DISCARDED lineage,
    /// and carrying it over would let the next push resume incrementally over
    /// a foreign pre-state instead of snapshotting.
    fn rebaseline_from_remote(&mut self)
        ensures
            *final(self) == rebaselined(*old(self)),
    {
        self.invalidate_pos();
        self.state.synced_to_wal_end = false;
    }
}

/// What a lineage check goes through when nothing fails and nobody cancels,
/// from the listing on. `persisted` is the verified position on disk.
pub open spec fn lineage_run(w: Writer, remote: Option<(Txid, Txid)>, persisted: Option<Txid>) -> Writer {
    let l = Lineage { stage: LineageStage::Listing, remote_min: Txid(0), remote_max: Txid(0) };
    let (w1, l1, _) = lineage_step(w, l, LineageEvent::Listed(remote));
    match l1.stage {
        LineageStage::ReadingVerified => {
            let (w2, l2, _) = lineage_step(w1, l1, LineageEvent::VerifiedRead(persisted));
            if l2.stage == LineageStage::Saving {
                lineage_step(w2, l2, LineageEvent::Saved).0
            } else {
                w2
            }
        },
        LineageStage::ClearingToReseed => {
            let (w2, l2, _) = lineage_step(w1, l1, LineageEvent::L0Cleared);
            lineage_step(w2, l2, LineageEvent::Saved).0
        },
        _ => {
            let (w2, l2, _) = lineage_step(w1, l1, LineageEvent::CancelChecked(false));
            let (w3, l3, _) = lineage_step(w2, l2, LineageEvent::L0Cleared);
            let (w4, l4, _) = lineage_step(w3, l3, LineageEvent::Adopted);
            lineage_step(w4, l4, LineageEvent::Saved).0
        },
    }
}

/// A completed check leaves the session's baseline exactly where the bucket
/// is. The local position and the consumed-to-the-end flag survive it unless
/// the bucket was foreign, and are forgotten if it was.
pub proof fn lemma_lineage_outcome(w: Writer, remote: Option<(Txid, Txid)>, persisted: Option<Txid>)
    ensures
        ({
            let max = match remote {
                Some(f) => f.1,
                None => Txid(0),
            };
            let w2 = lineage_run(w, remote, persisted);
            &&& w2.lineage_checked
            &&& w2.verified_pos == max
            &&& w2.remote_txid == Some(max)
            &&& !w2.verified_pos_provisional
            &&& foreign(w, max) ==> w2.cached_pos is None && !w2.state.synced_to_wal_end
            &&& !foreign(w, max) ==> w2.cached_pos == w.cached_pos && w2.state == w.state
        }),
{
}

/// An exact baseline takes a bucket for its own only where the bucket stands
/// exactly there; a provisional one also where the bucket is behind. So no
/// upload ever continues a bucket that is ahead of what was verified.
pub proof fn lemma_foreign_rule(w: Writer, remote_max: Txid)
    ensures
        remote_max.0 > w.verified_pos.0 ==> foreign(w, remote_max),
        !w.verified_pos_provisional ==> (foreign(w, remote_max) <==> remote_max != w.verified_pos),
        w.verified_pos_provisional ==> (foreign(w, remote_max) <==> remote_max.0 > w.verified_pos.0),
{
}

/// After a foreign bucket's newest L0 file `f`, with the header `h`, was
/// adopted, a WAL that does not reach the end of the segment in `h` makes the
/// next push snapshot, even where the WAL had been consumed to its end before.
pub proof fn lemma_adopted_snapshots(
    w: Writer,
    f: (Txid, Txid),
    persisted: Option<Txid>,
    page_size: int,
    h: Header,
    seen: ReadingsView,
)
    requires
        foreign(w, f.1),
        f.1.0 != 0,
        seen.ltx_header == Some(h),
        seen.wal_size matches Some(n) && n < h.wal_offset + h.wal_size,
    ensures
        verify_tree(
            page_size,
            f.1,
            lineage_run(w, Some(f), persisted).state.synced_to_wal_end,
            seen,
        ) == snapshot(
            h.wal_offset + h.wal_size,
            h.wal_salt1,
            h.wal_salt2,
            "wal truncated by another process"@,
        ),
{
}

/// After a wiped bucket no position is left, locally or in the bucket, and the
/// next push snapshots from the top of the WAL.
pub proof fn lemma_wiped_snapshots(w: Writer, persisted: Option<Txid>, page_size: int, seen: ReadingsView)
    requires
        foreign(w, Txid(0)),
    ensures
        ({
            let w2 = lineage_run(w, None, persisted);
            &&& w2.cached_pos is None
            &&& w2.verified_pos == Txid(0)
            &&& w2.remote_txid == Some(Txid(0))
            &&& verify_tree(page_size, Txid(0), w2.state.synced_to_wal_end, seen) == snapshot(
                WAL_HEADER_SIZE as int,
                0,
                0,
                "first sync, no local position"@,
            )
        }),
{
}

/// An upload takes up where the bucket stands: at the position known from this
/// session, else at that of the bucket's newest L0 file, which must be the
/// verified one. From there the next local file, the one right behind the
/// bucket's newest, is opened and sent, and no other, until the bucket stands
/// at the local position.
pub proof fn lemma_upload_begins(w: Writer, listed: Option<Txid>, local: Pos)
    ensures
        ({
            let (w1, u1, a1) = upload_step(w, upload_start(), UploadEventView::Start);
            let at = match w.remote_txid {
                Some(t) => t,
                None => match listed {
                    Some(t) => t,
                    None => Txid(0),
                },
            };
            let (w2, u2, a2) = if w.remote_txid is Some {
                (w1, u1, a1)
            } else {
                upload_step(w1, u1, UploadEventView::Listed(listed))
            };
            let moved = w.remote_txid is None && at != w.verified_pos;
            let pos = match w.cached_pos {
                Some(p) => p,
                None => local,
            };
            let (w3, u3, a3) = if w.cached_pos is Some || moved {
                (w2, u2, a2)
            } else {
                upload_step(w2, u2, UploadEventView::Pos(local))
            };
            &&& w.remote_txid is None ==> a1 == UploadActionView::List
            &&& moved ==> a2 is Failed && !w2.lineage_checked && w2.verified_pos == w.verified_pos
            &&& !moved && w.cached_pos is None ==> a2 == UploadActionView::ReadPos
            &&& !moved ==> {
                &&& w3.cached_pos == Some(pos)
                &&& w3.remote_txid == Some(at)
                &&& at.0 >= pos.txid.0 ==> a3 == (UploadActionView::Done {
                    uploaded: 0,
                    bytes_uploaded: 0,
                    remote_txid: at,
                })
                &&& at.0 < pos.txid.0 ==> a3 == UploadActionView::CheckCancel && u3.cursor == at
                    && u3.local == pos.txid && u3.uploaded == 0 && u3.bytes_uploaded == 0
            }
        }),
{
}

/// One file of an upload: the one right behind the bucket's newest is opened
/// and sent. Once it is placed the bucket stands there; the verified position
/// moves up to it, never back, and is then persisted; the file and its bytes
/// are counted; and the upload ends when the bucket stands at the local
/// position, or goes on with the next file.
pub proof fn lemma_upload_file(w: Writer, u: Upload, size: u64)
    requires
        u.wf(),
        u.stage == UploadStage::CheckingCancel,
        u.bytes_uploaded + size <= u64::MAX,
    ensures
        ({
            let (w1, u1, a1) = upload_step(w, u, UploadEventView::CancelChecked(false));
            let (w2, u2, a2) = upload_step(w1, u1, UploadEventView::Opened { size });
            let (w3, u3, a3) = upload_step(w2, u2, UploadEventView::Sent);
            let next = Txid((u.cursor.0 + 1) as u64);
            let rises = next.0 > w.verified_pos.0;
            let (w4, u4, a4) = if rises {
                upload_step(w3, u3, UploadEventView::Saved)
            } else {
                (w3, u3, a3)
            };
            &&& next.0 == u.cursor.0 + 1
            &&& a1 == UploadActionView::Open(next)
            &&& a2 == UploadActionView::Send(next)
            &&& w2 == w
            &&& rises ==> a3 == UploadActionView::Save(next)
            &&& w4 == (Writer {
                remote_txid: Some(next),
                verified_pos: if rises {
                    next
                } else {
                    w.verified_pos
                },
                ..w
            })
            &&& next == u.local ==> a4 == (UploadActionView::Done {
                uploaded: (u.uploaded + 1) as u64,
                bytes_uploaded: (u.bytes_uploaded + size) as u64,
                remote_txid: next,
            })
            &&& next != u.local ==> a4 == UploadActionView::CheckCancel && u4.cursor == next
                && u4.local == u.local && u4.uploaded == u.uploaded + 1 && u4.bytes_uploaded
                == u.bytes_uploaded + size
        }),
{
}

/// How an upload fails: cancelled, with the storage's own failure, or with
/// the local file that could not be opened, which is named with its
/// transaction. The bucket's position is then unknown, and nothing else about
/// the writer changed.
pub proof fn lemma_upload_breaks(w: Writer, u: Upload, e: UploadEventView)
    requires
        u.wf(),
    ensures
        ({
            let (w2, u2, a) = upload_step(w, u, e);
            let forgot = w2 == (Writer { remote_txid: None, ..w });
            &&& u.stage == UploadStage::CheckingCancel && e == UploadEventView::CancelChecked(true)
                ==> a == UploadActionView::Failed(ErrorView::Cancelled) && forgot
            &&& u.stage == UploadStage::Opening ==> (e matches UploadEventView::OpenFailed {
                path,
                cause,
            } ==> a == UploadActionView::Failed(
                ErrorView::LocalLtx {
                    txid: Txid((u.cursor.0 + 1) as u64),
                    msg: "open"@ + " "@ + quoted_path_text(path) + ": "@ + cause,
                },
            ) && forgot)
            &&& u.stage == UploadStage::Sending ==> (e matches UploadEventView::SendFailed(err) ==> a
                == UploadActionView::Failed(
                if err is Cancelled {
                    ErrorView::Cancelled
                } else {
                    ErrorView::Storage(err)
                },
            ) && forgot)
            &&& u.stage == UploadStage::Listing ==> (e matches UploadEventView::Listed(max) ==> {
                let at = match max {
                    Some(t) => t,
                    None => Txid(0),
                };
                a is Failed ==> at != w.verified_pos && a == UploadActionView::Failed(
                    ErrorView::Other(
                        "bucket moved outside this session's verified position (bucket at "@
                            + at.text() + ", session verified "@ + w.verified_pos.text()
                            + "): foreign writer suspected; the next push re-runs the lineage check"@,
                    ),
                )
            })
        }),
{
}

/// What a lineage check asks for that nobody cancels. A session that passed it
/// asks for nothing. Else the bucket is listed. A bucket that this lineage
/// wrote brings only a look at the persisted position, which is persisted anew
/// where it differs. A foreign bucket has the local L0 files deleted and its
/// newest L0 file put in their place; where it is empty they are only deleted.
/// Either way the bucket's position is persisted.
pub proof fn lemma_lineage_asks(w: Writer, remote: Option<(Txid, Txid)>, persisted: Option<Txid>)
    ensures
        ({
            let l0 = Lineage { stage: LineageStage::Starting, remote_min: Txid(0), remote_max: Txid(0) };
            let (w1, l1, a1) = lineage_step(w, l0, LineageEvent::Start);
            let (w2, l2, a2) = lineage_step(w1, l1, LineageEvent::CancelChecked(false));
            let (w3, l3, a3) = lineage_step(w2, l2, LineageEvent::Listed(remote));
            let max = match remote {
                Some(f) => f.1,
                None => Txid(0),
            };
            let own = if w.verified_pos_provisional {
                max.0 <= w.verified_pos.0
            } else {
                max == w.verified_pos
            };
            &&& w.lineage_checked ==> a1 == LineageAction::Done && w1 == w
            &&& !w.lineage_checked ==> {
                &&& a1 == LineageAction::CheckCancel
                &&& a2 == LineageAction::List
                &&& w2 == w
                &&& own ==> {
                    let (w4, l4, a4) = lineage_step(w3, l3, LineageEvent::VerifiedRead(persisted));
                    &&& a3 == LineageAction::ReadVerified
                    &&& persisted == Some(max) ==> a4 == LineageAction::Done
                    &&& persisted != Some(max) ==> a4 == LineageAction::Save(max) && lineage_step(
                        w4,
                        l4,
                        LineageEvent::Saved,
                    ).2 == LineageAction::Done
                }
                &&& !own && remote is None ==> {
                    let (w4, l4, a4) = lineage_step(w3, l3, LineageEvent::L0Cleared);
                    &&& a3 == LineageAction::ClearL0
                    &&& a4 == LineageAction::Save(Txid(0))
                    &&& lineage_step(w4, l4, LineageEvent::Saved).2 == LineageAction::Done
                }
                &&& !own && remote is Some ==> {
                    let (w4, l4, a4) = lineage_step(w3, l3, LineageEvent::CancelChecked(false));
                    let (w5, l5, a5) = lineage_step(w4, l4, LineageEvent::L0Cleared);
                    let (w6, l6, a6) = lineage_step(w5, l5, LineageEvent::Adopted);
                    &&& a3 == LineageAction::CheckCancel
                    &&& lineage_step(w3, l3, LineageEvent::CancelChecked(true)) == (
                        w,
                        Lineage { stage: LineageStage::Ended, ..l3 },
                        LineageAction::Cancelled,
                    )
                    &&& a4 == LineageAction::ClearL0
                    &&& a5 == (LineageAction::Adopt {
                        min_txid: remote.unwrap().0,
                        max_txid: remote.unwrap().1,
                    })
                    &&& a6 == LineageAction::Save(max)
                    &&& lineage_step(w6, l6, LineageEvent::Saved).2 == LineageAction::Done
                }
                &&& lineage_step(w1, l1, LineageEvent::CancelChecked(true)).2
                    == LineageAction::Cancelled
            }
        }),
{
}

/// What an upload knows before it sends anything, and nothing else about the
/// writer changes: where the bucket stands and where the local files end. A
/// bucket that moved costs the session its lineage check alone. An event that
/// does not answer what was asked for changes nothing, and nothing answers an
/// upload that has ended.
pub proof fn lemma_upload_touches(w: Writer, u: Upload, e: UploadEventView)
    ensures
        ({
            let (w2, u2, a) = upload_step(w, u, e);
            &&& u.stage == UploadStage::Starting || u.stage == UploadStage::Saving || u.stage
                == UploadStage::Opening && !(a is Failed) ==> w2 == w
            &&& u.stage == UploadStage::Listing && e is Listed ==> w2 == if a is Failed {
                Writer { lineage_checked: false, ..w }
            } else {
                Writer { remote_txid: Some(w.verified_pos), ..w }
            }
            &&& u.stage == UploadStage::ReadingPos ==> (e matches UploadEventView::Pos(p) ==> w2 == (
            Writer { cached_pos: Some(p), ..w }))
            &&& a is Unexpected ==> w2 == w && u2 == u
            &&& u.stage == UploadStage::Ended ==> a is Unexpected
            &&& a is Failed || a is Done ==> u2.stage == UploadStage::Ended
        }),
{
}

/// What a lineage check has done when it is broken off. Up to the listing, and
/// to the deletion of the local files of a foreign bucket, nothing about the
/// writer has changed, but for the baseline where the bucket is this lineage's
/// own. With the files deleted the local position is forgotten; with the
/// bucket's newest file in their place, or without any, the bucket's position
/// is the baseline and the WAL no longer counts as consumed. The session's
/// lineage is settled only once that baseline is persisted.
pub proof fn lemma_lineage_midway(w: Writer, l: Lineage, e: LineageEvent)
    ensures
        ({
            let (w2, l2, a) = lineage_step(w, l, e);
            let max = match e {
                LineageEvent::Listed(Some(f)) => f.1,
                _ => Txid(0),
            };
            let based = Writer {
                verified_pos: l.remote_max,
                cached_pos: None,
                state: SyncState { synced_to_wal_end: false, ..w.state },
                ..w
            };
            &&& l.stage == LineageStage::Starting || l.stage == LineageStage::CheckingCancel || l.stage
                == LineageStage::CheckingCancelAgain ==> w2 == w
            &&& l.stage == LineageStage::Listing && e is Listed ==> {
                &&& l2.remote_max == max
                &&& a == LineageAction::ReadVerified ==> w2 == (Writer { verified_pos: max, ..w })
                &&& a != LineageAction::ReadVerified ==> w2 == w
            }
            &&& l.stage == LineageStage::ClearingToAdopt && e is L0Cleared ==> w2 == (Writer {
                cached_pos: None,
                ..w
            })
            &&& l.stage == LineageStage::Adopting && e is Adopted ==> w2 == based
            &&& l.stage == LineageStage::ClearingToReseed && e is L0Cleared ==> w2 == based
            &&& w2.lineage_checked && !w.lineage_checked ==> a == LineageAction::Done && w2 == (Writer {
                lineage_checked: true,
                verified_pos_provisional: false,
                remote_txid: Some(l.remote_max),
                ..w
            }) && (e is Saved || e == LineageEvent::VerifiedRead(Some(l.remote_max)))
            &&& a == LineageAction::Done && l.stage != LineageStage::Starting ==> w2.lineage_checked
            &&& a == LineageAction::Unexpected ==> w2 == w && l2 == l
            &&& l.stage == LineageStage::Ended ==> a == LineageAction::Unexpected
        }),
{
}

} // verus!
