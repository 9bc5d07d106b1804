//! Restoring a replica from scratch: plan, merge, materialize, check, rename.
//!
//! A state machine: [`Restore`] holds where one run stands; a step takes what
//! the last action came to and gives the next action. An action that fails
//! ends the run with its own error, and the temporary files go with it. The
//! image is checked while it is still a temporary file, so the replica that
//! is there survives a restore that fails. With the image in place, all that
//! is left to fail is the write of its position.

use vstd::prelude::*;
use vstd::string::*;

use crate::error::Error;
#[allow(unused_imports)]
use crate::error::ErrorView;
use crate::incremental::LtxFile;
#[allow(unused_imports)]
use crate::incremental::file_of;
use crate::ltx::{FileInfo, Txid, HEADER_SIZE};
use crate::replica::{IntegrityCheck, Replica};
use crate::text::push_decimal;
#[allow(unused_imports)]
use crate::text::dec_text;

verus! {

/// Where a restore stands.
#[derive(Debug, Clone, Copy, PartialEq, Eq, Structural)]
pub enum RestoreStage {
    Planning,
    CheckingCancel,
    OpeningFile,
    Materializing,
    PresentingJournal,
    SyncingImage,
    CheckingCancelAgain,
    CheckingIntegrity,
    Renaming,
    RemovingSideFiles,
    WritingTxid,
    Ended,
}

/// One full restore.
#[derive(Debug)]
pub struct Restore {
    pub stage: RestoreStage,
    /// The files that make up the database, and the one to open next.
    pub plan: Vec<FileInfo>,
    pub i: usize,
    /// The position that the restore comes to.
    pub to: Txid,
}

/// What the last action came to.
#[derive(Debug)]
pub enum RestoreEvent {
    /// The files that make up the database, in order.
    Planned(Vec<FileInfo>),
    /// Whether the restore was cancelled.
    CancelChecked(bool),
    FileOpened,
    /// The image is complete in the temporary file; its length.
    Materialized { len: u64 },
    JournalPresented,
    ImageSynced,
    /// What the integrity check reported.
    IntegrityChecked(String),
    Renamed,
    SideFilesRemoved,
    TxidWritten,
}

/// What to do next.
#[derive(Debug)]
pub enum RestoreAction {
    CheckCancel,
    /// Open this file of the bucket.
    OpenFile(LtxFile),
    /// Merge the opened files and decode the database image into a temporary
    /// file.
    Materialize,
    /// Write 1 to the two bytes of the image from this offset on: the image
    /// then reads as a rollback-journal database.
    PresentJournal { offset: u64 },
    /// Flush the image.
    SyncImage,
    /// Run this integrity check over the image.
    CheckIntegrity(&'static str),
    /// Put the image in the replica's place.
    Rename,
    /// Delete stale SQLite side files next to it.
    RemoveSideFiles,
    /// Persist the position.
    WriteTxid(Txid),
    Done(Txid),
    Failed(Error),
    /// The event does not answer the last action; nothing changed.
    Unexpected,
}

/// The mathematical counterpart of [`Restore`].
#[verifier::ext_equal]
pub struct RestoreView {
    pub stage: RestoreStage,
    pub plan: Seq<FileInfo>,
    pub i: int,
    pub to: Txid,
}

/// The mathematical counterpart of [`RestoreEvent`].
#[verifier::ext_equal]
pub enum RestoreEventView {
    Planned(Seq<FileInfo>),
    CancelChecked(bool),
    FileOpened,
    Materialized { len: u64 },
    JournalPresented,
    ImageSynced,
    IntegrityChecked(Seq<char>),
    Renamed,
    SideFilesRemoved,
    TxidWritten,
}

/// The mathematical counterpart of [`RestoreAction`].
#[verifier::ext_equal]
pub enum RestoreActionView {
    CheckCancel,
    OpenFile(LtxFile),
    Materialize,
    PresentJournal { offset: u64 },
    SyncImage,
    CheckIntegrity(Seq<char>),
    Rename,
    RemoveSideFiles,
    WriteTxid(Txid),
    Done(Txid),
    Failed(ErrorView),
    Unexpected,
}

impl View for Restore {
    type V = RestoreView;

    open spec fn view(&self) -> RestoreView {
        RestoreView {
            stage: self.stage,
            plan: self.plan@,
            i: self.i as int,
            to: self.to,
        }
    }
}

impl View for RestoreEvent {
    type V = RestoreEventView;

    open spec fn view(&self) -> RestoreEventView {
        match self {
            RestoreEvent::Planned(v) => RestoreEventView::Planned(v@),
            RestoreEvent::CancelChecked(b) => RestoreEventView::CancelChecked(*b),
            RestoreEvent::FileOpened => RestoreEventView::FileOpened,
            RestoreEvent::Materialized { len } => RestoreEventView::Materialized { len: *len },
            RestoreEvent::JournalPresented => RestoreEventView::JournalPresented,
            RestoreEvent::ImageSynced => RestoreEventView::ImageSynced,
            RestoreEvent::IntegrityChecked(s) => RestoreEventView::IntegrityChecked(s@),
            RestoreEvent::Renamed => RestoreEventView::Renamed,
            RestoreEvent::SideFilesRemoved => RestoreEventView::SideFilesRemoved,
            RestoreEvent::TxidWritten => RestoreEventView::TxidWritten,
        }
    }
}

impl View for RestoreAction {
    type V = RestoreActionView;

    open spec fn view(&self) -> RestoreActionView {
        match self {
            RestoreAction::CheckCancel => RestoreActionView::CheckCancel,
            RestoreAction::OpenFile(f) => RestoreActionView::OpenFile(*f),
            RestoreAction::Materialize => RestoreActionView::Materialize,
            RestoreAction::PresentJournal { offset } => RestoreActionView::PresentJournal {
                offset: *offset,
            },
            RestoreAction::SyncImage => RestoreActionView::SyncImage,
            RestoreAction::CheckIntegrity(s) => RestoreActionView::CheckIntegrity(s@),
            RestoreAction::Rename => RestoreActionView::Rename,
            RestoreAction::RemoveSideFiles => RestoreActionView::RemoveSideFiles,
            RestoreAction::WriteTxid(t) => RestoreActionView::WriteTxid(*t),
            RestoreAction::Done(t) => RestoreActionView::Done(*t),
            RestoreAction::Failed(e) => RestoreActionView::Failed(e@),
            RestoreAction::Unexpected => RestoreActionView::Unexpected,
        }
    }
}

/// The first file of `plan`, from the `k`-th on, that is too small to hold a
/// header.
pub open spec fn first_short(plan: Seq<FileInfo>, k: int) -> Option<FileInfo>
    decreases plan.len() - k,
{
    if k >= plan.len() {
        None
    } else if plan[k].size < HEADER_SIZE {
        Some(plan[k])
    } else {
        first_short(plan, k + 1)
    }
}

/// The message for a file that is too small.
pub open spec fn short_file_text(f: FileInfo) -> Seq<char> {
    "invalid ltx file: level="@ + dec_text(f.level as nat) + " min="@ + f.min_txid.text() + " max="@
        + f.max_txid.text() + " has size "@ + dec_text(f.size as nat) + " bytes"@
}

/// The pragma that checks a database, `None` for no check.
pub open spec fn integrity_pragma(check: IntegrityCheck) -> Option<Seq<char>> {
    match check {
        IntegrityCheck::Off => None,
        IntegrityCheck::Quick => Some("quick_check"@),
        IntegrityCheck::Full => Some("integrity_check"@),
    }
}

/// The next file to open, or the end of them.
pub open spec fn next_file(r: RestoreView) -> (RestoreView, RestoreActionView) {
    if r.i < r.plan.len() {
        (RestoreView { stage: RestoreStage::CheckingCancel, ..r }, RestoreActionView::CheckCancel)
    } else {
        (RestoreView { stage: RestoreStage::Materializing, ..r }, RestoreActionView::Materialize)
    }
}

/// Ends the restore with an error.
pub open spec fn restore_fails(r: RestoreView, e: ErrorView) -> (RestoreView, RestoreActionView) {
    (RestoreView { stage: RestoreStage::Ended, ..r }, RestoreActionView::Failed(e))
}

/// One step of a restore.
pub open spec fn restore_step(check: IntegrityCheck, r: RestoreView, e: RestoreEventView) -> (
    RestoreView,
    RestoreActionView,
) {
    match (r.stage, e) {
        (RestoreStage::Planning, RestoreEventView::Planned(plan)) => match first_short(plan, 0) {
            Some(f) => restore_fails(r, ErrorView::Other(short_file_text(f))),
            None => next_file(RestoreView { plan, i: 0, to: plan.last().max_txid, ..r }),
        },
        (RestoreStage::CheckingCancel, RestoreEventView::CancelChecked(cancelled)) => if cancelled {
            restore_fails(r, ErrorView::Cancelled)
        } else {
            (
                RestoreView { stage: RestoreStage::OpeningFile, ..r },
                RestoreActionView::OpenFile(file_of(r.plan[r.i])),
            )
        },
        (RestoreStage::OpeningFile, RestoreEventView::FileOpened) => next_file(
            RestoreView { i: r.i + 1, ..r },
        ),
        (RestoreStage::Materializing, RestoreEventView::Materialized { len }) => if len >= 100 {
            (
                RestoreView { stage: RestoreStage::PresentingJournal, ..r },
                RestoreActionView::PresentJournal { offset: 18 },
            )
        } else {
            // Too short for a database header: nothing to read either way.
            (RestoreView { stage: RestoreStage::SyncingImage, ..r }, RestoreActionView::SyncImage)
        },
        (RestoreStage::PresentingJournal, RestoreEventView::JournalPresented) => (
            RestoreView { stage: RestoreStage::SyncingImage, ..r },
            RestoreActionView::SyncImage,
        ),
        (RestoreStage::SyncingImage, RestoreEventView::ImageSynced) => (
            RestoreView { stage: RestoreStage::CheckingCancelAgain, ..r },
            RestoreActionView::CheckCancel,
        ),
        (RestoreStage::CheckingCancelAgain, RestoreEventView::CancelChecked(cancelled)) => if cancelled {
            restore_fails(r, ErrorView::Cancelled)
        } else {
            match integrity_pragma(check) {
                Some(pragma) => (
                    RestoreView { stage: RestoreStage::CheckingIntegrity, ..r },
                    RestoreActionView::CheckIntegrity(pragma),
                ),
                None => (
                    RestoreView { stage: RestoreStage::Renaming, ..r },
                    RestoreActionView::Rename,
                ),
            }
        },
        (RestoreStage::CheckingIntegrity, RestoreEventView::IntegrityChecked(report)) => if report
            == "ok"@ {
            (RestoreView { stage: RestoreStage::Renaming, ..r }, RestoreActionView::Rename)
        } else {
            restore_fails(r, ErrorView::Other("post-restore integrity check failed: "@ + report))
        },
        (RestoreStage::Renaming, RestoreEventView::Renamed) => (
            RestoreView { stage: RestoreStage::RemovingSideFiles, ..r },
            RestoreActionView::RemoveSideFiles,
        ),
        (RestoreStage::RemovingSideFiles, RestoreEventView::SideFilesRemoved) => (
            RestoreView { stage: RestoreStage::WritingTxid, ..r },
            RestoreActionView::WriteTxid(r.to),
        ),
        (RestoreStage::WritingTxid, RestoreEventView::TxidWritten) => (
            RestoreView { stage: RestoreStage::Ended, ..r },
            RestoreActionView::Done(r.to),
        ),
        _ => (r, RestoreActionView::Unexpected),
    }
}

/// A restore at its start.
pub open spec fn restore_start() -> RestoreView {
    RestoreView { stage: RestoreStage::Planning, plan: Seq::empty(), i: 0, to: Txid(0) }
}

impl RestoreView {
    /// A file is opened only while one is left.
    pub open spec fn wf(self) -> bool {
        &&& 0 <= self.i <= self.plan.len()
        &&& self.stage == RestoreStage::CheckingCancel || self.stage == RestoreStage::OpeningFile
            ==> self.i < self.plan.len()
    }
}

impl Restore {
    pub fn new() -> (r: Restore)
        ensures
            r@ == restore_start(),
            r@.wf(),
    {
        Restore { stage: RestoreStage::Planning, plan: Vec::new(), i: 0, to: Txid(0) }
    }

    fn fail(&mut self, e: Error) -> (a: RestoreAction)
        ensures
            (final(self)@, a@) == restore_fails(old(self)@, e@),
    {
        self.stage = RestoreStage::Ended;
        RestoreAction::Failed(e)
    }

    fn next_file(&mut self) -> (a: RestoreAction)
        ensures
            (final(self)@, a@) == next_file(old(self)@),
    {
        if self.i < self.plan.len() {
            self.stage = RestoreStage::CheckingCancel;
            RestoreAction::CheckCancel
        } else {
            self.stage = RestoreStage::Materializing;
            RestoreAction::Materialize
        }
    }
}

/// Minimum plausible size check: the message for the first file of the plan
/// that is too small to hold a header.
fn check_plan(plan: &Vec<FileInfo>) -> (r: Option<String>)
    ensures
        match first_short(plan@, 0) {
            Some(f) => r matches Some(s) && s@ == short_file_text(f),
            None => r is None,
        },
{
    let n: usize = plan.len();
    let mut k: usize = 0;
    while k < n
        invariant
            k <= n == plan@.len(),
            first_short(plan@, 0) == first_short(plan@, k as int),
        decreases n - k,
    {
        let info = &plan[k];
        if info.size < HEADER_SIZE as u64 {
            let mut m = String::from_str("invalid ltx file: level=");
            push_decimal(&mut m, info.level as u64);
            m.append(" min=");
            m.append(info.min_txid.to_string().as_str());
            m.append(" max=");
            m.append(info.max_txid.to_string().as_str());
            m.append(" has size ");
            push_decimal(&mut m, info.size);
            m.append(" bytes");
            return Some(m);
        }
        k = k + 1;
    }
    None
}

impl Replica {
    /// `PRAGMA quick_check`/`integrity_check` over the freshly restored
    /// image, before it replaces the replica: which one, if any.
    pub fn check_integrity(&self) -> (r: Option<&'static str>)
        ensures
            match integrity_pragma(self.opts.integrity_check) {
                Some(p) => r matches Some(s) && s@ == p,
                None => r is None,
            },
    {
        match self.opts.integrity_check {
            IntegrityCheck::Off => None,
            IntegrityCheck::Quick => Some("quick_check"),
            IntegrityCheck::Full => Some("integrity_check"),
        }
    }

    /// Full restore: one step. The plan names at least one file.
    pub fn full_restore(&self, run: &mut Restore, event: RestoreEvent) -> (a: RestoreAction)
        requires
            old(run)@.wf(),
            event matches RestoreEvent::Planned(plan) ==> plan@.len() > 0,
        ensures
            (final(run)@, a@) == restore_step(self.opts.integrity_check, old(run)@, event@),
            final(run)@.wf(),
    {
        match (run.stage, event) {
            (RestoreStage::Planning, RestoreEvent::Planned(plan)) => {
                match check_plan(&plan) {
                    Some(m) => {
                        return run.fail(Error::Other(m));
                    },
                    None => {},
                }
                run.to = plan[plan.len() - 1].max_txid;
                run.plan = plan;
                run.i = 0;
                run.next_file()
            },
            (RestoreStage::CheckingCancel, RestoreEvent::CancelChecked(cancelled)) => {
                if cancelled {
                    return run.fail(Error::Cancelled);
                }
                run.stage = RestoreStage::OpeningFile;
                let info = &run.plan[run.i];
                RestoreAction::OpenFile(
                    LtxFile {
                        level: info.level,
                        min_txid: info.min_txid,
                        max_txid: info.max_txid,
                    },
                )
            },
            (RestoreStage::OpeningFile, RestoreEvent::FileOpened) => {
                assert(run.i < run.plan.len());
                run.i = run.i + 1;
                run.next_file()
            },
            (RestoreStage::Materializing, RestoreEvent::Materialized { len }) => {
                // A snapshot's page 1 is a copy of the origin's, WAL header
                // and all; a read-only reader cannot open that once the side
                // files are gone.
                if len >= 100 {
                    run.stage = RestoreStage::PresentingJournal;
                    RestoreAction::PresentJournal { offset: 18 }
                } else {
                    run.stage = RestoreStage::SyncingImage;
                    RestoreAction::SyncImage
                }
            },
            (RestoreStage::PresentingJournal, RestoreEvent::JournalPresented) => {
                run.stage = RestoreStage::SyncingImage;
                RestoreAction::SyncImage
            },
            (RestoreStage::SyncingImage, RestoreEvent::ImageSynced) => {
                run.stage = RestoreStage::CheckingCancelAgain;
                RestoreAction::CheckCancel
            },
            (RestoreStage::CheckingCancelAgain, RestoreEvent::CancelChecked(cancelled)) => {
                if cancelled {
                    return run.fail(Error::Cancelled);
                }
                match self.check_integrity() {
                    Some(pragma) => {
                        run.stage = RestoreStage::CheckingIntegrity;
                        RestoreAction::CheckIntegrity(pragma)
                    },
                    None => {
                        run.stage = RestoreStage::Renaming;
                        RestoreAction::Rename
                    },
                }
            },
            (RestoreStage::CheckingIntegrity, RestoreEvent::IntegrityChecked(report)) => {
                if report == String::from_str("ok") {
                    run.stage = RestoreStage::Renaming;
                    return RestoreAction::Rename;
                }
                let mut m = String::from_str("post-restore integrity check failed: ");
                m.append(report.as_str());
                run.fail(Error::Other(m))
            },
            (RestoreStage::Renaming, RestoreEvent::Renamed) => {
                // Never leave stale side files next to a fresh image.
                run.stage = RestoreStage::RemovingSideFiles;
                RestoreAction::RemoveSideFiles
            },
            (RestoreStage::RemovingSideFiles, RestoreEvent::SideFilesRemoved) => {
                run.stage = RestoreStage::WritingTxid;
                RestoreAction::WriteTxid(run.to)
            },
            (RestoreStage::WritingTxid, RestoreEvent::TxidWritten) => {
                run.stage = RestoreStage::Ended;
                RestoreAction::Done(run.to)
            },
            _ => RestoreAction::Unexpected,
        }
    }
}

/// The state that a restore reaches through these events.
pub open spec fn restore_reaches(check: IntegrityCheck, r: RestoreView, events: Seq<RestoreEventView>) -> RestoreView
    decreases events.len(),
{
    if events.len() == 0 {
        r
    } else {
        restore_step(check, restore_reaches(check, r, events.drop_last()), events.last()).0
    }
}

/// How far a stage is along the way.
pub open spec fn past_image(stage: RestoreStage) -> bool {
    stage == RestoreStage::PresentingJournal || stage == RestoreStage::SyncingImage || past_sync(
        stage,
    )
}

pub open spec fn past_sync(stage: RestoreStage) -> bool {
    stage == RestoreStage::CheckingCancelAgain || stage == RestoreStage::CheckingIntegrity
        || past_check(stage)
}

pub open spec fn past_check(stage: RestoreStage) -> bool {
    stage == RestoreStage::Renaming || past_rename(stage)
}

pub open spec fn past_rename(stage: RestoreStage) -> bool {
    stage == RestoreStage::RemovingSideFiles || stage == RestoreStage::WritingTxid
}

/// Whether the event says that the image reads as a rollback-journal database,
/// or that it is too short for a header.
pub open spec fn journal_settled(e: RestoreEventView) -> bool {
    match e {
        RestoreEventView::JournalPresented => true,
        RestoreEventView::Materialized { len } => len < 100,
        _ => false,
    }
}

/// Whether one of the events is of this form.
pub open spec fn some_event(events: Seq<RestoreEventView>, form: spec_fn(RestoreEventView) -> bool) -> bool {
    exists|i: int| 0 <= i < events.len() && form(#[trigger] events[i])
}

proof fn lemma_some_event(events: Seq<RestoreEventView>, form: spec_fn(RestoreEventView) -> bool)
    requires
        events.len() > 0,
    ensures
        some_event(events.drop_last(), form) ==> some_event(events, form),
        form(events.last()) ==> some_event(events, form),
{
    let before = events.drop_last();
    if some_event(before, form) {
        let i = choose|i: int| 0 <= i < before.len() && form(#[trigger] before[i]);
        assert(events[i] == before[i]);
    }
    assert(events.last() == events[events.len() - 1]);
}

/// The replica is replaced only by a complete image that was flushed to disk
/// and, where a check is asked for, of which the check reported `ok`; and the
/// position is persisted only once the image is in place and stale side files
/// next to it are gone. An image of a hundred bytes or more, the least that holds a database header, reads as a
/// rollback-journal database before it is put in place.
pub proof fn lemma_restore_order(check: IntegrityCheck, events: Seq<RestoreEventView>)
    ensures
        ({
            let stage = restore_reaches(check, restore_start(), events).stage;
            &&& past_image(stage) ==> some_event(events, |e: RestoreEventView| e is Materialized)
            &&& past_sync(stage) ==> some_event(events, |e: RestoreEventView| e is ImageSynced)
            &&& past_sync(stage) ==> some_event(events, |e: RestoreEventView| journal_settled(e))
            &&& stage == RestoreStage::SyncingImage ==> some_event(
                events,
                |e: RestoreEventView| journal_settled(e),
            )
            &&& past_check(stage) && check != IntegrityCheck::Off ==> some_event(
                events,
                |e: RestoreEventView| e == RestoreEventView::IntegrityChecked("ok"@),
            )
            &&& past_rename(stage) ==> some_event(events, |e: RestoreEventView| e is Renamed)
            &&& stage == RestoreStage::WritingTxid ==> some_event(
                events,
                |e: RestoreEventView| e is SideFilesRemoved,
            )
        }),
    decreases events.len(),
{
    if events.len() > 0 {
        lemma_restore_order(check, events.drop_last());
        lemma_some_event(events, |e: RestoreEventView| e is Materialized);
        lemma_some_event(events, |e: RestoreEventView| e is ImageSynced);
        lemma_some_event(events, |e: RestoreEventView| journal_settled(e));
        lemma_some_event(events, |e: RestoreEventView| e is Renamed);
        lemma_some_event(events, |e: RestoreEventView| e is SideFilesRemoved);
        lemma_some_event(
            events,
            |e: RestoreEventView| e == RestoreEventView::IntegrityChecked("ok"@),
        );
    }
}

/// Everything that a restore asks for on its way through these events.
pub open spec fn restore_asks(check: IntegrityCheck, r: RestoreView, events: Seq<RestoreEventView>) -> Seq<
    RestoreActionView,
>
    decreases events.len(),
{
    if events.len() == 0 {
        Seq::empty()
    } else {
        let before = events.drop_last();
        restore_asks(check, r, before).push(
            restore_step(check, restore_reaches(check, r, before), events.last()).1,
        )
    }
}

/// The replica that is there survives a restore that fails: a restore that
/// ends with an error, that of its integrity check among them, has asked
/// neither to put the image in the replica's place, nor to delete a file next
/// to it, nor to persist a position.
pub proof fn lemma_replica_survives(check: IntegrityCheck, events: Seq<RestoreEventView>)
    ensures
        ({
            let asks = restore_asks(check, restore_start(), events);
            (exists|i: int| 0 <= i < asks.len() && #[trigger] asks[i] is Failed) ==> forall|i: int|
                0 <= i < asks.len() ==> !touches_replica(#[trigger] asks[i])
        }),
{
    lemma_touch_excludes_failure(check, events);
}

/// The position in the sidecar after these events of a restore: the one before
/// it, until a write of the restore's position went through.
pub open spec fn sidecar_after_restore(
    check: IntegrityCheck,
    old_txid: Txid,
    events: Seq<RestoreEventView>,
) -> Txid
    decreases events.len(),
{
    if events.len() == 0 {
        old_txid
    } else {
        let r1 = restore_reaches(check, restore_start(), events.drop_last());
        if r1.stage == RestoreStage::WritingTxid && events.last() is TxidWritten {
            r1.to
        } else {
            sidecar_after_restore(check, old_txid, events.drop_last())
        }
    }
}

/// A restore that ends well reports what the sidecar then holds; the image in
/// place reads as a rollback-journal database, if it holds a header at all,
/// and stale side files are gone. One that fails leaves the sidecar as it was.
pub proof fn lemma_restore_reports_sidecar(
    check: IntegrityCheck,
    old_txid: Txid,
    events: Seq<RestoreEventView>,
)
    requires
        events.len() > 0,
    ensures
        ({
            let sidecar = sidecar_after_restore(check, old_txid, events);
            match restore_asks(check, restore_start(), events).last() {
                RestoreActionView::Done(to) => {
                    &&& to == sidecar
                    &&& some_event(events, |e: RestoreEventView| journal_settled(e))
                    &&& some_event(events, |e: RestoreEventView| e is SideFilesRemoved)
                },
                RestoreActionView::Failed(_) => sidecar == old_txid,
                _ => true,
            }
        }),
{
    let before = events.drop_last();
    lemma_restore_order(check, before);
    lemma_sidecar_kept(check, old_txid, before);
    lemma_some_event(events, |e: RestoreEventView| journal_settled(e));
    lemma_some_event(events, |e: RestoreEventView| e is SideFilesRemoved);
    let asks = restore_asks(check, restore_start(), events);
    assert(asks.last() == restore_step(
        check,
        restore_reaches(check, restore_start(), before),
        events.last(),
    ).1);
}

/// Until a restore has ended, the sidecar holds the position it held before.
proof fn lemma_sidecar_kept(check: IntegrityCheck, old_txid: Txid, events: Seq<RestoreEventView>)
    ensures
        restore_reaches(check, restore_start(), events).stage != RestoreStage::Ended
            ==> sidecar_after_restore(check, old_txid, events) == old_txid,
    decreases events.len(),
{
    if events.len() > 0 {
        lemma_sidecar_kept(check, old_txid, events.drop_last());
    }
}

/// Whether an action changes the replica or what stands next to it.
pub open spec fn touches_replica(a: RestoreActionView) -> bool {
    a is Rename || a is RemoveSideFiles || a is WriteTxid
}

proof fn lemma_touch_excludes_failure(check: IntegrityCheck, events: Seq<RestoreEventView>)
    ensures
        ({
            let stage = restore_reaches(check, restore_start(), events).stage;
            let asks = restore_asks(check, restore_start(), events);
            let touched = exists|i: int| 0 <= i < asks.len() && touches_replica(#[trigger] asks[i]);
            let failed = exists|i: int| 0 <= i < asks.len() && #[trigger] asks[i] is Failed;
            &&& !(touched && failed)
            &&& touched ==> past_check(stage) || stage == RestoreStage::Ended
            &&& failed ==> stage == RestoreStage::Ended
        }),
    decreases events.len(),
{
    if events.len() > 0 {
        let before = events.drop_last();
        lemma_touch_excludes_failure(check, before);
        let r1 = restore_reaches(check, restore_start(), before);
        let a = restore_step(check, r1, events.last()).1;
        let old_asks = restore_asks(check, restore_start(), before);
        let asks = restore_asks(check, restore_start(), events);
        assert(asks == old_asks.push(a));
        assert(forall|i: int| 0 <= i < old_asks.len() ==> asks[i] == old_asks[i]);
        assert(asks[old_asks.len() as int] == a);
    }
}

/// What a restore of `plan` asks for, file by file, before it merges them:
/// a look for a cancellation, then the file.
pub open spec fn opening(plan: Seq<FileInfo>, n: nat) -> Seq<RestoreActionView> {
    Seq::new(
        2 * n,
        |k: int|
            if k % 2 == 0 {
                RestoreActionView::CheckCancel
            } else {
                RestoreActionView::OpenFile(
                    LtxFile {
                        level: plan[k / 2].level,
                        min_txid: plan[k / 2].min_txid,
                        max_txid: plan[k / 2].max_txid,
                    },
                )
            },
    )
}

/// The events of a restore whose first `n` files were opened without trouble.
pub open spec fn opened_events(plan: Seq<FileInfo>, n: nat) -> Seq<RestoreEventView> {
    seq![RestoreEventView::Planned(plan)] + Seq::new(
        2 * n,
        |k: int|
            if k % 2 == 0 {
                RestoreEventView::CancelChecked(false)
            } else {
                RestoreEventView::FileOpened
            },
    )
}

/// Whether every file of the plan can hold a header.
pub open spec fn plausible(plan: Seq<FileInfo>) -> bool {
    forall|k: int| 0 <= k < plan.len() ==> (#[trigger] plan[k]).size >= 100
}

/// The events behind the last file of a restore that goes well.
pub open spec fn closing_events(len: u64, checked: bool) -> Seq<RestoreEventView> {
    seq![RestoreEventView::Materialized { len }] + (if len >= 100 {
        seq![RestoreEventView::JournalPresented]
    } else {
        Seq::empty()
    }) + seq![RestoreEventView::ImageSynced, RestoreEventView::CancelChecked(false)] + (if checked {
        seq![RestoreEventView::IntegrityChecked("ok"@)]
    } else {
        Seq::empty()
    }) + seq![
        RestoreEventView::Renamed,
        RestoreEventView::SideFilesRemoved,
        RestoreEventView::TxidWritten,
    ]
}

/// What a restore to `to` asks for behind its last file, if all goes well: the
/// image is presented as a rollback-journal database if it holds a header,
/// flushed, checked where a check is asked for, put in place, and only then is
/// the position persisted.
pub open spec fn closing(len: u64, check: IntegrityCheck, to: Txid) -> Seq<RestoreActionView> {
    (if len >= 100 {
        seq![RestoreActionView::PresentJournal { offset: 18 }]
    } else {
        Seq::empty()
    }) + seq![RestoreActionView::SyncImage, RestoreActionView::CheckCancel] + (match check {
        IntegrityCheck::Off => Seq::empty(),
        IntegrityCheck::Quick => seq![RestoreActionView::CheckIntegrity("quick_check"@)],
        IntegrityCheck::Full => seq![RestoreActionView::CheckIntegrity("integrity_check"@)],
    }) + seq![
        RestoreActionView::Rename,
        RestoreActionView::RemoveSideFiles,
        RestoreActionView::WriteTxid(to),
        RestoreActionView::Done(to),
    ]
}

/// A restore opens exactly the files of its plan, each once and in the plan's
/// order, before it merges them.
pub proof fn lemma_restore_opens_plan(check: IntegrityCheck, plan: Seq<FileInfo>)
    requires
        plan.len() > 0,
        plausible(plan),
    ensures
        restore_asks(check, restore_start(), opened_events(plan, plan.len())) == opening(
            plan,
            plan.len(),
        ).push(RestoreActionView::Materialize),
{
    lemma_opens_front(check, plan, plan.len());
}

proof fn lemma_opens_front(check: IntegrityCheck, plan: Seq<FileInfo>, n: nat)
    requires
        plan.len() > 0,
        plausible(plan),
        n <= plan.len(),
    ensures
        ({
            let events = opened_events(plan, n);
            let last = if n < plan.len() {
                RestoreActionView::CheckCancel
            } else {
                RestoreActionView::Materialize
            };
            &&& restore_asks(check, restore_start(), events) == opening(plan, n).push(last)
            &&& restore_reaches(check, restore_start(), events) == (RestoreView {
                stage: if n < plan.len() {
                    RestoreStage::CheckingCancel
                } else {
                    RestoreStage::Materializing
                },
                plan,
                i: n as int,
                to: plan[plan.len() - 1].max_txid,
            })
        }),
    decreases n,
{
    let events = opened_events(plan, n);
    let start = restore_start();
    if n == 0 {
        lemma_no_short(plan, 0);
        assert(events.drop_last() =~= Seq::empty());
        assert(events.last() == RestoreEventView::Planned(plan));
        assert(restore_asks(check, start, events.drop_last()) =~= Seq::empty());
        assert(restore_reaches(check, start, events.drop_last()) == start);
        assert(restore_asks(check, start, events) =~= opening(plan, 0).push(
            RestoreActionView::CheckCancel,
        ));
    } else {
        let m = (n - 1) as nat;
        lemma_opens_front(check, plan, m);
        let e0 = opened_events(plan, m);
        let e1 = e0.push(RestoreEventView::CancelChecked(false));
        assert(events.drop_last() =~= e1);
        assert(e1.drop_last() =~= e0);
        assert(events.last() == RestoreEventView::FileOpened);
        let file = LtxFile {
            level: plan[m as int].level,
            min_txid: plan[m as int].min_txid,
            max_txid: plan[m as int].max_txid,
        };
        assert(restore_asks(check, start, e1) == restore_asks(check, start, e0).push(
            RestoreActionView::OpenFile(file),
        ));
        let last = if n < plan.len() {
            RestoreActionView::CheckCancel
        } else {
            RestoreActionView::Materialize
        };
        assert(restore_asks(check, start, events) == restore_asks(check, start, e1).push(last));
        assert(restore_asks(check, start, events) =~= opening(plan, n).push(last));
    }
}

proof fn lemma_no_short(plan: Seq<FileInfo>, k: int)
    requires
        0 <= k <= plan.len(),
        plausible(plan),
    ensures
        first_short(plan, k) is None,
    decreases plan.len() - k,
{
    if k < plan.len() {
        assert(plan[k].size >= 100);
        lemma_no_short(plan, k + 1);
    }
}

/// A restore of a plausible plan that meets no trouble does these things and
/// nothing else, in this order, and ends at the last transaction of the plan's
/// last file, which is the position it persists and reports.
pub proof fn lemma_restore_runs(check: IntegrityCheck, plan: Seq<FileInfo>, len: u64)
    requires
        plan.len() > 0,
        plausible(plan),
    ensures
        restore_asks(
            check,
            restore_start(),
            opened_events(plan, plan.len()) + closing_events(len, check != IntegrityCheck::Off),
        ) == opening(plan, plan.len()).push(RestoreActionView::Materialize) + closing(
            len,
            check,
            plan[plan.len() - 1].max_txid,
        ),
{
    let n = plan.len();
    let start = restore_start();
    lemma_opens_front(check, plan, n);
    let tail = closing_events(len, check != IntegrityCheck::Off);
    let e0 = opened_events(plan, n);
    let asked = closing(len, check, plan[n - 1].max_txid);
    lemma_closes(check, plan, len, tail.len());
    assert(tail.take(tail.len() as int) =~= tail);
    assert(asked.take(tail.len() as int) =~= asked);
}

/// The first `k` of the closing events bring the first `k` closing actions.
proof fn lemma_closes(check: IntegrityCheck, plan: Seq<FileInfo>, len: u64, k: nat)
    requires
        plan.len() > 0,
        plausible(plan),
        k <= closing_events(len, check != IntegrityCheck::Off).len(),
    ensures
        ({
            let tail = closing_events(len, check != IntegrityCheck::Off).take(k as int);
            let to = plan[plan.len() - 1].max_txid;
            let events = opened_events(plan, plan.len()) + tail;
            let r = restore_reaches(check, restore_start(), events);
            &&& restore_asks(check, restore_start(), events) == opening(plan, plan.len()).push(
                RestoreActionView::Materialize,
            ) + closing(len, check, to).take(k as int)
            &&& r.to == to
            &&& r.stage == closing_stage(len, check, k as int)
        }),
    decreases k,
{
    let n = plan.len();
    let start = restore_start();
    let to = plan[n - 1].max_txid;
    let all = closing_events(len, check != IntegrityCheck::Off);
    let asked = closing(len, check, to);
    let e0 = opened_events(plan, n);
    if k == 0 {
        lemma_opens_front(check, plan, n);
        assert(e0 + all.take(0) =~= e0);
        assert(asked.take(0) =~= Seq::empty());
        assert(opening(plan, n).push(RestoreActionView::Materialize) + asked.take(0)
            =~= opening(plan, n).push(RestoreActionView::Materialize));
    } else {
        let j = (k - 1) as nat;
        lemma_closes(check, plan, len, j);
        let events = e0 + all.take(k as int);
        assert(events.drop_last() =~= e0 + all.take(j as int));
        assert(events.last() == all[j as int]);
        let r1 = restore_reaches(check, start, events.drop_last());
        assert(restore_step(check, r1, all[j as int]).1 == asked[j as int]);
        assert(restore_asks(check, start, events) =~= opening(plan, n).push(
            RestoreActionView::Materialize,
        ) + asked.take(k as int));
    }
}

/// Where a restore stands after `k` of its closing events.
pub open spec fn closing_stage(len: u64, check: IntegrityCheck, k: int) -> RestoreStage {
    let presented = if len >= 100 {
        1int
    } else {
        0
    };
    let checked = if check == IntegrityCheck::Off {
        0int
    } else {
        1
    };
    if k == 0 {
        RestoreStage::Materializing
    } else if k <= presented {
        RestoreStage::PresentingJournal
    } else if k == presented + 1 {
        RestoreStage::SyncingImage
    } else if k == presented + 2 {
        RestoreStage::CheckingCancelAgain
    } else if k <= presented + 2 + checked {
        RestoreStage::CheckingIntegrity
    } else if k == presented + checked + 3 {
        RestoreStage::Renaming
    } else if k == presented + checked + 4 {
        RestoreStage::RemovingSideFiles
    } else if k == presented + checked + 5 {
        RestoreStage::WritingTxid
    } else {
        RestoreStage::Ended
    }
}

/// A restore ends with an error for these reasons, and with these errors: a
/// file of the plan that cannot hold a header, of which the first is named; a
/// cancellation, wherever it is looked for; and an integrity check that
/// reports anything but `ok`.
pub proof fn lemma_restore_fails(check: IntegrityCheck, r: RestoreView, e: RestoreEventView)
    ensures
        ({
            let a = restore_step(check, r, e).1;
            &&& e == RestoreEventView::CancelChecked(true) && (r.stage
                == RestoreStage::CheckingCancel || r.stage == RestoreStage::CheckingCancelAgain)
                ==> a == RestoreActionView::Failed(ErrorView::Cancelled)
            &&& r.stage == RestoreStage::CheckingIntegrity ==> (
            e matches RestoreEventView::IntegrityChecked(report) ==> (a is Failed <==> report
                != "ok"@) && (report != "ok"@ ==> a == RestoreActionView::Failed(
                ErrorView::Other("post-restore integrity check failed: "@ + report),
            )))
            &&& r.stage == RestoreStage::Planning ==> (e matches RestoreEventView::Planned(plan) ==> (
            a is Failed <==> !plausible(plan)) && forall|k: int|
                0 <= k < plan.len() && (#[trigger] plan[k]).size < 100 && (forall|m: int|
                    0 <= m < k ==> (#[trigger] plan[m]).size >= 100) ==> a
                    == RestoreActionView::Failed(
                    ErrorView::Other(
                        "invalid ltx file: level="@ + dec_text(plan[k].level as nat) + " min="@
                            + plan[k].min_txid.text() + " max="@ + plan[k].max_txid.text()
                            + " has size "@ + dec_text(plan[k].size as nat) + " bytes"@,
                    ),
                ))
            &&& a is Failed ==> e == RestoreEventView::CancelChecked(true) || (e is IntegrityChecked
                && e != RestoreEventView::IntegrityChecked("ok"@)) || (
            e matches RestoreEventView::Planned(plan) && !plausible(plan))
        }),
{
    if let RestoreEventView::Planned(plan) = e {
        if plausible(plan) {
            lemma_no_short(plan, 0);
        } else {
            lemma_some_short(plan, 0);
        }
        assert forall|k: int|
            0 <= k < plan.len() && (#[trigger] plan[k]).size < 100 && (forall|m: int|
                0 <= m < k ==> (#[trigger] plan[m]).size >= 100) implies first_short(plan, 0) == Some(
            plan[k],
        ) by {
            lemma_first_short(plan, 0, k);
        }
    }
}

proof fn lemma_first_short(plan: Seq<FileInfo>, from: int, k: int)
    requires
        0 <= from <= k < plan.len(),
        plan[k].size < 100,
        forall|m: int| 0 <= m < k ==> (#[trigger] plan[m]).size >= 100,
    ensures
        first_short(plan, from) == Some(plan[k]),
    decreases k - from,
{
    if from < k {
        assert(plan[from].size >= 100);
        lemma_first_short(plan, from + 1, k);
    }
}

proof fn lemma_some_short(plan: Seq<FileInfo>, from: int)
    requires
        0 <= from <= plan.len(),
        exists|k: int| from <= k < plan.len() && (#[trigger] plan[k]).size < 100,
    ensures
        first_short(plan, from) is Some,
    decreases plan.len() - from,
{
    let k = choose|k: int| from <= k < plan.len() && (#[trigger] plan[k]).size < 100;
    if from < k {
        lemma_some_short(plan, from + 1);
    }
}

/// An event that does not answer what a restore asked for changes nothing, and
/// nothing answers a restore that has ended. The plan and the position that
/// the restore leads to are those of its start.
pub proof fn lemma_restore_unanswered(check: IntegrityCheck, r: RestoreView, e: RestoreEventView)
    ensures
        ({
            let (r2, a) = restore_step(check, r, e);
            &&& a is Unexpected ==> r2 == r
            &&& r.stage == RestoreStage::Ended ==> a is Unexpected
            &&& r.stage != RestoreStage::Planning ==> r2.plan == r.plan && r2.to == r.to
            &&& a is Done || a is Failed ==> r2.stage == RestoreStage::Ended
        }),
{
}

} // verus!
