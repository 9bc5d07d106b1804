//! Applying one complete, already-spooled LTX file to the replica in place.
//!
//! A state machine: [`Apply`] holds where one run stands; a step takes what
//! the last action came to and gives the next action. An action that fails
//! ends the run with its own error.

use rand::RngCore;
use vstd::prelude::*;

use crate::error::Error;
#[allow(unused_imports)]
use crate::error::ErrorView;
use crate::ltx::Header;
use crate::replica::Replica;

verus! {

/// `rand::rng` and `RngCore::fill_bytes`: four random bytes. Nothing is
/// claimed of them.
#[verifier::external_body]
fn random_counter() -> (r: [u8; 4]) {
    let mut b = [0u8; 4];
    rand::rng().fill_bytes(&mut b);
    b
}

/// Page 1 of a database, presented as that of a rollback-journal database
/// with this change counter: the two journal-mode bytes are 1.
pub open spec fn presented(data: Seq<u8>, counter: Seq<u8>) -> Seq<u8> {
    data.update(18, 1).update(19, 1).update(24, counter[0]).update(25, counter[1]).update(
        26,
        counter[2],
    ).update(27, counter[3])
}

/// Presents page 1 as that of a rollback-journal database, with a new change
/// counter that invalidates other connections' caches.
pub fn present_page(data: &mut [u8], counter: [u8; 4])
    requires
        old(data)@.len() >= 28,
    ensures
        final(data)@ == presented(old(data)@, counter@),
{
    data[18] = 0x01;
    data[19] = 0x01;
    data[24] = counter[0];
    data[25] = counter[1];
    data[26] = counter[2];
    data[27] = counter[3];
}

/// Where the application of a file stands.
#[derive(Debug, Clone, Copy, PartialEq, Eq, Structural)]
pub enum ApplyStage {
    Starting,
    Verifying,
    ReadingHeader,
    Locking,
    ReadingPage,
    WritingPage,
    Truncating,
    Finishing,
    SyncingFile,
    Ended,
}

/// One application of a spooled file to a replica of this page size.
#[derive(Debug, Clone, Copy, PartialEq, Eq, Structural)]
pub struct Apply {
    pub stage: ApplyStage,
    pub page_size: u32,
    /// The size of the database in pages once the file is applied.
    pub commit: u32,
}

/// What the last action came to.
#[derive(Debug, Clone, Copy, PartialEq, Eq, Structural)]
pub enum ApplyEvent {
    Start,
    /// The whole spool's checksum is right.
    Verified,
    Header(Header),
    Locked,
    /// The next page's number; its bytes are in the page buffer.
    Page(u32),
    /// There are no more pages.
    NoPage,
    PageWritten,
    Truncated,
    Finished,
    FileSynced,
}

/// What to do next.
#[derive(Debug)]
pub enum ApplyAction {
    /// Verify the spool's checksum over the whole file.
    VerifySpool,
    /// Decode the spool's header.
    ReadHeader,
    /// Take the replica-file lock, held to the end of the run.
    Lock,
    /// Decode the spool's next page into the page buffer.
    ReadPage,
    /// Write the page buffer to the replica at this offset.
    WritePage { offset: u64 },
    /// Cut or extend the replica to this length.
    Truncate(u64),
    /// Check the spool's end.
    Finish,
    /// Flush the replica.
    SyncFile,
    Done,
    Failed(Error),
    /// The event does not answer the last action; nothing changed.
    Unexpected,
}

/// The mathematical counterpart of [`ApplyAction`].
#[verifier::ext_equal]
pub enum ApplyActionView {
    VerifySpool,
    ReadHeader,
    Lock,
    ReadPage,
    WritePage { offset: int },
    Truncate(int),
    Finish,
    SyncFile,
    Done,
    Failed(ErrorView),
    Unexpected,
}

impl View for ApplyAction {
    type V = ApplyActionView;

    open spec fn view(&self) -> ApplyActionView {
        match self {
            ApplyAction::VerifySpool => ApplyActionView::VerifySpool,
            ApplyAction::ReadHeader => ApplyActionView::ReadHeader,
            ApplyAction::Lock => ApplyActionView::Lock,
            ApplyAction::ReadPage => ApplyActionView::ReadPage,
            ApplyAction::WritePage { offset } => ApplyActionView::WritePage { offset: *offset as int },
            ApplyAction::Truncate(n) => ApplyActionView::Truncate(*n as int),
            ApplyAction::Finish => ApplyActionView::Finish,
            ApplyAction::SyncFile => ApplyActionView::SyncFile,
            ApplyAction::Done => ApplyActionView::Done,
            ApplyAction::Failed(e) => ApplyActionView::Failed(e@),
            ApplyAction::Unexpected => ApplyActionView::Unexpected,
        }
    }
}

/// One step of an application.
pub open spec fn apply_step(use_file_locks: bool, r: Apply, e: ApplyEvent) -> (Apply, ApplyActionView) {
    match (r.stage, e) {
        (ApplyStage::Starting, ApplyEvent::Start) => (
            Apply { stage: ApplyStage::Verifying, ..r },
            ApplyActionView::VerifySpool,
        ),
        (ApplyStage::Verifying, ApplyEvent::Verified) => (
            Apply { stage: ApplyStage::ReadingHeader, ..r },
            ApplyActionView::ReadHeader,
        ),
        (ApplyStage::ReadingHeader, ApplyEvent::Header(h)) => if h.page_size != r.page_size {
            // A page-size change implies a bucket reset.
            (
                Apply { stage: ApplyStage::Ended, ..r },
                ApplyActionView::Failed(
                    ErrorView::Diverged { local: h.min_txid, remote: h.max_txid },
                ),
            )
        } else if use_file_locks {
            (Apply { stage: ApplyStage::Locking, commit: h.commit, ..r }, ApplyActionView::Lock)
        } else {
            (
                Apply { stage: ApplyStage::ReadingPage, commit: h.commit, ..r },
                ApplyActionView::ReadPage,
            )
        },
        (ApplyStage::Locking, ApplyEvent::Locked) => (
            Apply { stage: ApplyStage::ReadingPage, ..r },
            ApplyActionView::ReadPage,
        ),
        (ApplyStage::ReadingPage, ApplyEvent::Page(pgno)) => (
            Apply { stage: ApplyStage::WritingPage, ..r },
            ApplyActionView::WritePage { offset: (pgno - 1) * r.page_size },
        ),
        (ApplyStage::WritingPage, ApplyEvent::PageWritten) => (
            Apply { stage: ApplyStage::ReadingPage, ..r },
            ApplyActionView::ReadPage,
        ),
        (ApplyStage::ReadingPage, ApplyEvent::NoPage) => if r.commit > 0 {
            (
                Apply { stage: ApplyStage::Truncating, ..r },
                ApplyActionView::Truncate(r.commit * r.page_size),
            )
        } else {
            (Apply { stage: ApplyStage::Finishing, ..r }, ApplyActionView::Finish)
        },
        (ApplyStage::Truncating, ApplyEvent::Truncated) => (
            Apply { stage: ApplyStage::Finishing, ..r },
            ApplyActionView::Finish,
        ),
        (ApplyStage::Finishing, ApplyEvent::Finished) => (
            Apply { stage: ApplyStage::SyncingFile, ..r },
            ApplyActionView::SyncFile,
        ),
        (ApplyStage::SyncingFile, ApplyEvent::FileSynced) => (
            Apply { stage: ApplyStage::Ended, ..r },
            ApplyActionView::Done,
        ),
        _ => (r, ApplyActionView::Unexpected),
    }
}

/// Whether this event brings page 1, whole enough to be presented.
pub open spec fn is_first_page(r: Apply, e: ApplyEvent, data: Seq<u8>) -> bool {
    r.stage == ApplyStage::ReadingPage && e == ApplyEvent::Page(1) && data.len() >= 28
}

impl Apply {
    pub fn new(page_size: u32) -> (r: Apply)
        ensures
            r == (Apply { stage: ApplyStage::Starting, page_size, commit: 0 }),
    {
        Apply { stage: ApplyStage::Starting, page_size, commit: 0 }
    }
}

impl Replica {
    /// Applies one complete, already-spooled LTX file: one step. The spool is
    /// verified in full *before* any page is written, and the lock is taken
    /// before the first page, so a failure to get it leaves the replica
    /// untouched. Page 1 gets the journal mode + change counter fixups in the
    /// page buffer `data`; the file is truncated to the commit size.
    pub fn apply_spooled(&self, run: &mut Apply, data: &mut [u8], event: ApplyEvent) -> (a: ApplyAction)
        requires
            event matches ApplyEvent::Page(pgno) ==> pgno >= 1,
        ensures
            (*final(run), a@) == apply_step(self.opts.use_file_locks, *old(run), event),
            is_first_page(*old(run), event, old(data)@) ==> exists|counter: Seq<u8>|
                counter.len() == 4 && final(data)@ == #[trigger] presented(old(data)@, counter),
            !is_first_page(*old(run), event, old(data)@) ==> final(data)@ == old(data)@,
    {
        match (run.stage, event) {
            (ApplyStage::Starting, ApplyEvent::Start) => {
                run.stage = ApplyStage::Verifying;
                ApplyAction::VerifySpool
            },
            (ApplyStage::Verifying, ApplyEvent::Verified) => {
                run.stage = ApplyStage::ReadingHeader;
                ApplyAction::ReadHeader
            },
            (ApplyStage::ReadingHeader, ApplyEvent::Header(h)) => {
                if h.page_size != run.page_size {
                    run.stage = ApplyStage::Ended;
                    return ApplyAction::Failed(
                        Error::Diverged { local: h.min_txid, remote: h.max_txid },
                    );
                }
                run.commit = h.commit;
                if self.opts.use_file_locks {
                    run.stage = ApplyStage::Locking;
                    ApplyAction::Lock
                } else {
                    run.stage = ApplyStage::ReadingPage;
                    ApplyAction::ReadPage
                }
            },
            (ApplyStage::Locking, ApplyEvent::Locked) => {
                run.stage = ApplyStage::ReadingPage;
                ApplyAction::ReadPage
            },
            (ApplyStage::ReadingPage, ApplyEvent::Page(pgno)) => {
                if pgno == 1 && data.len() >= 28 {
                    let counter = random_counter();
                    present_page(data, counter);
                    assert(counter@.len() == 4);
                }
                proof {
                    lemma_page_offset(pgno, run.page_size);
                }
                run.stage = ApplyStage::WritingPage;
                ApplyAction::WritePage { offset: (pgno as u64 - 1) * run.page_size as u64 }
            },
            (ApplyStage::WritingPage, ApplyEvent::PageWritten) => {
                run.stage = ApplyStage::ReadingPage;
                ApplyAction::ReadPage
            },
            (ApplyStage::ReadingPage, ApplyEvent::NoPage) => {
                if run.commit > 0 {
                    proof {
                        lemma_page_offset(run.commit, run.page_size);
                    }
                    run.stage = ApplyStage::Truncating;
                    ApplyAction::Truncate(run.commit as u64 * run.page_size as u64)
                } else {
                    run.stage = ApplyStage::Finishing;
                    ApplyAction::Finish
                }
            },
            (ApplyStage::Truncating, ApplyEvent::Truncated) => {
                run.stage = ApplyStage::Finishing;
                ApplyAction::Finish
            },
            (ApplyStage::Finishing, ApplyEvent::Finished) => {
                run.stage = ApplyStage::SyncingFile;
                ApplyAction::SyncFile
            },
            (ApplyStage::SyncingFile, ApplyEvent::FileSynced) => {
                run.stage = ApplyStage::Ended;
                ApplyAction::Done
            },
            _ => ApplyAction::Unexpected,
        }
    }
}

/// A presented page reads as that of a rollback-journal database; apart from
/// the journal-mode bytes and the change counter it is the page that came in.
pub proof fn lemma_presented_page(data: Seq<u8>, counter: Seq<u8>)
    requires
        data.len() >= 28,
        counter.len() == 4,
    ensures
        ({
            let page = presented(data, counter);
            &&& page.len() == data.len()
            &&& page[18] == 1 && page[19] == 1
            &&& page.subrange(24, 28) == counter
            &&& forall|i: int|
                0 <= i < data.len() && i != 18 && i != 19 && !(24 <= i < 28) ==> page[i] == data[i]
        }),
{
    assert(presented(data, counter).subrange(24, 28) =~= counter);
}

proof fn lemma_page_offset(n: u32, page_size: u32)
    requires
        n >= 1,
    ensures
        0 <= (n - 1) * page_size <= n * page_size <= u64::MAX,
{
    assert(0 <= (n - 1) * page_size <= n * page_size && n * page_size <= 0xFFFF_FFFF * 0xFFFF_FFFF)
        by (nonlinear_arith)
        requires
            1 <= n <= 0xFFFF_FFFF,
            0 <= page_size <= 0xFFFF_FFFF,
    ;
}

/// The state that an application reaches through these events.
pub open spec fn apply_reaches(use_file_locks: bool, r: Apply, events: Seq<ApplyEvent>) -> Apply
    decreases events.len(),
{
    if events.len() == 0 {
        r
    } else {
        apply_step(
            use_file_locks,
            apply_reaches(use_file_locks, r, events.drop_last()),
            events.last(),
        ).0
    }
}

/// Whether a page may be written or the file cut at this stage.
pub open spec fn touches_replica(stage: ApplyStage) -> bool {
    stage == ApplyStage::ReadingPage || stage == ApplyStage::WritingPage || stage
        == ApplyStage::Truncating || stage == ApplyStage::Finishing || stage
        == ApplyStage::SyncingFile
}

/// No page touches the replica before the file it comes from was verified in
/// full, its page size was found to be the replica's, and the replica's lock
/// was taken where locks are in use.
pub proof fn lemma_verified_before_written(use_file_locks: bool, page_size: u32, events: Seq<ApplyEvent>)
    ensures
        ({
            let start = Apply { stage: ApplyStage::Starting, page_size, commit: 0 };
            let r = apply_reaches(use_file_locks, start, events);
            &&& r.page_size == page_size
            &&& touches_replica(r.stage) || r.stage == ApplyStage::Locking || r.stage
                == ApplyStage::ReadingHeader ==> events.contains(ApplyEvent::Verified)
            &&& touches_replica(r.stage) || r.stage == ApplyStage::Locking ==> exists|i: int|
                0 <= i < events.len() && (#[trigger] events[i] matches ApplyEvent::Header(h)
                    && h.page_size == page_size)
            &&& touches_replica(r.stage) && use_file_locks ==> events.contains(ApplyEvent::Locked)
        }),
    decreases events.len(),
{
    if events.len() > 0 {
        let before = events.drop_last();
        let start = Apply { stage: ApplyStage::Starting, page_size, commit: 0 };
        let r = apply_reaches(use_file_locks, start, before);
        lemma_verified_before_written(use_file_locks, page_size, before);
        let last = events[events.len() - 1];
        assert(events.last() == last);
        if before.contains(ApplyEvent::Verified) {
            let i = choose|i: int| 0 <= i < before.len() && before[i] == ApplyEvent::Verified;
            assert(events[i] == ApplyEvent::Verified);
        }
        if before.contains(ApplyEvent::Locked) {
            let i = choose|i: int| 0 <= i < before.len() && before[i] == ApplyEvent::Locked;
            assert(events[i] == ApplyEvent::Locked);
        }
        if touches_replica(r.stage) || r.stage == ApplyStage::Locking {
            let i = choose|i: int|
                0 <= i < before.len() && (#[trigger] before[i] matches ApplyEvent::Header(h)
                    && h.page_size == page_size);
            assert(events[i] == before[i]);
        }
    }
}

/// Whether page `pgno` of a file is written from this byte of the replica on.
pub open spec fn writes_page(use_file_locks: bool, r: Apply, pgno: u32, offset: int) -> bool {
    apply_step(use_file_locks, r, ApplyEvent::Page(pgno)).1 == (ApplyActionView::WritePage { offset })
}

/// Pages tile the replica: page 1 starts at its first byte, every page ends
/// where the next one starts, a page size further on, so no two pages overlap;
/// and a replica cut to `commit` pages ends where the last of them ends.
pub proof fn lemma_pages_tile(use_file_locks: bool, r: Apply, n: u32, m: u32)
    requires
        r.stage == ApplyStage::ReadingPage,
        1 <= n < m,
    ensures
        writes_page(use_file_locks, r, 1, 0),
        exists|a: int, b: int, c: int|
            {
                &&& #[trigger] writes_page(use_file_locks, r, n, a)
                &&& #[trigger] writes_page(use_file_locks, r, (n + 1) as u32, b)
                &&& #[trigger] writes_page(use_file_locks, r, m, c)
                &&& b == a + r.page_size
                &&& 0 <= a
                &&& a + r.page_size <= c
                &&& c == a + (m - n) * r.page_size
            },
        r.commit > 0 ==> exists|d: int|
            #[trigger] writes_page(use_file_locks, r, r.commit, d) && apply_step(
                use_file_locks,
                r,
                ApplyEvent::NoPage,
            ).1 == ApplyActionView::Truncate(d + r.page_size),
{
    let ps = r.page_size as int;
    let a = (n - 1) * ps;
    let b = n * ps;
    let c = (m - 1) * ps;
    assert(0 * ps == 0) by (nonlinear_arith);
    assert(b == a + ps && 0 <= a && a + ps <= c && c == a + (m - n) * ps) by (nonlinear_arith)
        requires
            a == (n - 1) * ps,
            b == n * ps,
            c == (m - 1) * ps,
            1 <= n < m,
            0 <= ps,
    ;
    assert(writes_page(use_file_locks, r, n, a));
    assert(writes_page(use_file_locks, r, (n + 1) as u32, b));
    assert(writes_page(use_file_locks, r, m, c));
    if r.commit > 0 {
        let k = r.commit as int;
        let d = (k - 1) * ps;
        assert(d + ps == k * ps) by (nonlinear_arith)
            requires
                d == (k - 1) * ps,
        ;
        assert(writes_page(use_file_locks, r, r.commit, d));
    }
}

/// Everything that an application asks for on its way through these events.
pub open spec fn apply_asks(use_file_locks: bool, r: Apply, events: Seq<ApplyEvent>) -> Seq<
    ApplyActionView,
>
    decreases events.len(),
{
    if events.len() == 0 {
        Seq::empty()
    } else {
        let before = events.drop_last();
        apply_asks(use_file_locks, r, before).push(
            apply_step(use_file_locks, apply_reaches(use_file_locks, r, before), events.last()).1,
        )
    }
}

/// The events of an application up to the first page, without trouble.
pub open spec fn header_events(use_file_locks: bool, h: Header) -> Seq<ApplyEvent> {
    seq![ApplyEvent::Start, ApplyEvent::Verified, ApplyEvent::Header(h)] + (if use_file_locks {
        seq![ApplyEvent::Locked]
    } else {
        Seq::empty()
    })
}

/// What they bring: the spool is verified in full before its header is read,
/// and the lock is taken, where locks are in use, before the first page.
pub open spec fn header_asks(use_file_locks: bool) -> Seq<ApplyActionView> {
    seq![ApplyActionView::VerifySpool, ApplyActionView::ReadHeader] + (if use_file_locks {
        seq![ApplyActionView::Lock, ApplyActionView::ReadPage]
    } else {
        seq![ApplyActionView::ReadPage]
    })
}

/// The events of these pages, each of which is written.
pub open spec fn page_events(pages: Seq<u32>) -> Seq<ApplyEvent> {
    Seq::new(
        2 * pages.len(),
        |k: int|
            if k % 2 == 0 {
                ApplyEvent::Page(pages[k / 2])
            } else {
                ApplyEvent::PageWritten
            },
    )
}

/// What they bring: each page is written a page size times the number of pages
/// before it into the replica, and then the next one is read.
pub open spec fn page_asks(page_size: u32, pages: Seq<u32>) -> Seq<ApplyActionView> {
    Seq::new(
        2 * pages.len(),
        |k: int|
            if k % 2 == 0 {
                ApplyActionView::WritePage { offset: page_size * (pages[k / 2] - 1) }
            } else {
                ApplyActionView::ReadPage
            },
    )
}

/// The events behind the last page.
pub open spec fn end_events(commit: u32) -> Seq<ApplyEvent> {
    seq![ApplyEvent::NoPage] + (if commit > 0 {
        seq![ApplyEvent::Truncated]
    } else {
        Seq::empty()
    }) + seq![ApplyEvent::Finished, ApplyEvent::FileSynced]
}

/// What they bring: the replica is cut to the size that the header states, if
/// it states one, the end of the spool is checked, and the replica is flushed.
pub open spec fn end_asks(page_size: u32, commit: u32) -> Seq<ApplyActionView> {
    (if commit > 0 {
        seq![ApplyActionView::Truncate(page_size * commit)]
    } else {
        Seq::empty()
    }) + seq![ApplyActionView::Finish, ApplyActionView::SyncFile, ApplyActionView::Done]
}

/// Applying a file of the replica's page size, which meets no trouble, does
/// these things and nothing else, in this order: every page of the file is
/// written to its place, in the file's order, between the checks before it and
/// the cut and flush behind it.
pub proof fn lemma_apply_runs(use_file_locks: bool, h: Header, pages: Seq<u32>)
    ensures
        ({
            let start = Apply { stage: ApplyStage::Starting, page_size: h.page_size, commit: 0 };
            apply_asks(
                use_file_locks,
                start,
                header_events(use_file_locks, h) + page_events(pages) + end_events(h.commit),
            ) == header_asks(use_file_locks) + page_asks(h.page_size, pages) + end_asks(
                h.page_size,
                h.commit,
            )
        }),
{
    let l = use_file_locks;
    let start = Apply { stage: ApplyStage::Starting, page_size: h.page_size, commit: 0 };
    let e0 = header_events(l, h);
    lemma_apply_pages(l, h, pages);
    let e1 = e0 + page_events(pages);
    let r1 = Apply { stage: ApplyStage::ReadingPage, page_size: h.page_size, commit: h.commit };
    let a1 = header_asks(l) + page_asks(h.page_size, pages);
    let x = e1.push(ApplyEvent::NoPage);
    lemma_one_more(l, start, e1, ApplyEvent::NoPage);
    assert(h.commit * h.page_size == h.page_size * h.commit) by (nonlinear_arith);
    if h.commit > 0 {
        let y = x.push(ApplyEvent::Truncated);
        let z = y.push(ApplyEvent::Finished);
        let w = z.push(ApplyEvent::FileSynced);
        lemma_one_more(l, start, x, ApplyEvent::Truncated);
        lemma_one_more(l, start, y, ApplyEvent::Finished);
        lemma_one_more(l, start, z, ApplyEvent::FileSynced);
        assert(e1 + end_events(h.commit) =~= w);
        assert(apply_asks(l, start, w) =~= a1 + end_asks(h.page_size, h.commit));
    } else {
        let z = x.push(ApplyEvent::Finished);
        let w = z.push(ApplyEvent::FileSynced);
        lemma_one_more(l, start, x, ApplyEvent::Finished);
        lemma_one_more(l, start, z, ApplyEvent::FileSynced);
        assert(e1 + end_events(h.commit) =~= w);
        assert(apply_asks(l, start, w) =~= a1 + end_asks(h.page_size, h.commit));
    }
}

/// One more event brings one more action.
proof fn lemma_one_more(l: bool, r: Apply, events: Seq<ApplyEvent>, e: ApplyEvent)
    ensures
        ({
            let (r2, a) = apply_step(l, apply_reaches(l, r, events), e);
            &&& apply_reaches(l, r, events.push(e)) == r2
            &&& apply_asks(l, r, events.push(e)) == apply_asks(l, r, events).push(a)
        }),
{
    assert(events.push(e).drop_last() =~= events);
}

proof fn lemma_apply_pages(l: bool, h: Header, pages: Seq<u32>)
    ensures
        ({
            let start = Apply { stage: ApplyStage::Starting, page_size: h.page_size, commit: 0 };
            let events = header_events(l, h) + page_events(pages);
            &&& apply_reaches(l, start, events) == (Apply {
                stage: ApplyStage::ReadingPage,
                page_size: h.page_size,
                commit: h.commit,
            })
            &&& apply_asks(l, start, events) == header_asks(l) + page_asks(h.page_size, pages)
        }),
    decreases pages.len(),
{
    let start = Apply { stage: ApplyStage::Starting, page_size: h.page_size, commit: 0 };
    let e0 = header_events(l, h);
    let events = e0 + page_events(pages);
    if pages.len() == 0 {
        let none = Seq::<ApplyEvent>::empty();
        let a = none.push(ApplyEvent::Start);
        let b = a.push(ApplyEvent::Verified);
        let c = b.push(ApplyEvent::Header(h));
        lemma_one_more(l, start, none, ApplyEvent::Start);
        lemma_one_more(l, start, a, ApplyEvent::Verified);
        lemma_one_more(l, start, b, ApplyEvent::Header(h));
        if l {
            lemma_one_more(l, start, c, ApplyEvent::Locked);
            assert(events =~= c.push(ApplyEvent::Locked));
        } else {
            assert(events =~= c);
        }
        assert(apply_asks(l, start, events) =~= header_asks(l) + page_asks(h.page_size, pages));
    } else {
        let front = pages.drop_last();
        let n = pages.last();
        lemma_apply_pages(l, h, front);
        let f = e0 + page_events(front);
        let x = f.push(ApplyEvent::Page(n));
        lemma_one_more(l, start, f, ApplyEvent::Page(n));
        lemma_one_more(l, start, x, ApplyEvent::PageWritten);
        assert(events =~= x.push(ApplyEvent::PageWritten));
        assert((n - 1) * h.page_size == h.page_size * (n - 1)) by (nonlinear_arith);
        assert(apply_asks(l, start, events) =~= header_asks(l) + page_asks(h.page_size, pages));
    }
}

/// A file of another page size is not applied: its transactions are reported
/// as a divergence, and neither the lock is taken nor a page written.
pub proof fn lemma_page_size_guarded(use_file_locks: bool, r: Apply, h: Header)
    requires
        r.stage == ApplyStage::ReadingHeader,
    ensures
        h.page_size != r.page_size <==> apply_step(use_file_locks, r, ApplyEvent::Header(h)).1
            == ApplyActionView::Failed(
            ErrorView::Diverged { local: h.min_txid, remote: h.max_txid },
        ),
{
}

/// Page 1, and no other page, is presented as that of a rollback-journal
/// database on its way to the replica, if it is whole enough to be.
pub proof fn lemma_first_page_presented(r: Apply, pgno: u32, data: Seq<u8>)
    requires
        r.stage == ApplyStage::ReadingPage,
    ensures
        is_first_page(r, ApplyEvent::Page(pgno), data) <==> pgno == 1 && data.len() >= 28,
{
}

/// An event that does not answer what an application asked for changes
/// nothing, and nothing answers one that has ended. The page size never
/// changes, and the size that the file states is taken from its header alone.
pub proof fn lemma_apply_unanswered(use_file_locks: bool, r: Apply, e: ApplyEvent)
    ensures
        ({
            let (r2, a) = apply_step(use_file_locks, r, e);
            &&& a is Unexpected ==> r2 == r
            &&& r.stage == ApplyStage::Ended ==> a is Unexpected
            &&& r2.page_size == r.page_size
            &&& r2.commit != r.commit ==> (e matches ApplyEvent::Header(h) && r2.commit == h.commit)
        }),
{
}

} // verus!
