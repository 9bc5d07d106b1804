//! The write side: converts committed WAL content into single-TXID L0 LTX
//! files and uploads them, driven by explicit pushes.
//!
//! Everything here decides; nothing here reads or writes a file. Where a
//! decision needs a reading or an effect, the function names it and the
//! caller performs it and reports back.

use std::collections::HashMap;

use vstd::prelude::*;
use vstd::string::*;

use crate::bytes::from_bits;
#[allow(unused_imports)]
use crate::bytes::bits_i64;
#[allow(unused_imports)]
use crate::error::{outcome, quoted_path_text, ErrorView};
use crate::error::{quoted_path, Error, Result};
#[allow(unused_imports)]
use crate::io::{eof_view, IoErrorView};
use crate::io::IoError;
use crate::ltx::types::lock_pgno;
#[allow(unused_imports)]
use crate::ltx::types::{contiguous, lock_page, page_size_ok};
use crate::ltx::{Checksum, Header, Pos, Txid, HEADER_FLAG_NO_CHECKSUM};
use crate::text::push_decimal;
#[allow(unused_imports)]
use crate::text::dec_text;
use crate::time::Duration;
use crate::verify::{SyncInfo, SyncState};
#[allow(unused_imports)]
use crate::verify::{header_salts, resume, segment_ok, verify_tree, ReadingsView};
use crate::wal::{WAL_FRAME_HEADER_SIZE, WAL_HEADER_SIZE};

verus! {

/// Checkpoint modes. RESTART is deliberately absent.
#[derive(Debug, Clone, Copy, PartialEq, Eq, Structural)]
pub enum CheckpointMode {
    Passive,
    Truncate,
}

impl CheckpointMode {
    /// The mode's name in SQL.
    pub fn as_sql(self) -> (s: &'static str)
        ensures
            s@ == match self {
                CheckpointMode::Passive => "PASSIVE"@,
                CheckpointMode::Truncate => "TRUNCATE"@,
            },
    {
        match self {
            CheckpointMode::Passive => "PASSIVE",
            CheckpointMode::Truncate => "TRUNCATE",
        }
    }
}

/// Tunables of a writer.
#[derive(Debug, Clone, Copy)]
pub struct WriterOptions {
    pub busy_timeout: Duration,
    /// PASSIVE checkpoint threshold, in WAL pages.
    pub min_checkpoint_page_n: u32,
    /// Emergency TRUNCATE checkpoint threshold, in WAL pages (~500MB @4K).
    /// 0 disables.
    pub truncate_page_n: u32,
    /// Whether a push runs threshold-based checkpoints automatically.
    pub auto_checkpoint: bool,
}

impl Default for WriterOptions {
    fn default() -> (r: WriterOptions)
        ensures
            r.busy_timeout.total() == 1_000_000_000,
            r.min_checkpoint_page_n == 1000,
            r.truncate_page_n == 121_359,
            r.auto_checkpoint,
    {
        WriterOptions {
            busy_timeout: Duration::from_secs(1),
            min_checkpoint_page_n: 1000,
            truncate_page_n: 121_359,
            auto_checkpoint: true,
        }
    }
}

/// Result of a push.
#[derive(Debug, Clone, Copy, PartialEq, Eq)]
pub struct PushResult {
    /// Local replication position after the push.
    pub txid: Txid,
    /// Whether a new L0 file was created by this push.
    pub synced: bool,
    /// Number of L0 files uploaded to the bucket by this push.
    pub uploaded: u64,
    /// The bucket's max L0 TXID after the push.
    pub remote_txid: Txid,
    /// Whether a checkpoint ran during this push.
    pub checkpointed: bool,
    /// Whether this push wrote a **full snapshot of the database** rather than
    /// an incremental WAL delta.
    pub snapshotted: bool,
    /// Why this push snapshotted; `None` when it did not. One of a small fixed
    /// set, so it is safe to aggregate on.
    pub snapshot_reason: Option<&'static str>,
    /// Bytes of LTX actually uploaded by this push, summed over
    /// [`uploaded`](Self::uploaded) files. Zero when nothing was uploaded.
    pub bytes_uploaded: u64,
}

/// What one WAL→L0 conversion came to.
#[derive(Debug, Clone, Copy)]
pub struct SyncOutcome {
    pub synced: bool,
    pub pos: Option<Pos>,
    pub new_wal_size: u64,
    pub synced_to_wal_end: bool,
    /// The snapshot decision for this batch.
    pub snapshotted: bool,
    pub snapshot_reason: Option<&'static str>,
}

/// What a writer remembers between pushes of one local SQLite database to a
/// replica bucket.
#[derive(Debug, Clone)]
pub struct Writer {
    pub db_path: String,
    pub page_size: u32,
    pub opts: WriterOptions,
    pub state: SyncState,
    pub cached_pos: Option<Pos>,
    /// Bucket-side max L0 TXID; None = unknown, re-derive by listing.
    pub remote_txid: Option<Txid>,
    /// Highest TXID this local lineage KNOWS it has successfully placed in
    /// the bucket (persisted next to the database). Drives the lineage check.
    pub verified_pos: Txid,
    /// True when `verified_pos` was seeded from local L0 evidence because no
    /// position had been persisted. A provisional baseline may legitimately
    /// sit AHEAD of the bucket (offline backlog); a non-provisional one is
    /// exact, so any bucket max other than it (ahead OR behind) is foreign
    /// data.
    pub verified_pos_provisional: bool,
    /// Whether the lineage check has succeeded this session. Nothing is
    /// uploaded before it has.
    pub lineage_checked: bool,
}

/// What has been read to open a writer so far.
#[derive(Debug, Clone, Copy, PartialEq, Eq)]
pub struct OpenReadings {
    /// Whether the database file exists.
    pub exists: bool,
    /// The page size that SQLite reports.
    pub page_size: Option<u32>,
    /// The WAL offset persisted by the previous process.
    pub last_synced_wal_offset: u64,
    /// The persisted verified position, `Some(None)` when there is none.
    pub verified_pos: Option<Option<Txid>>,
    /// The newest local L0 file, `Some(None)` when there is none.
    pub max_l0: Option<Option<Txid>>,
    /// Whether a verified position of zero has been persisted.
    pub pinned: bool,
}

/// The next thing to do to open a writer.
#[derive(Debug, Clone, Copy, PartialEq, Eq, Structural)]
pub enum OpenAction {
    /// Open the database in WAL mode, take the read lock, ask SQLite for the
    /// page size, and read the persisted WAL offset.
    OpenDatabase,
    /// Read the persisted verified position.
    ReadVerifiedPos,
    /// Look for the newest local L0 file.
    ReadMaxL0,
    /// Persist a verified position of zero.
    PinAtZero,
}

/// Where the opening of a writer stands.
#[derive(Debug)]
pub enum OpenStep {
    Next(OpenAction),
    Done(Result<Writer>),
}

/// The error of a database file that is not there; `path` is its quoted path.
pub open spec fn missing_view(path: Seq<char>) -> ErrorView {
    ErrorView::Other("database file does not exist: "@ + path)
}

/// The error of a database file that is not there, from its quoted path.
pub fn missing_database(path: &str) -> (e: Error)
    ensures
        e@ == missing_view(path@),
{
    let mut m = String::from_str("database file does not exist: ");
    m.append(path);
    Error::Other(m)
}

/// The writer that a session starts with.
pub open spec fn opened(w: Writer, r: OpenReadings, verified_pos: Txid, provisional: bool) -> bool {
    &&& w.page_size == r.page_size.unwrap()
    &&& w.state == (SyncState {
        last_synced_wal_offset: r.last_synced_wal_offset,
        synced_to_wal_end: false,
        synced_since_checkpoint: false,
    })
    &&& w.cached_pos is None
    &&& w.remote_txid is None
    &&& w.verified_pos == verified_pos
    &&& w.verified_pos_provisional == provisional
    &&& !w.lineage_checked
}

/// Whether the opening of a writer may stand at `s` with these readings.
pub open spec fn opens_to(db_path: Seq<char>, opts: WriterOptions, r: OpenReadings, s: OpenStep) -> bool {
    match s {
        OpenStep::Next(OpenAction::OpenDatabase) => r.exists && r.page_size is None,
        OpenStep::Next(OpenAction::ReadVerifiedPos) => r.exists && r.page_size is Some
            && r.page_size != Some(0u32) && r.verified_pos is None,
        OpenStep::Next(OpenAction::ReadMaxL0) => r.exists && r.page_size is Some && r.page_size
            != Some(0u32) && r.verified_pos == Some(None::<Txid>) && r.max_l0 is None,
        OpenStep::Next(OpenAction::PinAtZero) => r.exists && r.page_size is Some && r.page_size
            != Some(0u32) && r.verified_pos == Some(None::<Txid>) && r.max_l0 == Some(
            None::<Txid>,
        ) && !r.pinned,
        OpenStep::Done(Err(e)) => {
            ||| !r.exists && e@ == missing_view(quoted_path_text(db_path))
            ||| r.exists && r.page_size == Some(0u32) && e@ == ErrorView::Other(
                "invalid db page size"@,
            )
        },
        OpenStep::Done(Ok(w)) => {
            &&& r.exists && r.page_size is Some && r.page_size != Some(0u32)
            &&& w.db_path@ == db_path
            &&& w.opts == opts
            &&& match (r.verified_pos, r.max_l0) {
                (Some(Some(t)), _) => opened(w, r, t, false),
                (Some(None), Some(Some(t))) => opened(w, r, t, true),
                (Some(None), Some(None)) => r.pinned && opened(w, r, Txid(0), false),
                _ => false,
            }
        },
    }
}

/// How a writer opens. A database that is not there, or whose page size SQLite
/// cannot say, is refused. Else the database is opened, then the persisted
/// position is read and is the baseline where there is one; else the newest
/// local file is, provisionally; and a database with neither is pinned at zero
/// before it opens there.
pub proof fn lemma_opening_goes(db_path: Seq<char>, opts: WriterOptions, r: OpenReadings, s: OpenStep)
    requires
        opens_to(db_path, opts, r, s),
    ensures
        ({
            let ready = r.exists && (r.page_size matches Some(n) && n > 0);
            let opens_at = |t: Txid, provisional: bool|
                {
                    &&& s matches OpenStep::Done(Ok(w))
                    &&& w.db_path@ == db_path
                    &&& w.opts == opts
                    &&& Some(w.page_size) == r.page_size
                    &&& w.verified_pos == t
                    &&& w.verified_pos_provisional == provisional
                };
            &&& !r.exists ==> (s matches OpenStep::Done(Err(e)) && e@ == ErrorView::Other(
                "database file does not exist: "@ + quoted_path_text(db_path),
            ))
            &&& r.exists && r.page_size is None ==> s == OpenStep::Next(OpenAction::OpenDatabase)
            &&& r.exists && r.page_size == Some(0u32) ==> (s matches OpenStep::Done(Err(e)) && e@
                == ErrorView::Other("invalid db page size"@))
            &&& ready && r.verified_pos is None ==> s == OpenStep::Next(OpenAction::ReadVerifiedPos)
            &&& ready ==> (r.verified_pos matches Some(Some(t)) ==> opens_at(t, false))
            &&& ready && r.verified_pos == Some(None::<Txid>) ==> match r.max_l0 {
                None => s == OpenStep::Next(OpenAction::ReadMaxL0),
                Some(Some(t)) => opens_at(t, true),
                Some(None) => if r.pinned {
                    opens_at(Txid(0), false)
                } else {
                    s == OpenStep::Next(OpenAction::PinAtZero)
                },
            }
        }),
{
}

/// The writer's position: the one it remembers, else the one that was `read`.
pub open spec fn known_pos(w: Writer, read: Option<Pos>) -> Option<Pos> {
    if w.cached_pos is Some {
        w.cached_pos
    } else {
        read
    }
}

/// Whether a WAL file of this size, if there is one, holds a header.
pub open spec fn wal_present(wal_file_size: Option<u64>) -> bool {
    wal_file_size matches Some(n) && n >= WAL_HEADER_SIZE
}

/// A position that was found once is the position until it is forgotten,
/// whatever is read later; and a WAL counts from 32 bytes on, the size of its
/// header.
pub proof fn lemma_position_remembered(
    w: Writer,
    read: Option<Pos>,
    later: Option<Pos>,
    size: Option<u64>,
)
    ensures
        w.cached_pos is None ==> known_pos(w, read) == read,
        w.cached_pos is Some ==> known_pos(w, read) == w.cached_pos,
        read is Some ==> known_pos(Writer { cached_pos: known_pos(w, read), ..w }, later) == known_pos(
            w,
            read,
        ),
        wal_present(size) <==> (size matches Some(n) && n >= 32),
{
}

impl Writer {
    /// Opens a writer against a live database. The database file must exist.
    /// No bucket is contacted: a writer can be constructed with the bucket
    /// unreachable.
    ///
    /// The lineage baseline is the persisted verified position where there is
    /// one, else the newest local L0 file, provisionally. A fresh database
    /// (neither) is pinned at zero at once, so L0s accumulated offline from
    /// birth can never pass for the bucket's lineage.
    pub fn open(db_path: &str, opts: WriterOptions, r: &OpenReadings) -> (s: OpenStep)
        ensures
            opens_to(db_path@, opts, *r, s),
    {
        if !r.exists {
            return OpenStep::Done(Err(missing_database(quoted_path(db_path).as_str())));
        }
        let page_size: u32 = match r.page_size {
            Some(n) => n,
            None => {
                return OpenStep::Next(OpenAction::OpenDatabase);
            },
        };
        if page_size == 0 {
            return OpenStep::Done(Err(Error::other("invalid db page size")));
        }
        let (verified_pos, verified_pos_provisional) = match r.verified_pos {
            None => {
                return OpenStep::Next(OpenAction::ReadVerifiedPos);
            },
            Some(Some(t)) => (t, false),
            Some(None) => match r.max_l0 {
                None => {
                    return OpenStep::Next(OpenAction::ReadMaxL0);
                },
                Some(Some(t)) => (t, true),
                Some(None) => {
                    if !r.pinned {
                        return OpenStep::Next(OpenAction::PinAtZero);
                    }
                    (Txid(0), false)
                },
            },
        };
        OpenStep::Done(
            Ok(
                Writer {
                    db_path: String::from_str(db_path),
                    page_size,
                    opts,
                    // The advisory checkpoint-threshold offset comes from the
                    // previous process; `synced_to_wal_end` deliberately
                    // starts false.
                    state: SyncState {
                        last_synced_wal_offset: r.last_synced_wal_offset,
                        synced_to_wal_end: false,
                        synced_since_checkpoint: false,
                    },
                    cached_pos: None,
                    remote_txid: None,
                    verified_pos,
                    verified_pos_provisional,
                    lineage_checked: false,
                },
            ),
        )
    }

    pub fn page_size(&self) -> (r: u32)
        ensures
            r == self.page_size,
    {
        self.page_size
    }

    /// The database this writer replicates.
    pub fn db_path(&self) -> (r: &str)
        ensures
            r@ == self.db_path@,
    {
        self.db_path.as_str()
    }

    /// Current local replication position (TXID of the newest local L0): the
    /// remembered one, else the one read from the L0 files, which is then
    /// remembered. `None` when it must be read first.
    pub fn pos(&mut self, read: Option<Pos>) -> (r: Option<Pos>)
        ensures
            r == known_pos(*old(self), read),
            *final(self) == (Writer { cached_pos: r, ..*old(self) }),
    {
        if self.cached_pos.is_some() {
            return self.cached_pos;
        }
        self.cached_pos = read;
        read
    }

    /// Whether the WAL is there with its header, from the size of its file if
    /// it has one. If not, a write must be forced so that it is.
    pub fn ensure_wal_exists(&self, wal_file_size: Option<u64>) -> (r: bool)
        ensures
            r == wal_present(wal_file_size),
    {
        match wal_file_size {
            Some(n) => n >= WAL_HEADER_SIZE,
            None => false,
        }
    }

    /// Forgets the local position.
    pub fn invalidate_pos(&mut self)
        ensures
            *final(self) == (Writer { cached_pos: None, ..*old(self) }),
    {
        self.cached_pos = None;
    }
}

/// How to open the WAL for reading.
#[derive(Debug, Clone, Copy, PartialEq, Eq, Structural)]
pub enum ReaderStart {
    /// From its first frame.
    Top,
    /// From the frame at `offset`, behind frames with these salts.
    At { offset: u64, salt1: u32, salt2: u32 },
}

/// What reading the WAL from the resume point found: the database size in the
/// last commit record (zero for none), the end of the last committed frame
/// (zero for none), and the WAL's salts.
#[derive(Debug, Clone, Copy, PartialEq, Eq, Structural)]
pub struct WalScan {
    pub commit: u32,
    pub max_offset: u64,
    pub salt1: u32,
    pub salt2: u32,
}

/// The L0 file to write for one push batch.
#[derive(Debug, Clone, Copy, PartialEq, Eq, Structural)]
pub struct L0Plan {
    pub header: Header,
    /// Whether the file holds every page of the database.
    pub snapshot: bool,
    /// Where the consumed WAL content ends.
    pub final_offset: u64,
}

/// What one push batch has to do.
#[derive(Debug)]
pub enum SyncPlan {
    /// No new committed pages and no snapshot required.
    Nothing(SyncOutcome),
    /// Write an L0 file.
    Write(L0Plan),
}

/// The number of pages in a database file of `len` bytes, in 32 bits.
pub open spec fn file_pages(len: u64, page_size: u32) -> int {
    (len as int / page_size as int) % 0x1_0000_0000
}

/// The WAL bytes from the resume point to the last committed frame; `None`
/// where that frame ends before the resume point.
pub open spec fn new_wal_bytes(scan: WalScan, offset: u64) -> Option<int> {
    if scan.max_offset == 0 {
        Some(0)
    } else if scan.max_offset < offset {
        None
    } else {
        Some(scan.max_offset - offset)
    }
}

/// The header of the L0 file that follows `pos`.
pub open spec fn l0_header(
    page_size: u32,
    pos: Pos,
    commit: u32,
    now: i64,
    offset: u64,
    sz: int,
    scan: WalScan,
) -> Header {
    Header {
        flags: HEADER_FLAG_NO_CHECKSUM,
        page_size,
        commit,
        min_txid: Txid((pos.txid.0 + 1) as u64),
        max_txid: Txid((pos.txid.0 + 1) as u64),
        timestamp: now,
        pre_apply_checksum: Checksum(0),
        wal_offset: bits_i64(offset as nat) as i64,
        wal_size: bits_i64(sz as nat) as i64,
        wal_salt1: scan.salt1,
        wal_salt2: scan.salt2,
        node_id: 0,
    }
}

/// The outcome of a batch that found nothing to do.
pub open spec fn nothing_synced(state: SyncState, info: SyncInfo) -> SyncOutcome {
    SyncOutcome {
        synced: false,
        pos: None,
        new_wal_size: info.offset,
        synced_to_wal_end: state.synced_to_wal_end && !info.clear_synced_to_wal_end,
        snapshotted: info.snapshotting,
        snapshot_reason: info.reason,
    }
}

/// What one push batch has to do.
pub open spec fn sync_planned(
    w: Writer,
    pos: Pos,
    info: SyncInfo,
    db_len: u64,
    scan: WalScan,
    now: i64,
) -> core::result::Result<SyncPlan, ErrorView> {
    match new_wal_bytes(scan, info.offset) {
        None => Err(
            ErrorView::Other(
                "wal size must be positive: maxOffset="@ + dec_text(scan.max_offset as nat)
                    + ", offset="@ + dec_text(info.offset as nat),
            ),
        ),
        Some(sz) => if !info.snapshotting && sz == 0 {
            Ok(SyncPlan::Nothing(nothing_synced(w.state, info)))
        } else {
            Ok(
                SyncPlan::Write(
                    L0Plan {
                        header: l0_header(
                            w.page_size,
                            pos,
                            if scan.commit > 0 {
                                scan.commit
                            } else {
                                file_pages(db_len, w.page_size) as u32
                            },
                            now,
                            info.offset,
                            sz,
                            scan,
                        ),
                        snapshot: info.snapshotting,
                        final_offset: (info.offset + sz) as u64,
                    },
                ),
            )
        },
    }
}

/// The outcome of a batch whose L0 file is in place.
pub open spec fn batch_synced(plan: L0Plan, info: SyncInfo, wal_file_size: u64) -> SyncOutcome {
    SyncOutcome {
        synced: true,
        pos: Some(Pos { txid: plan.header.max_txid, post_apply_checksum: Checksum(0) }),
        new_wal_size: plan.final_offset,
        synced_to_wal_end: plan.final_offset == wal_file_size,
        snapshotted: info.snapshotting,
        snapshot_reason: info.reason,
    }
}

/// How to open the WAL to resume where `info` says.
pub open spec fn start_reading(info: SyncInfo) -> ReaderStart {
    if info.offset == WAL_HEADER_SIZE {
        ReaderStart::Top
    } else {
        ReaderStart::At { offset: info.offset, salt1: info.salt1, salt2: info.salt2 }
    }
}

impl Writer {
    /// Where to start reading the WAL.
    pub fn reader_start(info: &SyncInfo) -> (r: ReaderStart)
        ensures
            r == start_reading(*info),
    {
        if info.offset == WAL_HEADER_SIZE {
            ReaderStart::Top
        } else {
            ReaderStart::At { offset: info.offset, salt1: info.salt1, salt2: info.salt2 }
        }
    }

    /// The resume frame vanished between the decision and the reading: fall
    /// back to reading the whole WAL.
    pub fn prev_frame_mismatch(info: SyncInfo) -> (r: SyncInfo)
        ensures
            r == (SyncInfo { offset: WAL_HEADER_SIZE, ..info }),
    {
        SyncInfo { offset: WAL_HEADER_SIZE, ..info }
    }

    /// Plans the WAL→LTX conversion of one push batch. The database's size in
    /// pages comes from the WAL's last commit record, else from the size of
    /// the database file.
    pub fn sync(&self, pos: Pos, info: &SyncInfo, db_len: u64, scan: &WalScan, now: i64) -> (r: Result<
        SyncPlan,
    >)
        requires
            self.page_size > 0,
            pos.txid.0 < u64::MAX,
        ensures
            match sync_planned(*self, pos, *info, db_len, *scan, now) {
                Err(e) => r matches Err(x) && x@ == e,
                Ok(SyncPlan::Nothing(o)) => r matches Ok(SyncPlan::Nothing(p)) && p == o,
                Ok(SyncPlan::Write(o)) => r matches Ok(SyncPlan::Write(p)) && p == o,
            },
    {
        let txid = Txid(pos.txid.0 + 1);

        // Database size in pages, overridden by the WAL's last commit record.
        let pages: u64 = db_len / self.page_size as u64;
        let mut commit: u32 = (pages % 0x1_0000_0000) as u32;
        if scan.commit > 0 {
            commit = scan.commit;
        }
        let sz: u64 = if scan.max_offset > 0 {
            match scan.max_offset.checked_sub(info.offset) {
                Some(n) => n,
                None => {
                    let mut m = String::from_str("wal size must be positive: maxOffset=");
                    push_decimal(&mut m, scan.max_offset);
                    m.append(", offset=");
                    push_decimal(&mut m, info.offset);
                    return Err(Error::Other(m));
                },
            }
        } else {
            0
        };

        // No new committed pages and no snapshot required: no-op push. Even
        // so, report the true consumed end (derived from the newest L0
        // header) rather than the advisory persisted value: a stale or
        // missing persisted offset must never shrink the bound that a
        // snapshot scans the WAL to.
        if !info.snapshotting && sz == 0 {
            return Ok(
                SyncPlan::Nothing(
                    SyncOutcome {
                        synced: false,
                        pos: None,
                        new_wal_size: info.offset,
                        synced_to_wal_end: self.state.synced_to_wal_end
                            && !info.clear_synced_to_wal_end,
                        snapshotted: info.snapshotting,
                        snapshot_reason: info.reason,
                    },
                ),
            );
        }
        Ok(
            SyncPlan::Write(
                L0Plan {
                    header: Header {
                        flags: HEADER_FLAG_NO_CHECKSUM,
                        page_size: self.page_size,
                        commit,
                        min_txid: txid,
                        max_txid: txid,
                        timestamp: now,
                        pre_apply_checksum: Checksum(0),
                        wal_offset: from_bits(info.offset),
                        wal_size: from_bits(sz),
                        wal_salt1: scan.salt1,
                        wal_salt2: scan.salt2,
                        node_id: 0,
                    },
                    snapshot: info.snapshotting,
                    final_offset: info.offset + sz,
                },
            ),
        )
    }

    /// The outcome of a batch whose L0 file is in place, given the size of
    /// the WAL file now.
    pub fn synced(plan: &L0Plan, info: &SyncInfo, wal_file_size: u64) -> (r: SyncOutcome)
        ensures
            r == batch_synced(*plan, *info, wal_file_size),
    {
        SyncOutcome {
            synced: true,
            pos: Some(Pos { txid: plan.header.max_txid, post_apply_checksum: Checksum(0) }),
            // Logical end of consumed WAL content, and whether the WAL was
            // consumed exactly to its end.
            new_wal_size: plan.final_offset,
            synced_to_wal_end: plan.final_offset == wal_file_size,
            snapshotted: info.snapshotting,
            snapshot_reason: info.reason,
        }
    }

    /// Takes the outcome of a sync into the writer's state. The returned WAL
    /// offset is to be persisted (advisory).
    pub fn apply_sync_outcome(&mut self, outcome: &SyncOutcome) -> (persist: u64)
        ensures
            persist == outcome.new_wal_size,
            *final(self) == (Writer {
                state: SyncState {
                    last_synced_wal_offset: outcome.new_wal_size,
                    synced_to_wal_end: outcome.synced_to_wal_end,
                    ..old(self).state
                },
                cached_pos: if outcome.pos is Some {
                    outcome.pos
                } else {
                    old(self).cached_pos
                },
                ..*old(self)
            }),
    {
        self.state.last_synced_wal_offset = outcome.new_wal_size;
        self.state.synced_to_wal_end = outcome.synced_to_wal_end;
        if outcome.pos.is_some() {
            self.cached_pos = outcome.pos;
        }
        self.state.last_synced_wal_offset
    }
}

/// Where a page of an L0 file is read from.
#[derive(Debug, Clone, Copy, PartialEq, Eq, Structural)]
pub enum PageSource {
    /// At this offset of the WAL.
    Wal { offset: u64 },
    /// At this offset of the database file.
    Database { offset: u64 },
}

/// The pages of a snapshot, one after the other.
#[derive(Debug, Clone, Copy, PartialEq, Eq, Structural)]
pub struct SnapshotPages {
    pub page_size: u32,
    /// The number of pages in the database.
    pub commit: u32,
    /// The last page dealt with; zero at the start.
    pub done: u32,
}

/// One turn of the loop that writes a snapshot's pages.
#[derive(Debug, Clone, Copy, PartialEq, Eq, Structural)]
pub struct SnapshotPage {
    pub pgno: u32,
    /// Whether to look for a cancellation first.
    pub check_cancel: bool,
    /// Where the page is read from; `None` for the lock page, which is not
    /// stored.
    pub source: Option<PageSource>,
}

/// Where page `pgno` of a snapshot comes from: the WAL where it holds the
/// page, else the database file. The lock page is left out.
pub open spec fn snapshot_source(pgno: u32, page_size: u32, page_map: Map<u32, u64>) -> Option<
    PageSource,
> {
    if pgno == lock_page(page_size as int) {
        None
    } else if page_map.dom().contains(pgno) {
        Some(PageSource::Wal { offset: (page_map[pgno] + WAL_FRAME_HEADER_SIZE) as u64 })
    } else {
        Some(PageSource::Database { offset: ((pgno - 1) * page_size) as u64 })
    }
}

/// Whether every frame offset of the map leaves room for a frame.
pub open spec fn offsets_ok(page_map: Map<u32, u64>) -> bool {
    forall|k: u32| #[trigger]
        page_map.dom().contains(k) ==> page_map[k] <= u64::MAX - WAL_FRAME_HEADER_SIZE
}

/// Page `pgno` of a snapshot.
pub open spec fn snapshot_page(pgno: u32, page_size: u32, page_map: Map<u32, u64>) -> SnapshotPage {
    SnapshotPage {
        pgno,
        check_cancel: pgno % 256 == 0,
        source: snapshot_source(pgno, page_size, page_map),
    }
}

/// The next page of a snapshot; `None` behind the last one.
pub open spec fn next_snapshot_page(run: SnapshotPages, page_map: Map<u32, u64>) -> (
    SnapshotPages,
    Option<SnapshotPage>,
) {
    if run.done < run.commit {
        let pgno = (run.done + 1) as u32;
        (
            SnapshotPages { done: pgno, ..run },
            Some(snapshot_page(pgno, run.page_size, page_map)),
        )
    } else {
        (run, None)
    }
}

impl SnapshotPages {
    /// The pages of a database of `commit` pages.
    pub fn new(page_size: u32, commit: u32) -> (run: SnapshotPages)
        ensures
            run == (SnapshotPages { page_size, commit, done: 0 }),
    {
        SnapshotPages { page_size, commit, done: 0 }
    }
}

/// Snapshot page source: the WAL's page map first, then the raw database
/// file. Each call gives the next page, `None` once all were given.
pub fn write_ltx_from_db(run: &mut SnapshotPages, page_map: &HashMap<u32, u64>) -> (r: Option<
    SnapshotPage,
>)
    requires
        old(run).page_size > 0,
        offsets_ok(page_map@),
    ensures
        (*final(run), r) == next_snapshot_page(*old(run), page_map@),
{
    broadcast use vstd::std_specs::hash::group_hash_axioms;

    if run.done >= run.commit {
        return None;
    }
    let pgno: u32 = run.done + 1;
    let page_size: u32 = run.page_size;
    run.done = pgno;
    let check_cancel: bool = pgno % 256 == 0;
    let lock: u32 = lock_pgno(page_size);
    if pgno == lock {
        return Some(SnapshotPage { pgno, check_cancel, source: None });
    }
    let source: PageSource = match page_map.get(&pgno) {
        Some(offset) => {
            assert(page_map@.dom().contains(pgno));
            PageSource::Wal { offset: *offset + WAL_FRAME_HEADER_SIZE }
        },
        None => {
            proof {
                assert(0 <= (pgno - 1) * page_size <= 0xFFFF_FFFF * 0xFFFF_FFFF) by (nonlinear_arith)
                    requires
                        1 <= pgno <= 0xFFFF_FFFF,
                        0 < page_size <= 0xFFFF_FFFF,
                ;
            }
            PageSource::Database { offset: (pgno as u64 - 1) * page_size as u64 }
        },
    };
    Some(SnapshotPage { pgno, check_cancel, source: Some(source) })
}

/// One page of an incremental L0 file.
#[derive(Debug, Clone, Copy, PartialEq, Eq, Structural)]
pub struct WalPage {
    pub pgno: u32,
    /// Whether to look for a cancellation first.
    pub check_cancel: bool,
    /// Where the page's bytes stand in the WAL.
    pub offset: u64,
}

/// `slice::sort_unstable`: sorts the numbers in ascending order, and neither
/// adds nor drops one.
#[verifier::external_body]
fn sort_pages(v: &mut Vec<u32>)
    ensures
        final(v)@.to_multiset() == old(v)@.to_multiset(),
        forall|i: int, j: int| 0 <= i < j < final(v)@.len() ==> final(v)@[i] <= final(v)@[j],
{
    v.sort_unstable()
}

/// Whether `pages` are those of `page_map`, in the order of an L0 file.
pub open spec fn lists_pages(page_map: Map<u32, u64>, pages: Seq<WalPage>) -> bool {
    &&& forall|i: int, j: int| 0 <= i < j < pages.len() ==> pages[i].pgno < pages[j].pgno
    &&& forall|k: u32|
        page_map.dom().contains(k) <==> exists|i: int|
            0 <= i < pages.len() && (#[trigger] pages[i]).pgno == k
    &&& forall|i: int|
        0 <= i < pages.len() ==> (#[trigger] pages[i]).offset == page_map[pages[i].pgno]
            + WAL_FRAME_HEADER_SIZE && pages[i].check_cancel == (i % 256 == 0)
}

/// Every page of the map is written once, in ascending order, from behind the
/// 24 bytes of its frame's header, and no other page is. The token is looked at
/// before the first page and every 256th behind it.
pub proof fn lemma_pages_listed(page_map: Map<u32, u64>, pages: Seq<WalPage>, pgno: u32, i: int)
    requires
        lists_pages(page_map, pages),
        0 <= i < pages.len(),
    ensures
        page_map.dom().contains(pgno) ==> exists|k: int|
            0 <= k < pages.len() && (#[trigger] pages[k]).pgno == pgno && pages[k].offset
                == page_map[pgno] + 24,
        page_map.dom().contains(pages[i].pgno),
        forall|k: int| 0 <= k < pages.len() && #[trigger] pages[k].pgno == pages[i].pgno ==> k == i,
        pages[i].check_cancel <==> i % 256 == 0,
{
    if page_map.dom().contains(pgno) {
        let k = choose|k: int| 0 <= k < pages.len() && (#[trigger] pages[k]).pgno == pgno;
        assert(pages[k].pgno == pgno);
    }
    assert forall|k: int| 0 <= k < pages.len() && #[trigger] pages[k].pgno == pages[i].pgno implies k
        == i by {
        if k < i {
            assert(pages[k].pgno < pages[i].pgno);
        }
        if i < k {
            assert(pages[i].pgno < pages[k].pgno);
        }
    }
}

/// Incremental page source: just the WAL's page map, in ascending order.
pub fn write_ltx_from_wal(page_map: &HashMap<u32, u64>) -> (r: Vec<WalPage>)
    requires
        offsets_ok(page_map@),
    ensures
        lists_pages(page_map@, r@),
{
    broadcast use vstd::std_specs::hash::group_hash_axioms;

    let mut pgnos: Vec<u32> = Vec::new();
    for k in it: page_map.keys()
        invariant
            pgnos@.len() == it.index(),
            forall|j: int| 0 <= j < pgnos@.len() ==> pgnos@[j] == *it.seq()[j],
            it.seq() == vstd::std_specs::iter::IteratorSpec::remaining(&vstd::std_specs::hash::spec_keys_iter(page_map)),
    {
        pgnos.push(*k);
    }
    let ghost keys = pgnos@;
    proof {
        let all = vstd::std_specs::iter::IteratorSpec::remaining(&vstd::std_specs::hash::spec_keys_iter(page_map));
        assert(keys =~= all.unref());
        assert(keys.to_set() == page_map@.dom());
        assert(keys.no_duplicates());
    }
    sort_pages(&mut pgnos);
    proof {
        lemma_same_members(keys, pgnos@);
    }
    let n: usize = pgnos.len();
    let mut r: Vec<WalPage> = Vec::new();
    let mut i: usize = 0;
    while i < n
        invariant
            i <= n == pgnos@.len(),
            r@.len() == i,
            offsets_ok(page_map@),
            pgnos@.no_duplicates(),
            forall|k: u32| page_map@.dom().contains(k) <==> pgnos@.contains(k),
            forall|j: int| 0 <= j < i ==> (#[trigger] r@[j]).pgno == pgnos@[j],
            forall|j: int|
                0 <= j < i ==> (#[trigger] r@[j]).offset == page_map@[r@[j].pgno]
                    + WAL_FRAME_HEADER_SIZE && r@[j].check_cancel == (j % 256 == 0),
        decreases n - i,
    {
        let pgno: u32 = pgnos[i];
        assert(pgnos@.contains(pgno));
        match page_map.get(&pgno) {
            Some(offset) => {
                r.push(
                    WalPage { pgno, check_cancel: i % 256 == 0, offset: *offset + WAL_FRAME_HEADER_SIZE },
                );
            },
            None => {
                assert(false);
            },
        }
        i = i + 1;
    }
    proof {
        assert forall|k: u32| page_map@.dom().contains(k) implies exists|i: int|
            0 <= i < r@.len() && (#[trigger] r@[i]).pgno == k by {
            let j = choose|j: int| 0 <= j < pgnos@.len() && pgnos@[j] == k;
            assert(r@[j].pgno == k);
        }
        assert forall|k: u32|
            (exists|i: int| 0 <= i < r@.len() && (#[trigger] r@[i]).pgno == k) implies page_map@.dom().contains(
            k,
        ) by {
            let j = choose|j: int| 0 <= j < r@.len() && (#[trigger] r@[j]).pgno == k;
            assert(pgnos@[j] == k);
        }
        assert forall|i: int, j: int| 0 <= i < j < r@.len() implies r@[i].pgno < r@[j].pgno by {
            assert(pgnos@[i] <= pgnos@[j]);
            assert(pgnos@[i] != pgnos@[j]);
        }
    }
    r
}

/// Two sequences with the same multiset have the same members, each as often.
proof fn lemma_same_members(a: Seq<u32>, b: Seq<u32>)
    requires
        a.to_multiset() == b.to_multiset(),
        a.no_duplicates(),
    ensures
        b.no_duplicates(),
        forall|k: u32| a.contains(k) <==> b.contains(k),
{
    broadcast use vstd::seq_lib::group_to_multiset_ensures;

    a.lemma_multiset_has_no_duplicates();
    assert forall|k: u32| a.contains(k) <==> b.contains(k) by {
        assert(a.contains(k) <==> a.to_multiset().count(k) > 0);
        assert(b.contains(k) <==> b.to_multiset().count(k) > 0);
    }
    assert(b.no_duplicates()) by {
        b.lemma_multiset_has_no_duplicates_conv();
    }
}

/// Checks that a read at `offset` filled its buffer of `want` bytes.
pub fn read_full_at(n: usize, want: usize, offset: u64) -> (r: Result<()>)
    ensures
        if n < want {
            r matches Err(e) && e@ == ErrorView::Io(
                eof_view("short read at offset "@ + dec_text(offset as nat)),
            )
        } else {
            r is Ok
        },
{
    if n < want {
        let mut m = String::from_str("short read at offset ");
        push_decimal(&mut m, offset);
        return Err(Error::Io(IoError::unexpected_eof(m.as_str())));
    }
    Ok(())
}

/// A snapshot stores every page of the database but the lock page, and takes
/// a page from the WAL exactly when the WAL holds it.
pub proof fn lemma_snapshot_covers(pgno: u32, page_size: u32, page_map: Map<u32, u64>)
    ensures
        snapshot_source(pgno, page_size, page_map) is None <==> pgno == lock_page(page_size as int),
        pgno != lock_page(page_size as int) ==> (page_map.dom().contains(pgno) <==> snapshot_source(
            pgno,
            page_size,
            page_map,
        ) matches Some(PageSource::Wal { .. })),
{
}

/// The pages that a snapshot still visits.
pub open spec fn snapshot_pages(run: SnapshotPages, page_map: Map<u32, u64>) -> Seq<SnapshotPage>
    decreases run.commit - run.done,
{
    match next_snapshot_page(run, page_map) {
        (run2, Some(page)) => seq![page] + snapshot_pages(run2, page_map),
        (_, None) => Seq::empty(),
    }
}

/// A snapshot visits the pages from 1 to the size of the database, each once
/// and in order, and no other.
pub proof fn lemma_snapshot_in_order(page_size: u32, commit: u32, page_map: Map<u32, u64>)
    ensures
        ({
            let pages = snapshot_pages(SnapshotPages { page_size, commit, done: 0 }, page_map);
            &&& pages.len() == commit
            &&& forall|i: int|
                0 <= i < commit ==> #[trigger] pages[i] == snapshot_page(
                    (i + 1) as u32,
                    page_size,
                    page_map,
                )
        }),
{
    lemma_snapshot_rest(SnapshotPages { page_size, commit, done: 0 }, page_map);
}

proof fn lemma_snapshot_rest(run: SnapshotPages, page_map: Map<u32, u64>)
    requires
        run.done <= run.commit,
    ensures
        ({
            let pages = snapshot_pages(run, page_map);
            &&& pages.len() == run.commit - run.done
            &&& forall|i: int|
                0 <= i < pages.len() ==> #[trigger] pages[i] == snapshot_page(
                    (run.done + i + 1) as u32,
                    run.page_size,
                    page_map,
                )
        }),
    decreases run.commit - run.done,
{
    if run.done < run.commit {
        let run2 = next_snapshot_page(run, page_map).0;
        lemma_snapshot_rest(run2, page_map);
        let pages = snapshot_pages(run, page_map);
        let rest = snapshot_pages(run2, page_map);
        assert forall|i: int| 0 <= i < pages.len() implies #[trigger] pages[i] == snapshot_page(
            (run.done + i + 1) as u32,
            run.page_size,
            page_map,
        ) by {
            if i > 0 {
                assert(pages[i] == rest[i - 1]);
            }
        }
    }
}

/// The L0 file of a push is valid, holds the one transaction right behind the
/// local position, and names the WAL segment it was made from.
pub proof fn lemma_l0_header(
    page_size: u32,
    pos: Pos,
    commit: u32,
    now: i64,
    offset: u64,
    sz: int,
    scan: WalScan,
)
    requires
        page_size_ok(page_size),
        pos.txid.0 < u64::MAX,
        WAL_HEADER_SIZE <= offset,
        0 <= sz,
        offset + sz <= i64::MAX,
    ensures
        ({
            let h = l0_header(page_size, pos, commit, now, offset, sz, scan);
            &&& h.check() is Ok
            &&& segment_ok(h)
            &&& h.wal_offset + h.wal_size == offset + sz
            &&& h.min_txid == h.max_txid
            &&& contiguous(pos.txid, h.min_txid, h.max_txid)
        }),
{
    assert(2u32 & 2u32 != 0) by (bit_vector);
}

/// A push takes up where the last one stopped: with the L0 file of that push
/// as the newest one, its last frame still in place, and the WAL's salts
/// unchanged, copying resumes exactly at the end of the consumed content,
/// without a snapshot.
pub proof fn lemma_next_push_resumes(
    page_size: u32,
    pos: Pos,
    commit: u32,
    now: i64,
    offset: u64,
    sz: int,
    scan: WalScan,
    synced_to_wal_end: bool,
    seen: ReadingsView,
)
    requires
        page_size_ok(page_size),
        pos.txid.0 < u64::MAX,
        WAL_HEADER_SIZE <= offset,
        0 <= sz,
        offset + sz <= i64::MAX,
        offset + sz == WAL_HEADER_SIZE || offset + sz >= WAL_HEADER_SIZE + WAL_FRAME_HEADER_SIZE
            + page_size,
        seen.ltx_header == Some(l0_header(page_size, pos, commit, now, offset, sz, scan)),
        seen.wal_size matches Some(n) && n >= offset + sz,
        seen.wal_header matches Some(b) && header_salts(b) == (scan.salt1, scan.salt2),
        seen.last_page == Some(true),
    ensures
        verify_tree(
            page_size as int,
            Txid((pos.txid.0 + 1) as u64),
            synced_to_wal_end,
            seen,
        ) == resume(offset + sz, scan.salt1, scan.salt2),
{
    lemma_l0_header(page_size, pos, commit, now, offset, sz, scan);
}

/// The header of the L0 file that a batch plans says what the file is: it
/// brings the database to the size in the WAL's last commit record or, where
/// there is none, to as many whole pages as the database file holds; it has
/// the writer's page size and the time given, tracks no checksums, and holds
/// the one transaction behind the local position; and it names the WAL that
/// it was made from, from the resume point to the last commit.
pub proof fn lemma_l0_states_database(
    w: Writer,
    pos: Pos,
    info: SyncInfo,
    db_len: u64,
    scan: WalScan,
    now: i64,
    plan: L0Plan,
)
    requires
        w.page_size > 0,
        pos.txid.0 < u64::MAX,
        info.offset <= i64::MAX,
        scan.max_offset <= i64::MAX,
        sync_planned(w, pos, info, db_len, scan, now) == Ok::<SyncPlan, ErrorView>(
            SyncPlan::Write(plan),
        ),
    ensures
        ({
            let h = plan.header;
            &&& scan.commit > 0 ==> h.commit == scan.commit
            &&& scan.commit == 0 && db_len < 0x1_0000_0000 * w.page_size ==> h.commit * w.page_size
                <= db_len < (h.commit + 1) * w.page_size
            &&& h.page_size == w.page_size
            &&& h.timestamp == now
            &&& h.flags == 2
            &&& h.pre_apply_checksum.0 == 0
            &&& h.node_id == 0
            &&& h.min_txid.0 == pos.txid.0 + 1
            &&& h.max_txid.0 == pos.txid.0 + 1
            &&& h.wal_salt1 == scan.salt1
            &&& h.wal_salt2 == scan.salt2
            &&& h.wal_offset == info.offset
            &&& scan.max_offset > 0 ==> h.wal_offset + h.wal_size == scan.max_offset
                && plan.final_offset == scan.max_offset
            &&& scan.max_offset == 0 ==> h.wal_size == 0 && plan.final_offset == info.offset
            &&& plan.snapshot == info.snapshotting
        }),
{
    let ps = w.page_size as int;
    let n = db_len as int / ps;
    vstd::arithmetic::div_mod::lemma_fundamental_div_mod(db_len as int, ps);
    assert(n * ps <= db_len < (n + 1) * ps) by (nonlinear_arith)
        requires
            db_len == ps * n + db_len as int % ps,
            0 <= db_len as int % ps < ps,
    ;
    if db_len < 0x1_0000_0000 * w.page_size {
        assert(0 <= n < 0x1_0000_0000) by (nonlinear_arith)
            requires
                n * ps <= db_len < 0x1_0000_0000 * ps,
                0 < ps,
                0 <= db_len < (n + 1) * ps,
        ;
    }
}

/// A batch writes an L0 file exactly when a snapshot is due or the WAL holds a
/// commit behind the resume point; it has nothing to do exactly when neither
/// is the case; and it fails exactly when the last commit lies before the
/// resume point, which it names.
pub proof fn lemma_sync_decides(
    w: Writer,
    pos: Pos,
    info: SyncInfo,
    db_len: u64,
    scan: WalScan,
    now: i64,
)
    ensures
        ({
            let r = sync_planned(w, pos, info, db_len, scan, now);
            let before = 0 < scan.max_offset < info.offset;
            let behind = scan.max_offset > info.offset;
            &&& r is Err <==> before
            &&& before ==> r == Err::<SyncPlan, ErrorView>(
                ErrorView::Other(
                    "wal size must be positive: maxOffset="@ + dec_text(scan.max_offset as nat)
                        + ", offset="@ + dec_text(info.offset as nat),
                ),
            )
            &&& (r matches Ok(SyncPlan::Write(_))) <==> !before && (info.snapshotting || (behind
                && scan.max_offset > 0))
            &&& r matches Ok(SyncPlan::Nothing(o)) ==> {
                &&& !o.synced
                &&& o.pos is None
                &&& o.new_wal_size == info.offset
                &&& !o.snapshotted
                &&& o.snapshot_reason == info.reason
                &&& o.synced_to_wal_end <==> w.state.synced_to_wal_end
                    && !info.clear_synced_to_wal_end
            }
        }),
{
}

/// Once its file is in place, a batch moves the local position to the file's
/// transaction and the consumed end of the WAL to the end of the segment that
/// the file was made from; the WAL counts as consumed to its end exactly when
/// its file ends there; and the snapshot decision is reported as it was made.
pub proof fn lemma_batch_moves_on(plan: L0Plan, info: SyncInfo, wal_file_size: u64)
    ensures
        ({
            let o = batch_synced(plan, info, wal_file_size);
            &&& o.synced
            &&& o.pos matches Some(p) && p.txid == plan.header.max_txid && p.post_apply_checksum.0 == 0
            &&& o.new_wal_size == plan.final_offset
            &&& o.synced_to_wal_end <==> wal_file_size == plan.final_offset
            &&& o.snapshotted == info.snapshotting
            &&& o.snapshot_reason == info.reason
        }),
{
}

/// Reading resumes at the offset decided on, with its salts; only a resume
/// point right behind the WAL's header, where no frame comes before, is read
/// from the top.
pub proof fn lemma_reading_starts(info: SyncInfo)
    ensures
        info.offset == 32 <==> start_reading(info) is Top,
        start_reading(info) matches ReaderStart::At { offset, salt1, salt2 } ==> offset
            == info.offset && salt1 == info.salt1 && salt2 == info.salt2,
{
}

/// A page in the WAL is read behind the header of its frame; one that is not
/// is read from its place in the database file, where the pages tile: page 1
/// is at the start and each page a page size behind the one before. Every
/// 256th page brings a look for a cancellation, and the page that holds
/// SQLite's lock byte is left out.
pub proof fn lemma_snapshot_sources(pgno: u32, page_size: u32, page_map: Map<u32, u64>)
    requires
        pgno >= 1,
        page_size > 0,
        offsets_ok(page_map),
    ensures
        ({
            let p = snapshot_page(pgno, page_size, page_map);
            let holds_lock = (pgno - 1) * page_size <= 0x4000_0000 < pgno * page_size;
            &&& p.pgno == pgno
            &&& p.check_cancel <==> pgno % 256 == 0
            &&& p.source is None <==> holds_lock
            &&& !holds_lock && page_map.dom().contains(pgno) ==> p.source == Some(
                PageSource::Wal { offset: (page_map[pgno] + 24) as u64 },
            )
            &&& !holds_lock && !page_map.dom().contains(pgno) ==> (
            p.source matches Some(PageSource::Database { offset }) && offset == page_size * (pgno
                - 1))
        }),
{
    let ps = page_size as int;
    let q = 0x4000_0000int / ps;
    vstd::arithmetic::div_mod::lemma_fundamental_div_mod(0x4000_0000, ps);
    assert((pgno == q + 1) <==> ((pgno - 1) * ps <= 0x4000_0000 < pgno * ps)) by (nonlinear_arith)
        requires
            0x4000_0000 == ps * q + 0x4000_0000int % ps,
            0 <= 0x4000_0000int % ps < ps,
            pgno >= 1,
    ;
    assert((pgno - 1) * ps == ps * (pgno - 1)) by (nonlinear_arith);
    assert(0 <= (pgno - 1) * page_size <= 0xFFFF_FFFF * 0xFFFF_FFFF) by (nonlinear_arith)
        requires
            1 <= pgno <= 0xFFFF_FFFF,
            0 < page_size <= 0xFFFF_FFFF,
    ;
}

/// A database opens without a remembered position, with a lineage still to be
/// checked, and with nothing taken over from the process before but the
/// consumed end of the WAL.
pub proof fn lemma_opens_fresh(w: Writer, r: OpenReadings, verified_pos: Txid, provisional: bool)
    requires
        r.page_size is Some,
        opened(w, r, verified_pos, provisional),
    ensures
        r.page_size == Some(w.page_size),
        w.state.last_synced_wal_offset == r.last_synced_wal_offset,
        !w.state.synced_to_wal_end,
        !w.state.synced_since_checkpoint,
        w.cached_pos is None,
        w.remote_txid is None,
        w.verified_pos == verified_pos,
        w.verified_pos_provisional == provisional,
        !w.lineage_checked,
{
}

/// Numbers that do not fit their fields keep their low bits: the page count of
/// the database file its low 32, and the bounds of the WAL segment their 64,
/// read as signed ones.
pub proof fn lemma_l0_keeps_low_bits(
    w: Writer,
    pos: Pos,
    info: SyncInfo,
    db_len: u64,
    scan: WalScan,
    now: i64,
    plan: L0Plan,
)
    requires
        w.page_size > 0,
        sync_planned(w, pos, info, db_len, scan, now) == Ok::<SyncPlan, ErrorView>(
            SyncPlan::Write(plan),
        ),
    ensures
        scan.commit == 0 ==> (db_len as int / w.page_size as int - plan.header.commit) % 0x1_0000_0000
            == 0,
        plan.header.wal_offset as int % 0x1_0000_0000_0000_0000 == info.offset,
        plan.header.wal_size as int % 0x1_0000_0000_0000_0000 == if scan.max_offset == 0 {
            0
        } else {
            scan.max_offset - info.offset
        },
        plan.final_offset == if scan.max_offset == 0 {
            info.offset
        } else {
            scan.max_offset
        },
{
    let n = db_len as int / w.page_size as int;
    vstd::arithmetic::div_mod::lemma_div_pos_is_pos(db_len as int, w.page_size as int);
    assert((n - n % 0x1_0000_0000) % 0x1_0000_0000 == 0);
}

} // verus!
