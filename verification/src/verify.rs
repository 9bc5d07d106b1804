//! The decision tree that runs before each sync: where in the WAL to resume
//! copying, or that a full snapshot is required. Every branch here is
//! load-bearing for correctness.
//!
//! [`verify`] decides on what has been read so far and asks for the next
//! reading where that is not enough. The caller makes the reading, adds it to
//! [`Readings`], and calls again. A reading that fails ends the sync with its
//! own error.

use vstd::prelude::*;
use vstd::slice::slice_subrange;
use vstd::string::*;

use crate::bytes::read_be32;
#[allow(unused_imports)]
use crate::bytes::{
    be_bytes, be_value, lemma_be_bytes_len, lemma_be_bytes_of_value, lemma_be_value_of_bytes,
    lemma_pow256_values,
};
#[allow(unused_imports)]
use crate::error::{outcome, quoted_path_text, ErrorView};
use crate::error::{quoted_path, Error, Result};
#[allow(unused_imports)]
use crate::io::{eof_view, IoErrorView};
use crate::io::{IoError, IoErrorKind};
use crate::ltx::{Header, Txid};
use crate::text::push_signed;
#[allow(unused_imports)]
use crate::text::int_text;
use crate::wal::{WAL_FRAME_HEADER_SIZE, WAL_HEADER_SIZE};

verus! {

/// Outcome of verification: where to resume, with what salts, and whether a
/// full snapshot is required.
#[derive(Debug, Clone, Copy)]
pub struct SyncInfo {
    /// WAL byte offset where copying resumes.
    pub offset: u64,
    pub salt1: u32,
    pub salt2: u32,
    /// True if a full database snapshot must be written.
    pub snapshotting: bool,
    /// Human-readable reason when snapshotting.
    pub reason: Option<&'static str>,
    /// Clear the synced-to-WAL-end flag (expected-truncation path).
    pub clear_synced_to_wal_end: bool,
}

/// Sync state carried between pushes.
#[derive(Debug, Clone, Copy, PartialEq, Eq, Structural)]
pub struct SyncState {
    /// Logical end of WAL content at last sync (the L0 header's WAL offset
    /// plus WAL size) — used for checkpoint thresholds instead of file size.
    pub last_synced_wal_offset: u64,
    /// Whether the last sync consumed the WAL exactly to its end — makes a
    /// subsequent truncation "expected".
    pub synced_to_wal_end: bool,
    /// Whether any data has been synced since the last checkpoint.
    pub synced_since_checkpoint: bool,
}

impl Default for SyncState {
    fn default() -> (r: SyncState)
        ensures
            r == (SyncState {
                last_synced_wal_offset: 0,
                synced_to_wal_end: false,
                synced_since_checkpoint: false,
            }),
    {
        SyncState {
            last_synced_wal_offset: 0,
            synced_to_wal_end: false,
            synced_since_checkpoint: false,
        }
    }
}

/// What has been read for one verification so far.
#[derive(Debug, Clone)]
pub struct Readings {
    /// The header of the newest local L0 file.
    pub ltx_header: Option<Header>,
    /// The size of the WAL file; zero when there is none.
    pub wal_size: Option<u64>,
    /// The first 32 bytes of the WAL file.
    pub wal_header: Option<[u8; 32]>,
    /// Whether the last synced frame still stands in the WAL, with its page in
    /// the newest L0 file.
    pub last_page: Option<bool>,
    /// The salts of the WAL's frames.
    pub frame_salts: Option<Vec<(u32, u32)>>,
}

/// The next reading to make.
#[derive(Debug, Clone, Copy, PartialEq, Eq)]
pub enum Reading {
    /// The header of the newest local L0 file.
    LtxHeader,
    /// The size of the WAL file.
    WalSize,
    /// The first 32 bytes of the WAL file.
    WalHeader,
    /// The frame at `offset`, looked up in the newest L0 file.
    LastPage { offset: u64 },
    /// The salts of the WAL's frames, up to the first frame with these salts.
    FrameSalts { until: (u32, u32) },
}

/// Where a verification stands.
#[derive(Debug)]
pub enum VerifyStep {
    Read(Reading),
    Done(Result<SyncInfo>),
}

/// The mathematical counterpart of [`SyncInfo`].
#[verifier::ext_equal]
pub struct SyncInfoView {
    pub offset: int,
    pub salt1: u32,
    pub salt2: u32,
    pub reason: Option<Seq<char>>,
    pub clear_synced_to_wal_end: bool,
}

impl SyncInfoView {
    /// A snapshot is due exactly when there is a reason for one.
    pub open spec fn snapshotting(self) -> bool {
        self.reason is Some
    }
}

/// The mathematical counterpart of [`Readings`].
#[verifier::ext_equal]
pub struct ReadingsView {
    pub ltx_header: Option<Header>,
    pub wal_size: Option<u64>,
    pub wal_header: Option<Seq<u8>>,
    pub last_page: Option<bool>,
    pub frame_salts: Option<Seq<(u32, u32)>>,
}

/// The mathematical counterpart of [`VerifyStep`].
#[verifier::ext_equal]
pub enum StepView {
    Read(Reading),
    Done(core::result::Result<SyncInfoView, ErrorView>),
}

impl View for SyncInfo {
    type V = SyncInfoView;

    open spec fn view(&self) -> SyncInfoView {
        SyncInfoView {
            offset: self.offset as int,
            salt1: self.salt1,
            salt2: self.salt2,
            reason: match self.reason {
                Some(s) => Some(s@),
                None => None,
            },
            clear_synced_to_wal_end: self.clear_synced_to_wal_end,
        }
    }
}

impl SyncInfo {
    /// The flag and the reason agree.
    pub open spec fn wf(self) -> bool {
        self.snapshotting == (self.reason is Some)
    }
}

impl View for Readings {
    type V = ReadingsView;

    open spec fn view(&self) -> ReadingsView {
        ReadingsView {
            ltx_header: self.ltx_header,
            wal_size: self.wal_size,
            wal_header: match self.wal_header {
                Some(b) => Some(b@),
                None => None,
            },
            last_page: self.last_page,
            frame_salts: match self.frame_salts {
                Some(v) => Some(v@),
                None => None,
            },
        }
    }
}

impl View for VerifyStep {
    type V = StepView;

    open spec fn view(&self) -> StepView {
        match self {
            VerifyStep::Read(r) => StepView::Read(*r),
            VerifyStep::Done(Ok(info)) => StepView::Done(Ok(info@)),
            VerifyStep::Done(Err(e)) => StepView::Done(Err(e@)),
        }
    }
}

impl Readings {
    /// Nothing read yet.
    pub fn new() -> (r: Readings)
        ensures
            r@ == (ReadingsView {
                ltx_header: None,
                wal_size: None,
                wal_header: None,
                last_page: None,
                frame_salts: None,
            }),
    {
        Readings {
            ltx_header: None,
            wal_size: None,
            wal_header: None,
            last_page: None,
            frame_salts: None,
        }
    }
}

/// A header whose WAL segment ends where a file can end.
pub open spec fn segment_ok(h: Header) -> bool {
    h.wal_offset >= 0 && h.wal_size >= 0 && h.wal_offset + h.wal_size <= i64::MAX
}

/// Whether a header's WAL segment ends where a file can end.
pub fn segment_fits(h: &Header) -> (r: bool)
    ensures
        r == segment_ok(*h),
{
    h.wal_offset >= 0 && h.wal_size >= 0 && h.wal_offset <= i64::MAX - h.wal_size
}

/// The two salts in a WAL header.
pub open spec fn header_salts(b: Seq<u8>) -> (u32, u32) {
    (be_value(b.subrange(16, 20)) as u32, be_value(b.subrange(20, 24)) as u32)
}

/// Whether a frame has salts other than the `known` ones.
pub open spec fn unknown_salt(salts: Seq<(u32, u32)>, known: Seq<(u32, u32)>) -> bool {
    exists|i: int| 0 <= i < salts.len() && !known.contains(#[trigger] salts[i])
}

/// Resume at `offset` with these salts and no snapshot.
pub open spec fn resume(offset: int, salt1: u32, salt2: u32) -> StepView {
    StepView::Done(
        Ok(SyncInfoView { offset, salt1, salt2, reason: None, clear_synced_to_wal_end: false }),
    )
}

/// Snapshot, for this reason.
pub open spec fn snapshot(offset: int, salt1: u32, salt2: u32, reason: Seq<char>) -> StepView {
    StepView::Done(
        Ok(
            SyncInfoView {
                offset,
                salt1,
                salt2,
                reason: Some(reason),
                clear_synced_to_wal_end: false,
            },
        ),
    )
}

/// What the WAL's size says about the resume point `end` of the L0 file `h`.
pub open spec fn after_wal_size(
    page_size: int,
    synced_to_wal_end: bool,
    h: Header,
    wal_size: u64,
    seen: ReadingsView,
) -> StepView {
    let end = h.wal_offset + h.wal_size;
    if end > wal_size {
        // The WAL was truncated below our resume point.
        if !synced_to_wal_end {
            snapshot(end, h.wal_salt1, h.wal_salt2, "wal truncated by another process"@)
        } else {
            match seen.wal_header {
                None => StepView::Read(Reading::WalHeader),
                Some(b) => StepView::Done(
                    Ok(
                        SyncInfoView {
                            offset: WAL_HEADER_SIZE as int,
                            salt1: header_salts(b).0,
                            salt2: header_salts(b).1,
                            reason: None,
                            clear_synced_to_wal_end: true,
                        },
                    ),
                ),
            }
        }
    } else {
        match seen.wal_header {
            None => StepView::Read(Reading::WalHeader),
            Some(b) => after_wal_header(page_size, h, header_salts(b), seen),
        }
    }
}

/// What the salts of the live WAL say about the L0 file `h`.
pub open spec fn after_wal_header(
    page_size: int,
    h: Header,
    live: (u32, u32),
    seen: ReadingsView,
) -> StepView {
    let end = h.wal_offset + h.wal_size;
    let prev = end - (WAL_FRAME_HEADER_SIZE + page_size);
    let same_salts = live == (h.wal_salt1, h.wal_salt2);
    if end == WAL_HEADER_SIZE || prev == WAL_HEADER_SIZE {
        // No frame, or only the first one, was synced from this WAL.
        if same_salts {
            resume(end, h.wal_salt1, h.wal_salt2)
        } else {
            snapshot(end, h.wal_salt1, h.wal_salt2, "wal header salt reset, snapshotting"@)
        }
    } else if prev < WAL_HEADER_SIZE {
        StepView::Done(
            Err(
                ErrorView::Other(
                    "prev WAL offset is less than the header size: "@ + int_text(prev),
                ),
            ),
        )
    } else {
        match seen.last_page {
            None => StepView::Read(Reading::LastPage { offset: prev as u64 }),
            Some(false) => snapshot(
                end,
                h.wal_salt1,
                h.wal_salt2,
                "last page does not exist in last ltx file, wal overwritten by another process"@,
            ),
            Some(true) => if same_salts {
                resume(end, h.wal_salt1, h.wal_salt2)
            } else {
                // The WAL restarted under us: resume from its top, unless
                // frames of a further generation were missed.
                match seen.frame_salts {
                    None => StepView::Read(
                        Reading::FrameSalts { until: (h.wal_salt1, h.wal_salt2) },
                    ),
                    Some(salts) => if unknown_salt(
                        salts,
                        seq![live, (h.wal_salt1, h.wal_salt2)],
                    ) {
                        snapshot(
                            WAL_HEADER_SIZE as int,
                            live.0,
                            live.1,
                            "full or restart checkpoint detected, snapshotting"@,
                        )
                    } else {
                        resume(WAL_HEADER_SIZE as int, live.0, live.1)
                    },
                }
            },
        }
    }
}

/// The decision tree over what has been read so far.
pub open spec fn verify_tree(
    page_size: int,
    pos_txid: Txid,
    synced_to_wal_end: bool,
    seen: ReadingsView,
) -> StepView {
    if pos_txid.0 == 0 {
        snapshot(WAL_HEADER_SIZE as int, 0, 0, "first sync, no local position"@)
    } else {
        match seen.ltx_header {
            None => StepView::Read(Reading::LtxHeader),
            Some(h) => match seen.wal_size {
                None => StepView::Read(Reading::WalSize),
                Some(n) => after_wal_size(page_size, synced_to_wal_end, h, n, seen),
            },
        }
    }
}

/// The first 32 bytes of the WAL file, of which `read` were there to be read.
pub fn read_wal_header(read: &[u8]) -> (r: Result<[u8; 32]>)
    ensures
        match r {
            Ok(b) => read@.len() >= 32 && b@ == read@.take(32),
            Err(e) => read@.len() < 32 && e@ == ErrorView::Io(eof_view("short wal header"@)),
        },
{
    if read.len() < 32 {
        return Err(Error::Io(IoError::unexpected_eof("short wal header")));
    }
    let mut hdr: [u8; 32] = [0; 32];
    let mut i: usize = 0;
    while i < 32
        invariant
            i <= 32 <= read@.len(),
            hdr@.len() == 32,
            forall|j: int| 0 <= j < i ==> hdr@[j] == read@[j],
        decreases 32 - i,
    {
        hdr[i] = read[i];
        i = i + 1;
    }
    assert(hdr@ =~= read@.take(32));
    Ok(hdr)
}

/// The size of the WAL from its metadata: a missing file is empty.
pub fn wal_file_size(stat: core::result::Result<u64, IoError>) -> (r: Result<u64>)
    ensures
        match stat {
            Ok(n) => r == Ok::<u64, Error>(n),
            Err(e) => if e.kind == IoErrorKind::NotFound {
                r == Ok::<u64, Error>(0)
            } else {
                r == Err::<u64, Error>(Error::Io(e))
            },
        },
{
    match stat {
        Ok(n) => Ok(n),
        Err(e) => if e.kind == IoErrorKind::NotFound {
            Ok(0)
        } else {
            Err(Error::Io(e))
        },
    }
}

/// The error of a local L0 file; `path` is its quoted path.
pub open spec fn local_ltx_view(txid: Txid, action: Seq<char>, path: Seq<char>, cause: Seq<char>) -> ErrorView {
    ErrorView::LocalLtx { txid, msg: action + " "@ + path + ": "@ + cause }
}

/// The error of a local L0 file that could not be opened or decoded, from its
/// quoted path.
pub fn local_ltx_message(txid: Txid, action: &str, path: &str, cause: &str) -> (e: Error)
    ensures
        e@ == local_ltx_view(txid, action@, path@, cause@),
{
    let mut msg = String::from_str(action);
    msg.append(" ");
    msg.append(path);
    msg.append(": ");
    msg.append(cause);
    Error::LocalLtx { txid, msg }
}

/// The error of a local L0 file that could not be opened or decoded.
pub fn local_ltx_error(txid: Txid, action: &str, path: &str, cause: &str) -> (e: Error)
    ensures
        e@ == local_ltx_view(txid, action@, quoted_path_text(path@), cause@),
{
    local_ltx_message(txid, action, quoted_path(path).as_str(), cause)
}

fn done(offset: u64, salt1: u32, salt2: u32, reason: Option<&'static str>) -> (s: VerifyStep)
    ensures
        s@ == StepView::Done(
            Ok(
                SyncInfoView {
                    offset: offset as int,
                    salt1,
                    salt2,
                    reason: match reason {
                        Some(t) => Some(t@),
                        None => None,
                    },
                    clear_synced_to_wal_end: false,
                },
            ),
        ),
        s matches VerifyStep::Done(Ok(info)) && info.wf(),
{
    VerifyStep::Done(
        Ok(
            SyncInfo {
                offset,
                salt1,
                salt2,
                snapshotting: reason.is_some(),
                reason,
                clear_synced_to_wal_end: false,
            },
        ),
    )
}

/// The decision tree: where to resume, or the next reading to make.
pub fn verify(page_size: u32, pos_txid: Txid, state: &SyncState, seen: &Readings) -> (s: VerifyStep)
    requires
        seen.ltx_header matches Some(h) ==> segment_ok(h),
    ensures
        s@ == verify_tree(page_size as int, pos_txid, state.synced_to_wal_end, seen@),
        s matches VerifyStep::Done(Ok(info)) ==> info.wf(),
{
    let frame_size: u64 = WAL_FRAME_HEADER_SIZE + page_size as u64;

    // First sync ever: snapshot from the top of the WAL.
    if pos_txid.is_zero() {
        return done(WAL_HEADER_SIZE, 0, 0, Some("first sync, no local position"));
    }
    // Resume point comes from the newest local L0 file's header.

    let ltx_hdr: Header = match seen.ltx_header {
        Some(h) => h,
        None => {
            return VerifyStep::Read(Reading::LtxHeader);
        },
    };
    let offset: u64 = (ltx_hdr.wal_offset + ltx_hdr.wal_size) as u64;
    let ltx_salt1: u32 = ltx_hdr.wal_salt1;
    let ltx_salt2: u32 = ltx_hdr.wal_salt2;

    // WAL shorter than our resume point: it was truncated.
    let wal_size: u64 = match seen.wal_size {
        Some(n) => n,
        None => {
            return VerifyStep::Read(Reading::WalSize);
        },
    };
    if offset > wal_size && !state.synced_to_wal_end {
        return done(offset, ltx_salt1, ltx_salt2, Some("wal truncated by another process"));
    }
    let hdr = match &seen.wal_header {
        Some(b) => b,
        None => {
            return VerifyStep::Read(Reading::WalHeader);
        },
    };
    let salt1: u32 = read_be32(hdr, 16);
    let salt2: u32 = read_be32(hdr, 20);
    if offset > wal_size {
        // Expected checkpoint truncation: restart from the new WAL header
        // without snapshotting.
        return VerifyStep::Done(
            Ok(
                SyncInfo {
                    offset: WAL_HEADER_SIZE,
                    salt1,
                    salt2,
                    snapshotting: false,
                    reason: None,
                    clear_synced_to_wal_end: true,
                },
            ),
        );
    }
    // Compare live WAL header salts to the LTX's.

    let salt_match: bool = salt1 == ltx_salt1 && salt2 == ltx_salt2;

    // Edge: resume point is the WAL header itself — avoid the prev-frame
    // underflow.
    if offset == WAL_HEADER_SIZE {
        if salt_match {
            return done(offset, ltx_salt1, ltx_salt2, None);
        }
        return done(offset, ltx_salt1, ltx_salt2, Some("wal header salt reset, snapshotting"));
    }
    // Edge: exactly one frame synced ever. Computed signed: an L0 resume
    // offset smaller than one frame (e.g. after an out-of-band page size
    // change) must hit the guard below, not wrap.

    let prev_wal_offset: i64 = offset as i64 - frame_size as i64;
    if prev_wal_offset == WAL_HEADER_SIZE as i64 {
        if salt_match {
            return done(offset, ltx_salt1, ltx_salt2, None);
        }
        return done(offset, ltx_salt1, ltx_salt2, Some("wal header salt reset, snapshotting"));
    } else if prev_wal_offset < WAL_HEADER_SIZE as i64 {
        let mut m = String::from_str("prev WAL offset is less than the header size: ");
        push_signed(&mut m, prev_wal_offset);
        return VerifyStep::Done(Err(Error::Other(m)));
    }
    // The frame we last synced must still exist, with matching salts and
    // byte-identical page content in the newest L0 file.

    match seen.last_page {
        None => {
            return VerifyStep::Read(Reading::LastPage { offset: prev_wal_offset as u64 });
        },
        Some(false) => {
            return done(
                offset,
                ltx_salt1,
                ltx_salt2,
                Some(
                    "last page does not exist in last ltx file, wal overwritten by another process",
                ),
            );
        },
        Some(true) => {},
    }

    // Salt changed but the last page checks out: the WAL restarted under us
    // (e.g. an app checkpoint). Resume from the top with the new salts unless
    // more than one unseen generation cycled through (frames were missed).
    if !salt_match {
        let salts = match &seen.frame_salts {
            Some(v) => v,
            None => {
                return VerifyStep::Read(Reading::FrameSalts { until: (ltx_salt1, ltx_salt2) });
            },
        };
        let known: [(u32, u32); 2] = [(salt1, salt2), (ltx_salt1, ltx_salt2)];
        assert(known@ =~= seq![(salt1, salt2), (ltx_salt1, ltx_salt2)]);
        if detect_full_checkpoint(salts.as_slice(), &known) {
            return done(
                WAL_HEADER_SIZE,
                salt1,
                salt2,
                Some("full or restart checkpoint detected, snapshotting"),
            );
        }
        return done(WAL_HEADER_SIZE, salt1, salt2, None);
    }
    done(offset, ltx_salt1, ltx_salt2, None)
}

/// Detects whether a FULL/RESTART checkpoint cycled the WAL more than once
/// since it was last read: any frame salt other than the known ones means
/// frames were missed.
pub fn detect_full_checkpoint(salts: &[(u32, u32)], known_salts: &[(u32, u32)]) -> (r: bool)
    ensures
        r == unknown_salt(salts@, known_salts@),
{
    let n: usize = salts.len();
    let k: usize = known_salts.len();
    let mut i: usize = 0;
    while i < n
        invariant
            i <= n == salts@.len(),
            k == known_salts@.len(),
            forall|a: int| 0 <= a < i ==> known_salts@.contains(#[trigger] salts@[a]),
        decreases n - i,
    {
        let salt: (u32, u32) = salts[i];
        let mut j: usize = 0;
        let mut found: bool = false;
        while j < k && !found
            invariant
                j <= k == known_salts@.len(),
                found ==> known_salts@.contains(salt),
                !found ==> forall|b: int| 0 <= b < j ==> known_salts@[b] != salt,
            decreases k - j, !found as int,
        {
            let known: (u32, u32) = known_salts[j];
            if known.0 == salt.0 && known.1 == salt.1 {
                assert(known_salts@[j as int] == salt);
                found = true;
            } else {
                j = j + 1;
            }
        }
        if !found {
            assert(!known_salts@.contains(salts@[i as int]));
            return true;
        }
        i = i + 1;
    }
    false
}

/// The last synced frame, as it stands in the live WAL.
#[derive(Debug, Clone)]
pub struct LastFrame {
    pub pgno: u32,
    pub data: Vec<u8>,
}

/// The page in the frame at the front of `read`: its number and bytes. `None`
/// when the frame has other salts than these.
pub open spec fn frame_read(read: Seq<u8>, page_size: u32, salts: (u32, u32)) -> core::result::Result<
    Option<(u32, Seq<u8>)>,
    ErrorView,
> {
    if read.len() < WAL_FRAME_HEADER_SIZE + page_size {
        Err(ErrorView::Io(eof_view("cannot read last synced wal page"@)))
    } else if (be_value(read.subrange(8, 12)), be_value(read.subrange(12, 16))) != (
        salts.0 as nat,
        salts.1 as nat,
    ) {
        Ok(None)
    } else {
        Ok(Some((be_value(read.subrange(0, 4)) as u32, read.subrange(24, 24 + page_size))))
    }
}

/// Reads the frame that was synced last from the `read` bytes of the WAL at
/// its offset. `None` when its salts are not those of the newest L0 file: the
/// frame was overwritten.
pub fn last_frame(read: &[u8], page_size: u32, ltx_hdr: &Header) -> (r: Result<Option<LastFrame>>)
    ensures
        match frame_read(read@, page_size, (ltx_hdr.wal_salt1, ltx_hdr.wal_salt2)) {
            Err(e) => r matches Err(x) && x@ == e,
            Ok(None) => r matches Ok(None),
            Ok(Some(frame)) => r matches Ok(Some(f)) && f.pgno == frame.0 && f.data@ == frame.1,
        },
{
    let n: usize = read.len();
    if (n as u64) < WAL_FRAME_HEADER_SIZE + page_size as u64 {
        return Err(Error::Io(IoError::unexpected_eof("cannot read last synced wal page")));
    }
    let pgno: u32 = read_be32(read, 0);
    let fsalt1: u32 = read_be32(read, 8);
    let fsalt2: u32 = read_be32(read, 12);
    if fsalt1 != ltx_hdr.wal_salt1 || fsalt2 != ltx_hdr.wal_salt2 {
        return Ok(None);
    }
    let data = vstd::slice::slice_to_vec(slice_subrange(read, 24, 24 + page_size as usize));
    Ok(Some(LastFrame { pgno, data }))
}

/// Whether the page stands among `pages`.
pub open spec fn page_listed(pages: Seq<(u32, Seq<u8>)>, frame: (u32, Seq<u8>)) -> bool {
    pages.contains(frame)
}

/// What the next page of the newest L0 file, or its end, says of the search
/// for the last frame's page; `None` while the search goes on.
pub open spec fn search_step(frame: (u32, Seq<u8>), page: Option<(u32, Seq<u8>)>) -> Option<bool> {
    match page {
        Some(p) => if p == frame {
            Some(true)
        } else {
            None
        },
        None => Some(false),
    }
}

/// What a search of an L0 file's pages for the last frame comes to: page by
/// page until there is an answer.
pub open spec fn search(pages: Seq<(u32, Seq<u8>)>, frame: (u32, Seq<u8>)) -> bool
    decreases pages.len(),
{
    if pages.len() == 0 {
        search_step(frame, None) == Some(true)
    } else {
        match search_step(frame, Some(pages[0])) {
            Some(found) => found,
            None => search(pages.skip(1), frame),
        }
    }
}

impl LastFrame {
    /// Looks for the page of this frame in the newest L0 file, byte for byte:
    /// one step. `pgno` is the number of the file's next page and `data` its
    /// bytes; `None` at the end of the file. Gives the answer, or `None` while
    /// the search goes on with the next page.
    pub fn last_page_match(&self, pgno: Option<u32>, data: &[u8]) -> (r: Option<bool>)
        ensures
            r == search_step(
                (self.pgno, self.data@),
                match pgno {
                    Some(n) => Some((n, data@)),
                    None => None,
                },
            ),
    {
        let number: u32 = match pgno {
            Some(n) => n,
            None => {
                return Some(false);
            },
        };
        if number != self.pgno || data.len() != self.data.len() {
            return None;
        }
        let n: usize = data.len();
        let mut i: usize = 0;
        while i < n
            invariant
                i <= n == data@.len() == self.data@.len(),
                pgno is Some,
                forall|j: int| 0 <= j < i ==> data@[j] == self.data@[j],
            decreases n - i,
        {
            if data[i] != self.data[i] {
                assert(data@[i as int] != self.data@[i as int]);
                return None;
            }
            i = i + 1;
        }
        assert(data@ =~= self.data@);
        Some(true)
    }
}

/// Searching page by page finds the frame's page exactly when the file holds
/// it.
pub proof fn lemma_search_finds(pages: Seq<(u32, Seq<u8>)>, frame: (u32, Seq<u8>))
    ensures
        search(pages, frame) == page_listed(pages, frame),
    decreases pages.len(),
{
    if pages.len() > 0 {
        let rest = pages.skip(1);
        lemma_search_finds(rest, frame);
        if page_listed(rest, frame) {
            let i = choose|i: int| 0 <= i < rest.len() && rest[i] == frame;
            assert(pages[i + 1] == rest[i]);
        }
        if page_listed(pages, frame) && pages[0] != frame {
            let i = choose|i: int| 0 <= i < pages.len() && pages[i] == frame;
            assert(rest[i - 1] == pages[i]);
        }
    }
}

/// Whether `more` holds every reading of `seen`.
pub open spec fn extends(seen: ReadingsView, more: ReadingsView) -> bool {
    &&& seen.ltx_header is Some ==> more.ltx_header == seen.ltx_header
    &&& seen.wal_size is Some ==> more.wal_size == seen.wal_size
    &&& seen.wal_header is Some ==> more.wal_header == seen.wal_header
    &&& seen.last_page is Some ==> more.last_page == seen.last_page
    &&& seen.frame_salts is Some ==> more.frame_salts == seen.frame_salts
}

/// Whether `seen` holds the reading `r`.
pub open spec fn has_read(seen: ReadingsView, r: Reading) -> bool {
    match r {
        Reading::LtxHeader => seen.ltx_header is Some,
        Reading::WalSize => seen.wal_size is Some,
        Reading::WalHeader => seen.wal_header is Some,
        Reading::LastPage { .. } => seen.last_page is Some,
        Reading::FrameSalts { .. } => seen.frame_salts is Some,
    }
}

/// A decision stands whatever else is read, and a reading that is asked for
/// has not been made: so each reading is made once at most, and the decision
/// comes after five of them at the latest.
pub proof fn lemma_verify_settles(
    page_size: int,
    pos_txid: Txid,
    synced_to_wal_end: bool,
    seen: ReadingsView,
    more: ReadingsView,
)
    ensures
        extends(seen, more) && verify_tree(page_size, pos_txid, synced_to_wal_end, seen) is Done
            ==> verify_tree(page_size, pos_txid, synced_to_wal_end, more) == verify_tree(
            page_size,
            pos_txid,
            synced_to_wal_end,
            seen,
        ),
        verify_tree(page_size, pos_txid, synced_to_wal_end, seen) matches StepView::Read(r)
            ==> !has_read(seen, r),
{
}

/// The reasons for a snapshot are a fixed set, so they can be aggregated on.
pub open spec fn snapshot_reasons() -> Set<Seq<char>> {
    set![
        "first sync, no local position"@,
        "wal truncated by another process"@,
        "wal header salt reset, snapshotting"@,
        "last page does not exist in last ltx file, wal overwritten by another process"@,
        "full or restart checkpoint detected, snapshotting"@,
    ]
}

/// What every decision keeps: a reason for a snapshot is one of the fixed
/// set; a first sync is a snapshot from the top of the WAL; and where no
/// snapshot is taken, copying goes on at the end of the newest L0 file's WAL
/// segment, which the WAL still holds and whose frame was seen in place, or
/// restarts at the top of the WAL with the live salts.
pub proof fn lemma_verify_decisions(
    page_size: int,
    pos_txid: Txid,
    synced_to_wal_end: bool,
    seen: ReadingsView,
    info: SyncInfoView,
)
    requires
        verify_tree(page_size, pos_txid, synced_to_wal_end, seen) == StepView::Done(
            Ok::<SyncInfoView, ErrorView>(info),
        ),
    ensures
        info.reason matches Some(reason) ==> snapshot_reasons().contains(reason),
        pos_txid.0 == 0 ==> info.snapshotting() && info.offset == WAL_HEADER_SIZE,
        info.clear_synced_to_wal_end ==> !info.snapshotting() && synced_to_wal_end && info.offset
            == WAL_HEADER_SIZE,
        !info.snapshotting() ==> {
            let h = seen.ltx_header.unwrap();
            let live = header_salts(seen.wal_header.unwrap());
            let end = h.wal_offset + h.wal_size;
            &&& pos_txid.0 != 0
            &&& (info.salt1, info.salt2) == live
            &&& {
                ||| info.offset == end && end <= seen.wal_size.unwrap() && live == (
                    h.wal_salt1,
                    h.wal_salt2,
                ) && (seen.last_page == Some(true) || end == WAL_HEADER_SIZE || end
                    == WAL_HEADER_SIZE + WAL_FRAME_HEADER_SIZE + page_size)
                ||| info.offset == WAL_HEADER_SIZE && end > seen.wal_size.unwrap() && synced_to_wal_end
                ||| info.offset == WAL_HEADER_SIZE && seen.last_page == Some(true) && !unknown_salt(
                    seen.frame_salts.unwrap(),
                    seq![live, (h.wal_salt1, h.wal_salt2)],
                )
            }
        },
{
}

/// A WAL frame holds, big endian, its page's number, the database size at a
/// commit, the two salts and two checksums, and then the page. Reading one
/// gives back the page and its number where the salts are the expected ones,
/// and nothing where they are not; of fewer bytes it makes nothing.
pub proof fn lemma_frame_read_back(
    pgno: u32,
    commit: Seq<u8>,
    salts: (u32, u32),
    sums: Seq<u8>,
    page: Seq<u8>,
    rest: Seq<u8>,
    page_size: u32,
    expected: (u32, u32),
)
    requires
        commit.len() == 4,
        sums.len() == 8,
        page.len() == page_size,
    ensures
        ({
            let frame = be_bytes(pgno as nat, 4) + commit + be_bytes(salts.0 as nat, 4) + be_bytes(
                salts.1 as nat,
                4,
            ) + sums + page;
            &&& frame_read(frame + rest, page_size, expected) == Ok::<
                Option<(u32, Seq<u8>)>,
                ErrorView,
            >(
                if salts == expected {
                    Some((pgno, page))
                } else {
                    None
                },
            )
            &&& forall|n: int|
                0 <= n < frame.len() ==> frame_read(#[trigger] frame.take(n), page_size, expected)
                    == Err::<Option<(u32, Seq<u8>)>, ErrorView>(
                    ErrorView::Io(eof_view("cannot read last synced wal page"@)),
                )
        }),
{
    lemma_pow256_values();
    lemma_be_bytes_len(pgno as nat, 4);
    lemma_be_bytes_len(salts.0 as nat, 4);
    lemma_be_bytes_len(salts.1 as nat, 4);
    lemma_be_value_of_bytes(pgno as nat, 4);
    lemma_be_value_of_bytes(salts.0 as nat, 4);
    lemma_be_value_of_bytes(salts.1 as nat, 4);
    let frame = be_bytes(pgno as nat, 4) + commit + be_bytes(salts.0 as nat, 4) + be_bytes(
        salts.1 as nat,
        4,
    ) + sums + page;
    let read = frame + rest;
    assert(read.subrange(0, 4) =~= be_bytes(pgno as nat, 4));
    assert(read.subrange(8, 12) =~= be_bytes(salts.0 as nat, 4));
    assert(read.subrange(12, 16) =~= be_bytes(salts.1 as nat, 4));
    assert(read.subrange(24, 24 + page_size) =~= page);
}

/// The salts of a WAL stand, big endian, behind the first 16 bytes of its
/// header.
pub proof fn lemma_header_salts_read_back(front: Seq<u8>, salts: (u32, u32), rest: Seq<u8>)
    requires
        front.len() == 16,
    ensures
        header_salts(front + be_bytes(salts.0 as nat, 4) + be_bytes(salts.1 as nat, 4) + rest) == salts,
{
    lemma_pow256_values();
    lemma_be_bytes_len(salts.0 as nat, 4);
    lemma_be_bytes_len(salts.1 as nat, 4);
    lemma_be_value_of_bytes(salts.0 as nat, 4);
    lemma_be_value_of_bytes(salts.1 as nat, 4);
    let b = front + be_bytes(salts.0 as nat, 4) + be_bytes(salts.1 as nat, 4) + rest;
    assert(b.subrange(16, 20) =~= be_bytes(salts.0 as nat, 4));
    assert(b.subrange(20, 24) =~= be_bytes(salts.1 as nat, 4));
}

/// Whether a verification decided to go on at `offset` of the WAL with these
/// salts, without a snapshot.
pub open spec fn goes_on(step: StepView, offset: int, salts: (u32, u32), clear: bool) -> bool {
    step matches StepView::Done(Ok(info)) && info.reason is None && info.offset == offset && (
        info.salt1,
        info.salt2,
    ) == salts && info.clear_synced_to_wal_end == clear
}

/// Whether a verification decided on a snapshot for this reason.
pub open spec fn snapshots(step: StepView, offset: int, salts: (u32, u32), reason: Seq<char>) -> bool {
    step matches StepView::Done(Ok(info)) && info.reason == Some(reason) && info.offset == offset && (
        info.salt1,
        info.salt2,
    ) == salts && !info.clear_synced_to_wal_end
}

/// What a verification decides once everything was read, where the newest L0
/// file was made from the WAL up to `end`. A WAL that is shorter was truncated:
/// expected, if it had been consumed to its end, so copying restarts at its
/// top; else a snapshot is due. A WAL of the same salts, whose last synced
/// frame is in place, is copied on from `end`. A frame that is gone asks for a
/// snapshot, and so do other salts, unless every frame has the new salts or
/// the old ones: then copying restarts at the top with the new ones. An `end`
/// inside the first frame is an error.
pub proof fn lemma_verify_outcomes(
    page_size: u32,
    pos_txid: Txid,
    synced_to_wal_end: bool,
    h: Header,
    wal_len: u64,
    header: Seq<u8>,
    in_place: bool,
    salts: Seq<(u32, u32)>,
)
    requires
        pos_txid.0 != 0,
        segment_ok(h),
    ensures
        ({
            let seen = ReadingsView {
                ltx_header: Some(h),
                wal_size: Some(wal_len),
                wal_header: Some(header),
                last_page: Some(in_place),
                frame_salts: Some(salts),
            };
            let step = verify_tree(page_size as int, pos_txid, synced_to_wal_end, seen);
            let end = h.wal_offset + h.wal_size;
            let own = (h.wal_salt1, h.wal_salt2);
            let live = header_salts(header);
            let first = 32 + 24 + page_size;
            let missed = exists|i: int|
                0 <= i < salts.len() && #[trigger] salts[i] != live && salts[i] != own;
            &&& end > wal_len && !synced_to_wal_end ==> snapshots(
                step,
                end,
                own,
                "wal truncated by another process"@,
            )
            &&& end > wal_len && synced_to_wal_end ==> goes_on(step, 32, live, true)
            &&& end <= wal_len && (end == 32 || end == first) && live == own ==> goes_on(
                step,
                end,
                own,
                false,
            )
            &&& end <= wal_len && (end == 32 || end == first) && live != own ==> snapshots(
                step,
                end,
                own,
                "wal header salt reset, snapshotting"@,
            )
            &&& end <= wal_len && end != 32 && end < first ==> step == StepView::Done(
                Err::<SyncInfoView, ErrorView>(
                    ErrorView::Other(
                        "prev WAL offset is less than the header size: "@ + int_text(
                            end - 24 - page_size,
                        ),
                    ),
                ),
            )
            &&& end <= wal_len && end > first && !in_place ==> snapshots(
                step,
                end,
                own,
                "last page does not exist in last ltx file, wal overwritten by another process"@,
            )
            &&& end <= wal_len && end > first && in_place && live == own ==> goes_on(
                step,
                end,
                own,
                false,
            )
            &&& end <= wal_len && end > first && in_place && live != own && missed ==> snapshots(
                step,
                32,
                live,
                "full or restart checkpoint detected, snapshotting"@,
            )
            &&& end <= wal_len && end > first && in_place && live != own && !missed ==> goes_on(
                step,
                32,
                live,
                false,
            )
        }),
{
    let own = (h.wal_salt1, h.wal_salt2);
    let live = header_salts(header);
    let known = seq![live, own];
    assert(known[0] == live && known[1] == own);
    assert forall|i: int| 0 <= i < salts.len() implies (known.contains(#[trigger] salts[i]) <==> salts[i]
        == live || salts[i] == own) by {
        if known.contains(salts[i]) {
            let k = choose|k: int| 0 <= k < known.len() && known[k] == salts[i];
        }
    }
}

/// What a verification reads, and in which order: the header of the newest L0
/// file, the size of the WAL, its header, then the last synced frame, which
/// ends where the L0 file's segment ends, and, where the salts differ, those of
/// the frames up to the first with the L0 file's. Without a local position it
/// reads nothing and asks for a snapshot of the whole WAL.
pub proof fn lemma_verify_reads(page_size: u32, pos_txid: Txid, flag: bool, seen: ReadingsView)
    requires
        seen.ltx_header matches Some(h) ==> segment_ok(h),
    ensures
        ({
            let step = verify_tree(page_size as int, pos_txid, flag, seen);
            &&& pos_txid.0 == 0 ==> snapshots(step, 32, (0, 0), "first sync, no local position"@)
            &&& pos_txid.0 != 0 && seen.ltx_header is None ==> step == StepView::Read(
                Reading::LtxHeader,
            )
            &&& pos_txid.0 != 0 && seen.ltx_header is Some && seen.wal_size is None ==> step
                == StepView::Read(Reading::WalSize)
            &&& pos_txid.0 != 0 && seen.ltx_header is Some && seen.wal_size is Some ==> {
                let h = seen.ltx_header.unwrap();
                let end = h.wal_offset + h.wal_size;
                let whole = end <= seen.wal_size.unwrap();
                let frames = end > 32 + 24 + page_size;
                &&& seen.wal_header is None && (whole || flag) ==> step == StepView::Read(
                    Reading::WalHeader,
                )
                &&& whole && frames && seen.wal_header is Some && seen.last_page is None ==> (
                step matches StepView::Read(Reading::LastPage { offset }) && offset + 24 + page_size
                    == end)
                &&& whole && frames && seen.wal_header is Some && seen.last_page == Some(true)
                    && header_salts(seen.wal_header.unwrap()) != (h.wal_salt1, h.wal_salt2)
                    && seen.frame_salts is None ==> step == StepView::Read(
                    Reading::FrameSalts { until: (h.wal_salt1, h.wal_salt2) },
                )
            }
        }),
{
}

/// A WAL was checkpointed behind the writer's back exactly when some frame has
/// salts that none of the known ones are; and a segment fits when neither its
/// start nor its length is negative and it ends within 63 bits.
pub proof fn lemma_salts_and_segments(
    salts: Seq<(u32, u32)>,
    known: Seq<(u32, u32)>,
    i: int,
    h: Header,
)
    ensures
        0 <= i < salts.len() && (forall|j: int| 0 <= j < known.len() ==> #[trigger] known[j] != salts[i])
            ==> unknown_salt(salts, known),
        (forall|k: int| 0 <= k < salts.len() ==> known.contains(#[trigger] salts[k])) ==> !unknown_salt(
            salts,
            known,
        ),
        segment_ok(h) <==> 0 <= h.wal_offset && 0 <= h.wal_size && h.wal_offset + h.wal_size
            < 0x8000_0000_0000_0000,
{
    if 0 <= i < salts.len() && (forall|j: int| 0 <= j < known.len() ==> #[trigger] known[j] != salts[i]) {
        assert(!known.contains(salts[i]));
    }
}

/// A verification reads no more than it needs. A WAL that was truncated before
/// it was consumed is not opened; where no frame, or only the first, was
/// synced, the header settles it; a frame that is gone, or in place under the
/// same salts, needs no look at the others. What was read beyond that changes
/// nothing.
pub proof fn lemma_verify_reads_no_more(
    page_size: u32,
    pos_txid: Txid,
    flag: bool,
    h: Header,
    wal_len: u64,
    header: Option<Seq<u8>>,
    in_place: Option<bool>,
    salts: Option<Seq<(u32, u32)>>,
)
    requires
        pos_txid.0 != 0,
        segment_ok(h),
    ensures
        ({
            let tree = |b: Option<Seq<u8>>, p: Option<bool>, s: Option<Seq<(u32, u32)>>|
                verify_tree(
                    page_size as int,
                    pos_txid,
                    flag,
                    ReadingsView {
                        ltx_header: Some(h),
                        wal_size: Some(wal_len),
                        wal_header: b,
                        last_page: p,
                        frame_salts: s,
                    },
                );
            let end = h.wal_offset + h.wal_size;
            let read = tree(header, in_place, salts);
            let same = header matches Some(b) && header_salts(b) == (h.wal_salt1, h.wal_salt2);
            &&& end > wal_len && !flag ==> read == tree(None, None, None) && read is Done
            &&& header is Some && (end > wal_len || end <= 32 + 24 + page_size) ==> read == tree(
                header,
                None,
                None,
            ) && read is Done
            &&& header is Some && in_place is Some && (same || in_place == Some(false)) ==> read == tree(
                header,
                in_place,
                None,
            ) && read is Done
            &&& header is Some && in_place is Some && salts is Some ==> read is Done
        }),
{
}

} // verus!
