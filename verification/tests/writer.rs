use std::collections::HashMap;

use liters::error::Error;
use liters::io::{IoError, IoErrorKind};
use liters::ltx::{Checksum, Header, Pos, Txid, HEADER_FLAG_NO_CHECKSUM};
use liters::verify::{
    detect_full_checkpoint, last_frame, local_ltx_error, read_wal_header, segment_fits, verify,
    wal_file_size, LastFrame, Reading, Readings, SyncInfo, SyncState, VerifyStep,
};
use liters::wal::calc_wal_size;
use liters::writer::{
    missing_database, read_full_at, write_ltx_from_db, write_ltx_from_wal, CheckpointMode, OpenAction,
    OpenReadings, OpenStep, PageSource, ReaderStart, SnapshotPages, SyncPlan, WalScan, Writer,
    WriterOptions,
};

const PAGE: u32 = 4096;
const FRAME: u64 = 24 + 4096;

fn readings() -> OpenReadings {
    OpenReadings {
        exists: true,
        page_size: Some(PAGE),
        last_synced_wal_offset: 0,
        verified_pos: Some(Some(Txid(5))),
        max_l0: None,
        pinned: false,
    }
}

fn open(r: OpenReadings) -> OpenStep {
    Writer::open("/d/app.db", WriterOptions::default(), &r)
}

fn opened(r: OpenReadings) -> Writer {
    match open(r) {
        OpenStep::Done(Ok(w)) => w,
        other => panic!("{other:?}"),
    }
}

fn pos(txid: u64) -> Pos {
    Pos::new(Txid(txid), Checksum(0))
}

#[test]
fn default_writer_options() {
    let o = WriterOptions::default();
    assert_eq!(o.busy_timeout.as_secs(), 1);
    assert_eq!((o.min_checkpoint_page_n, o.truncate_page_n), (1000, 121_359));
    assert!(o.auto_checkpoint);
    assert_eq!(CheckpointMode::Passive.as_sql(), "PASSIVE");
    assert_eq!(CheckpointMode::Truncate.as_sql(), "TRUNCATE");
    assert_eq!(calc_wal_size(4096, 1000), 32 + 1000 * 4120);
}

#[test]
fn open_asks_for_what_it_needs() {
    let base = OpenReadings { page_size: None, verified_pos: None, ..readings() };
    match open(OpenReadings { exists: false, ..base }) {
        OpenStep::Done(Err(e)) => {
            assert_eq!(e.to_string(), "database file does not exist: \"/d/app.db\"")
        }
        other => panic!("{other:?}"),
    }
    assert_eq!(missing_database("P").to_string(), "database file does not exist: P");
    assert!(matches!(open(base), OpenStep::Next(OpenAction::OpenDatabase)));
    match open(OpenReadings { page_size: Some(0), ..base }) {
        OpenStep::Done(Err(e)) => assert_eq!(e.to_string(), "invalid db page size"),
        other => panic!("{other:?}"),
    }
    let sized = OpenReadings { page_size: Some(PAGE), ..base };
    assert!(matches!(open(sized), OpenStep::Next(OpenAction::ReadVerifiedPos)));
    let none = OpenReadings { verified_pos: Some(None), ..sized };
    assert!(matches!(open(none), OpenStep::Next(OpenAction::ReadMaxL0)));
    // Neither a verified position nor an L0 file: pinned at zero first.
    let fresh = OpenReadings { max_l0: Some(None), ..none };
    assert!(matches!(open(fresh), OpenStep::Next(OpenAction::PinAtZero)));
    let w = opened(OpenReadings { pinned: true, ..fresh });
    assert_eq!((w.verified_pos, w.verified_pos_provisional), (Txid(0), false));
}

#[test]
fn opened_writers_know_their_baseline() {
    let w = opened(OpenReadings { last_synced_wal_offset: 4152, ..readings() });
    assert_eq!((w.page_size(), w.db_path()), (PAGE, "/d/app.db"));
    assert_eq!((w.verified_pos, w.verified_pos_provisional), (Txid(5), false));
    assert_eq!(w.state.last_synced_wal_offset, 4152);
    assert!(!w.state.synced_to_wal_end && !w.state.synced_since_checkpoint);
    assert!(!w.lineage_checked && w.remote_txid.is_none() && w.cached_pos.is_none());
    // The newest local L0 stands in for a position that was never persisted.
    let w = opened(OpenReadings {
        verified_pos: Some(None),
        max_l0: Some(Some(Txid(8))),
        ..readings()
    });
    assert_eq!((w.verified_pos, w.verified_pos_provisional), (Txid(8), true));
}

#[test]
fn the_position_is_remembered() {
    let mut w = opened(readings());
    assert_eq!(w.pos(None), None);
    assert_eq!(w.pos(Some(pos(3))), Some(pos(3)));
    assert_eq!(w.pos(Some(pos(9))), Some(pos(3)));
    w.invalidate_pos();
    assert_eq!(w.pos(Some(pos(9))), Some(pos(9)));
    assert!(w.ensure_wal_exists(Some(32)));
    assert!(!w.ensure_wal_exists(Some(31)));
    assert!(!w.ensure_wal_exists(None));
}

fn info(offset: u64, reason: Option<&'static str>) -> SyncInfo {
    SyncInfo {
        offset,
        salt1: 1,
        salt2: 2,
        snapshotting: reason.is_some(),
        reason,
        clear_synced_to_wal_end: false,
    }
}

fn scan(commit: u32, max_offset: u64) -> WalScan {
    WalScan { commit, max_offset, salt1: 7, salt2: 8 }
}

#[test]
fn reading_starts_at_the_resume_point() {
    assert_eq!(Writer::reader_start(&info(32, None)), ReaderStart::Top);
    assert_eq!(
        Writer::reader_start(&info(4152, None)),
        ReaderStart::At { offset: 4152, salt1: 1, salt2: 2 }
    );
    let back = Writer::prev_frame_mismatch(info(4152, Some("r")));
    assert_eq!((back.offset, back.salt1, back.reason), (32, 1, Some("r")));
}

#[test]
fn nothing_new_is_a_no_op() {
    let mut w = opened(readings());
    w.state.synced_to_wal_end = true;
    match w.sync(pos(4), &info(4152, None), 8192, &scan(0, 4152), 1) {
        Ok(SyncPlan::Nothing(o)) => {
            assert!(!o.synced && o.synced_to_wal_end && !o.snapshotted);
            // The true consumed end, not the persisted one.
            assert_eq!((o.new_wal_size, o.pos, o.snapshot_reason), (4152, None, None));
        }
        other => panic!("{other:?}"),
    }
    let cleared = SyncInfo { clear_synced_to_wal_end: true, ..info(32, None) };
    match w.sync(pos(4), &cleared, 8192, &scan(0, 0), 1) {
        Ok(SyncPlan::Nothing(o)) => assert!(!o.synced_to_wal_end),
        other => panic!("{other:?}"),
    }
}

#[test]
fn new_pages_make_an_l0_file() {
    let w = opened(readings());
    let resume = info(4152, None);
    let plan = match w.sync(pos(4), &resume, 8192, &scan(3, 4152 + FRAME), 99) {
        Ok(SyncPlan::Write(p)) => p,
        other => panic!("{other:?}"),
    };
    assert_eq!(
        plan.header,
        Header {
            flags: HEADER_FLAG_NO_CHECKSUM,
            page_size: PAGE,
            commit: 3,
            min_txid: Txid(5),
            max_txid: Txid(5),
            timestamp: 99,
            pre_apply_checksum: Checksum(0),
            wal_offset: 4152,
            wal_size: FRAME as i64,
            wal_salt1: 7,
            wal_salt2: 8,
            node_id: 0,
        }
    );
    assert!(!plan.snapshot);
    assert_eq!(plan.final_offset, 4152 + FRAME);
    plan.header.validate().unwrap();
    let o = Writer::synced(&plan, &resume, plan.final_offset);
    assert!(o.synced && o.synced_to_wal_end);
    assert_eq!((o.pos, o.new_wal_size), (Some(pos(5)), 4152 + FRAME));
    assert!(!Writer::synced(&plan, &resume, plan.final_offset + 1).synced_to_wal_end);
    let mut w = w;
    assert_eq!(w.apply_sync_outcome(&o), 4152 + FRAME);
    assert_eq!(w.state.last_synced_wal_offset, 4152 + FRAME);
    assert!(w.state.synced_to_wal_end);
    assert_eq!(w.pos(None), Some(pos(5)));
}

#[test]
fn a_snapshot_is_written_without_new_pages() {
    let w = opened(readings());
    match w.sync(pos(0), &info(32, Some("why")), 3 * 4096, &scan(0, 0), 5) {
        Ok(SyncPlan::Write(p)) => {
            // The database's size comes from its file where the WAL has none.
            assert_eq!((p.snapshot, p.header.commit, p.header.wal_size), (true, 3, 0));
            assert_eq!(p.header.min_txid, Txid(1));
        }
        other => panic!("{other:?}"),
    }
    match w.sync(pos(0), &info(100, None), 0, &scan(1, 40), 5) {
        Err(e) => {
            assert_eq!(e.to_string(), "wal size must be positive: maxOffset=40, offset=100")
        }
        other => panic!("{other:?}"),
    }
}

#[test]
fn snapshot_pages_come_from_the_wal_first() {
    let map = HashMap::from([(2u32, 32u64), (300, 4152)]);
    let page = |pgno: u32| {
        let mut run = SnapshotPages { page_size: PAGE, commit: 300_000, done: pgno - 1 };
        let p = write_ltx_from_db(&mut run, &map).unwrap();
        assert_eq!((p.pgno, run.done), (pgno, pgno));
        p
    };
    let p = page(2);
    assert_eq!((p.source, p.check_cancel), (Some(PageSource::Wal { offset: 56 }), false));
    let p = page(256);
    assert_eq!(p.source, Some(PageSource::Database { offset: 255 * 4096 }));
    assert!(p.check_cancel);
    // The lock page is never stored.
    assert_eq!(page(262_145).source, None);
    assert!(page(262_146).source.is_some());
}

#[test]
fn a_snapshot_visits_every_page_once() {
    let map = HashMap::from([(2u32, 32u64)]);
    let mut run = SnapshotPages::new(PAGE, 3);
    let mut pgnos = Vec::new();
    while let Some(p) = write_ltx_from_db(&mut run, &map) {
        pgnos.push(p.pgno);
    }
    assert_eq!(pgnos, [1, 2, 3]);
    assert_eq!(write_ltx_from_db(&mut run, &map), None);
    assert_eq!(write_ltx_from_db(&mut SnapshotPages::new(PAGE, 0), &map), None);
}

#[test]
fn incremental_pages_are_sorted() {
    let map: HashMap<u32, u64> = (1..=600u32).map(|p| (p * 7919 % 601, p as u64 * 10)).collect();
    assert_eq!(map.len(), 600);
    let pages = write_ltx_from_wal(&map);
    assert_eq!(pages.len(), 600);
    for (i, p) in pages.iter().enumerate() {
        assert_eq!(p.pgno, i as u32 + 1);
        assert_eq!(p.offset, map[&p.pgno] + 24);
        assert_eq!(p.check_cancel, i % 256 == 0);
    }
    assert!(write_ltx_from_wal(&HashMap::new()).is_empty());
}

#[test]
fn short_reads_are_reported() {
    read_full_at(4096, 4096, 7).unwrap();
    match read_full_at(4095, 4096, 7) {
        Err(Error::Io(e)) => {
            assert_eq!(e.kind, IoErrorKind::UnexpectedEof);
            assert_eq!(e.message, "short read at offset 7");
        }
        other => panic!("{other:?}"),
    }
    let hdr: Vec<u8> = (0..40).collect();
    assert_eq!(read_wal_header(&hdr).unwrap()[..], hdr[..32]);
    assert_eq!(read_wal_header(&hdr[..31]).unwrap_err().to_string(), "short wal header");
}

#[test]
fn a_missing_wal_is_empty() {
    let err = |kind| IoError::new(kind, "x".into());
    assert_eq!(wal_file_size(Ok(9)).unwrap(), 9);
    assert_eq!(wal_file_size(Err(err(IoErrorKind::NotFound))).unwrap(), 0);
    assert!(matches!(wal_file_size(Err(err(IoErrorKind::Other))), Err(Error::Io(_))));
    assert_eq!(
        local_ltx_error(Txid(2), "decode", "/m/\"x\"", "boom").to_string(),
        "local ltx file missing or corrupt: txid 0000000000000002: decode \"/m/\\\"x\\\"\": boom"
    );
}

fn l0(wal_offset: i64, wal_size: i64) -> Header {
    Header {
        flags: HEADER_FLAG_NO_CHECKSUM,
        page_size: PAGE,
        commit: 1,
        min_txid: Txid(3),
        max_txid: Txid(3),
        wal_offset,
        wal_size,
        wal_salt1: 7,
        wal_salt2: 8,
        ..Header::default()
    }
}

fn wal_header(salt1: u32, salt2: u32) -> [u8; 32] {
    let mut b = [0u8; 32];
    b[16..20].copy_from_slice(&salt1.to_be_bytes());
    b[20..24].copy_from_slice(&salt2.to_be_bytes());
    b
}

/// Answers what is asked for, and tells what was.
fn decide(
    txid: u64,
    to_end: bool,
    header: Header,
    wal_size: u64,
    live: (u32, u32),
    last_page: bool,
    salts: &[(u32, u32)],
) -> (Result<SyncInfo, Error>, Vec<Reading>) {
    let state = SyncState { synced_to_wal_end: to_end, ..SyncState::default() };
    let mut seen = Readings::new();
    let mut asked = Vec::new();
    loop {
        match verify(PAGE, Txid(txid), &state, &seen) {
            VerifyStep::Done(r) => return (r, asked),
            VerifyStep::Read(r) => {
                assert!(!asked.contains(&r));
                asked.push(r);
                match r {
                    Reading::LtxHeader => seen.ltx_header = Some(header),
                    Reading::WalSize => seen.wal_size = Some(wal_size),
                    Reading::WalHeader => seen.wal_header = Some(wal_header(live.0, live.1)),
                    Reading::LastPage { .. } => seen.last_page = Some(last_page),
                    Reading::FrameSalts { .. } => seen.frame_salts = Some(salts.to_vec()),
                }
            }
        }
    }
}

#[test]
fn a_first_sync_snapshots() {
    let (r, asked) = decide(0, false, l0(0, 0), 0, (0, 0), false, &[]);
    let i = r.unwrap();
    assert!(asked.is_empty());
    assert_eq!((i.offset, i.snapshotting, i.reason), (32, true, Some("first sync, no local position")));
}

#[test]
fn a_truncated_wal_is_expected_only_after_its_end() {
    let (r, asked) = decide(3, false, l0(32, 2 * FRAME as i64), 32, (7, 8), true, &[]);
    let i = r.unwrap();
    assert_eq!(asked, [Reading::LtxHeader, Reading::WalSize]);
    assert_eq!((i.offset, i.reason), (32 + 2 * FRAME, Some("wal truncated by another process")));
    let i = decide(3, true, l0(32, 2 * FRAME as i64), 32, (70, 80), true, &[]).0.unwrap();
    assert_eq!((i.offset, i.salt1, i.salt2, i.snapshotting), (32, 70, 80, false));
    assert!(i.clear_synced_to_wal_end);
}

#[test]
fn resume_points_at_the_start_of_the_wal() {
    for size in [0, FRAME as i64] {
        let end = 32 + size as u64;
        let i = decide(3, false, l0(32, size), end, (7, 8), false, &[]).0.unwrap();
        assert_eq!((i.offset, i.snapshotting), (end, false));
        let i = decide(3, false, l0(32, size), end, (7, 9), false, &[]).0.unwrap();
        assert_eq!(i.reason, Some("wal header salt reset, snapshotting"));
    }
    let e = decide(3, false, l0(32, 536), 10_000, (7, 8), false, &[]).0.unwrap_err();
    assert_eq!(e.to_string(), "prev WAL offset is less than the header size: -3552");
}

#[test]
fn the_last_frame_decides() {
    let h = l0(32, 3 * FRAME as i64);
    let end = 32 + 3 * FRAME;
    let (r, asked) = decide(3, false, h, end, (7, 8), true, &[]);
    let i = r.unwrap();
    assert_eq!((i.offset, i.salt1, i.salt2, i.snapshotting), (end, 7, 8, false));
    assert_eq!(asked[3], Reading::LastPage { offset: 32 + 2 * FRAME });
    let i = decide(3, false, h, end, (7, 8), false, &[]).0.unwrap();
    assert_eq!(
        i.reason,
        Some("last page does not exist in last ltx file, wal overwritten by another process")
    );
    // The WAL restarted: from its top, unless a generation was missed.
    let (r, asked) = decide(3, false, h, end, (1, 2), true, &[(1, 2), (7, 8)]);
    let i = r.unwrap();
    assert_eq!((i.offset, i.salt1, i.salt2, i.snapshotting), (32, 1, 2, false));
    assert_eq!(asked[4], Reading::FrameSalts { until: (7, 8) });
    let i = decide(3, false, h, end, (1, 2), true, &[(1, 2), (5, 5), (7, 8)]).0.unwrap();
    assert_eq!(i.reason, Some("full or restart checkpoint detected, snapshotting"));
    assert_eq!((i.offset, i.salt1, i.salt2), (32, 1, 2));
}

#[test]
fn unknown_salts_are_detected() {
    assert!(!detect_full_checkpoint(&[], &[(1, 1)]));
    assert!(!detect_full_checkpoint(&[(1, 1), (2, 2), (1, 1)], &[(2, 2), (1, 1)]));
    assert!(detect_full_checkpoint(&[(1, 1), (1, 2)], &[(2, 1), (1, 1)]));
}

#[test]
fn paths_are_quoted_as_paths() {
    for path in ["/d/app.db", "/d/it's.db", "/d/\"q\"\n.db"] {
        let gone = OpenReadings { exists: false, ..readings() };
        match Writer::open(path, WriterOptions::default(), &gone) {
            OpenStep::Done(Err(e)) => assert_eq!(
                e.to_string(),
                format!("database file does not exist: {:?}", std::path::Path::new(path))
            ),
            other => panic!("{other:?}"),
        }
    }
}

#[test]
fn segments_of_a_local_file_are_checked() {
    assert!(segment_fits(&l0(32, 4120)));
    assert!(segment_fits(&Header { wal_offset: 1, wal_size: i64::MAX - 1, ..l0(0, 0) }));
    assert!(!segment_fits(&Header { wal_offset: 1, wal_size: i64::MAX, ..l0(0, 0) }));
    assert!(!segment_fits(&Header { wal_offset: -1, ..l0(0, 0) }));
    assert!(!segment_fits(&Header { wal_size: -1, ..l0(0, 0) }));
}

#[test]
fn the_last_frame_is_looked_up_byte_for_byte() {
    let mut frame = vec![9u8; 24 + 512];
    frame[0..4].copy_from_slice(&5u32.to_be_bytes());
    frame[8..12].copy_from_slice(&7u32.to_be_bytes());
    frame[12..16].copy_from_slice(&8u32.to_be_bytes());
    let h = l0(0, 0);
    let f: LastFrame = last_frame(&frame, 512, &h).unwrap().unwrap();
    assert_eq!((f.pgno, f.data.len()), (5, 512));
    let mut page = vec![9u8; 512];
    assert_eq!(f.last_page_match(Some(5), &page), Some(true));
    // The search goes on with the next page, and comes to nothing at the end.
    assert_eq!(f.last_page_match(Some(6), &page), None);
    assert_eq!(f.last_page_match(Some(5), &page[..511]), None);
    page[511] = 0;
    assert_eq!(f.last_page_match(Some(5), &page), None);
    assert_eq!(f.last_page_match(None, &page), Some(false));
    frame[15] = 9;
    assert!(last_frame(&frame, 512, &h).unwrap().is_none());
    assert_eq!(
        last_frame(&frame[..535], 512, &h).unwrap_err().to_string(),
        "cannot read last synced wal page"
    );
}

#[test]
fn the_next_push_resumes_at_the_end_of_the_last() {
    let w = opened(readings());
    let plan = match w.sync(pos(2), &info(32, None), 8192, &scan(3, 32 + 3 * FRAME), 99) {
        Ok(SyncPlan::Write(p)) => p,
        other => panic!("{other:?}"),
    };
    let size = plan.final_offset + FRAME;
    let i = decide(3, false, plan.header, size, (7, 8), true, &[]).0.unwrap();
    assert_eq!((i.offset, i.snapshotting), (plan.final_offset, false));
}
