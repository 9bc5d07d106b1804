use liters::ltx::{
    format_filename, is_contiguous, is_valid_page_size, lock_pgno, parse_filename, Checksum, Header,
    Pos, Txid, CHECKSUM_FLAG, HEADER_FLAG_NO_CHECKSUM,
};

#[test]
fn filename_roundtrip() {
    let name = format_filename(Txid(0xd), Txid(0x1_0000));
    assert_eq!(name, "000000000000000d-0000000000010000.ltx");
    assert_eq!(parse_filename(&name), Some((Txid(0xd), Txid(0x1_0000))));
    assert_eq!(parse_filename("000000000000000d-000000000001000.ltx"), None);
    assert_eq!(parse_filename("000000000000000D-0000000000010000.ltx"), None); // uppercase rejected
    assert_eq!(parse_filename("junk"), None);
}

#[test]
fn lock_pgno_values() {
    assert_eq!(lock_pgno(512), 2097153);
    assert_eq!(lock_pgno(4096), 262145);
    assert_eq!(lock_pgno(65536), 16385);
}

#[test]
fn page_size_validation() {
    for sz in [512u32, 1024, 4096, 65536] {
        assert!(is_valid_page_size(sz), "{sz}");
    }
    for sz in [0u32, 256, 513, 4097, 131072] {
        assert!(!is_valid_page_size(sz), "{sz}");
    }
}

#[test]
fn contiguity() {
    // min <= prev+1 && max > prev
    assert!(is_contiguous(Txid(5), Txid(6), Txid(9)));
    assert!(is_contiguous(Txid(5), Txid(3), Txid(9))); // overlap that extends
    assert!(!is_contiguous(Txid(5), Txid(7), Txid(9))); // gap
    assert!(!is_contiguous(Txid(5), Txid(3), Txid(5))); // fully covered

    // Extreme values must wrap, not panic in debug builds.
    assert!(!is_contiguous(Txid(u64::MAX), Txid(1), Txid(2)));
    assert_eq!(
        Header { min_txid: Txid(0), ..Default::default() }.pre_apply_pos().txid,
        Txid(u64::MAX)
    );
}

#[test]
fn hex_parse_rejects_sign_prefix() {
    assert_eq!(Txid::parse("+00000000000000f"), None);
    assert_eq!(Checksum::parse("+00000000000000f"), None);
    assert!(Pos::parse("0000000000000001/+00000000000000f").is_none());
    // Uppercase hex is accepted in string parsing.
    assert_eq!(Txid::parse("000000000000000F"), Some(Txid(0xf)));
}

#[test]
fn header_roundtrip() {
    let h = Header {
        flags: HEADER_FLAG_NO_CHECKSUM,
        page_size: 4096,
        commit: 7,
        min_txid: Txid(2),
        max_txid: Txid(2),
        timestamp: 1_720_000_000_123,
        pre_apply_checksum: Checksum(0),
        wal_offset: 32,
        wal_size: 4120,
        wal_salt1: 0xdead,
        wal_salt2: 0xbeef,
        node_id: 0,
    };
    h.validate().unwrap();
    let b = h.encode();
    assert_eq!(Header::decode(&b).unwrap(), h);
    assert_eq!(&b[80..], &[0u8; 20]);
}

#[test]
fn header_validation_rules() {
    let base = Header {
        flags: 0,
        page_size: 4096,
        commit: 1,
        min_txid: Txid(1),
        max_txid: Txid(1),
        ..Default::default()
    };
    base.validate().unwrap();

    // Unknown flag bit rejected.
    assert!(Header { flags: 1, ..base }.validate().is_err());
    // Snapshot with pre-apply checksum rejected.
    assert!(Header { pre_apply_checksum: Checksum(CHECKSUM_FLAG | 1), ..base }.validate().is_err());
    // Non-snapshot without checksum (and no flag) rejected.
    assert!(Header { min_txid: Txid(2), max_txid: Txid(2), ..base }.validate().is_err());
    // Non-snapshot + NoChecksum flag + zero checksum accepted.
    Header {
        flags: HEADER_FLAG_NO_CHECKSUM,
        min_txid: Txid(2),
        max_txid: Txid(2),
        ..base
    }
    .validate()
    .unwrap();
    // Salt without WAL offset rejected.
    assert!(Header { wal_salt1: 1, ..base }.validate().is_err());
    // WAL size without offset rejected.
    assert!(Header { wal_size: 10, ..base }.validate().is_err());
    // TXIDs out of order rejected.
    assert!(Header { min_txid: Txid(3), max_txid: Txid(2), ..base }.validate().is_err());
}

#[test]
fn pos_roundtrip() {
    let p = Pos::new(Txid(42), Checksum(CHECKSUM_FLAG | 7));
    let s = p.to_string();
    assert_eq!(s.len(), 33);
    assert_eq!(Pos::parse(&s), Some(p));
}
