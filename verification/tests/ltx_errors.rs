use liters::io::IoErrorKind;
use liters::ltx::lz4f::{
    block_outcome, check_length, check_sum, compress_frame, decompress_frame, push_block,
    second_byte, Cursor,
};
use liters::ltx::{
    self, is_valid_header_flags, Checksum, FileInfo, Header, PageHeader, Pos, Trailer, Txid,
    CHECKSUM_FLAG, HEADER_FLAG_NO_CHECKSUM, HEADER_SIZE, MAGIC, PAGE_HEADER_SIZE, TRAILER_SIZE,
};
use liters::storage::{StorageError, SNAPSHOT_LEVEL};
use twox_hash::XxHash32;

fn base() -> Header {
    Header {
        page_size: 4096,
        commit: 1,
        min_txid: Txid(2),
        max_txid: Txid(3),
        pre_apply_checksum: Checksum(CHECKSUM_FLAG | 5),
        ..Header::default()
    }
}

#[test]
fn broken_headers_name_their_fault() {
    base().validate().unwrap();
    let fault = |h: Header| h.validate().unwrap_err().to_string();
    let flagged = Checksum(CHECKSUM_FLAG | 1);
    for (h, text) in [
        (Header { flags: 0xb, ..base() }, "invalid flags: 0x0000000b"),
        (Header { page_size: 513, ..base() }, "invalid page size: 513"),
        (Header { min_txid: Txid(0), ..base() }, "minimum transaction id required"),
        (Header { max_txid: Txid(0), ..base() }, "maximum transaction id required"),
        (Header { max_txid: Txid(1), ..base() }, "transaction ids out of order: (2,1)"),
        (Header { wal_offset: -7, ..base() }, "wal offset cannot be negative: -7"),
        (Header { wal_size: i64::MIN, ..base() }, "wal size cannot be negative: -9223372036854775808"),
        (Header { wal_salt2: 1, ..base() }, "wal offset required if salt exists"),
        (Header { wal_size: 1, ..base() }, "wal offset required if wal size exists"),
        (Header { min_txid: Txid(1), ..base() }, "pre-apply checksum must be zero on snapshots"),
        (
            Header { flags: HEADER_FLAG_NO_CHECKSUM, pre_apply_checksum: flagged, ..base() },
            "pre-apply checksum not allowed",
        ),
        (
            Header { pre_apply_checksum: Checksum(0), ..base() },
            "pre-apply checksum required on non-snapshot files",
        ),
        (Header { pre_apply_checksum: Checksum(5), ..base() }, "invalid pre-apply checksum format"),
    ] {
        assert_eq!(fault(h), text);
    }
    assert!(is_valid_header_flags(0) && is_valid_header_flags(2));
    assert!(!is_valid_header_flags(1) && !is_valid_header_flags(3));
}

#[test]
fn headers_have_a_fixed_form() {
    let h = Header {
        timestamp: -2,
        wal_offset: 32,
        wal_size: 4120,
        wal_salt1: 0x0102_0304,
        wal_salt2: 5,
        node_id: 9,
        ..base()
    };
    let b = h.encode();
    assert_eq!(&b[..4], MAGIC);
    assert_eq!(&b[8..12], &4096u32.to_be_bytes());
    assert_eq!(&b[32..40], &(-2i64).to_be_bytes());
    assert_eq!(&b[64..68], &[1, 2, 3, 4]);
    assert_eq!(Header::decode(&b).unwrap(), h);
    // Reserved bytes are not looked at, the magic is.
    let mut odd = b;
    odd[99] = 1;
    assert_eq!(Header::decode(&odd).unwrap(), h);
    odd[0] = 0;
    assert!(matches!(Header::decode(&odd), Err(ltx::Error::InvalidFile)));
    match Header::decode(&b[..HEADER_SIZE - 1]) {
        Err(ltx::Error::Io(e)) => {
            assert_eq!((e.kind, e.message.as_str()), (IoErrorKind::UnexpectedEof, "short header buffer"))
        }
        other => panic!("{other:?}"),
    }
    assert!(!h.is_snapshot() && !h.no_checksum());
    assert_eq!(h.lock_pgno(), 262_145);
    assert_eq!(h.pre_apply_pos(), Pos::new(Txid(1), h.pre_apply_checksum));
}

#[test]
fn trailers_are_checked_under_their_header() {
    let post = Checksum(CHECKSUM_FLAG | 3);
    let t = Trailer { post_apply_checksum: post, file_checksum: Checksum(CHECKSUM_FLAG | 4) };
    let plain = base();
    let untracked = Header { flags: HEADER_FLAG_NO_CHECKSUM, ..base() };
    t.validate(&plain).unwrap();
    Trailer { post_apply_checksum: Checksum(0), ..t }.validate(&untracked).unwrap();
    let fault = |t: Trailer, h: &Header| t.validate(h).unwrap_err().to_string();
    assert_eq!(fault(t, &untracked), "post-apply checksum not allowed");
    let zero = Checksum(0);
    let bare = Checksum(7);
    assert_eq!(fault(Trailer { post_apply_checksum: zero, ..t }, &plain), "post-apply checksum required");
    assert_eq!(
        fault(Trailer { post_apply_checksum: bare, ..t }, &plain),
        "invalid post-apply checksum format"
    );
    assert_eq!(fault(Trailer { file_checksum: zero, ..t }, &plain), "file checksum required");
    assert_eq!(fault(Trailer { file_checksum: bare, ..t }, &plain), "invalid file checksum format");
    let b = t.encode();
    assert_eq!(b[..8], post.0.to_be_bytes());
    assert_eq!(Trailer::decode(&b).unwrap(), t);
    assert_eq!(
        Trailer::decode(&b[..TRAILER_SIZE - 1]).unwrap_err().to_string(),
        "short trailer buffer"
    );
}

#[test]
fn page_headers_are_checked() {
    let p = PageHeader { pgno: 0x0102_0304, flags: 0 };
    p.validate().unwrap();
    assert_eq!(p.encode(), [1, 2, 3, 4, 0, 0]);
    assert_eq!(PageHeader::decode(&p.encode()).unwrap(), p);
    assert!(PageHeader::default().is_zero() && !p.is_zero());
    let fault = |p: PageHeader| p.validate().unwrap_err().to_string();
    assert_eq!(fault(PageHeader { pgno: 0, flags: 0 }), "page number required");
    assert_eq!(fault(PageHeader { pgno: 1, flags: 1 }), "no flags allowed, reserved for future use");
    assert_eq!(
        PageHeader::decode(&[0; PAGE_HEADER_SIZE - 1]).unwrap_err().to_string(),
        "short page header buffer"
    );
}

#[test]
fn file_infos_know_their_positions() {
    let f = FileInfo {
        min_txid: Txid(4),
        max_txid: Txid(7),
        pre_apply_checksum: Checksum(1),
        post_apply_checksum: Checksum(2),
        ..FileInfo::default()
    };
    assert_eq!(f.pre_apply_pos(), Pos::new(Txid(3), Checksum(1)));
    assert_eq!(f.pos(), Pos::new(Txid(7), Checksum(2)));
    assert_eq!(f.filename(), "0000000000000004-0000000000000007.ltx");
    assert!(Pos::default().is_zero() && !f.pos().is_zero());
    assert!(Checksum(0).is_zero() && !Checksum(1).is_zero());
    assert!(Checksum(CHECKSUM_FLAG).is_flagged() && !Checksum(CHECKSUM_FLAG - 1).is_flagged());
    assert_eq!(SNAPSHOT_LEVEL, 9);
}

/// A frame with this descriptor, these blocks, and this tail.
fn frame(desc: &[u8], blocks: &[&[u8]], tail: &[u8]) -> Vec<u8> {
    let mut f = 0x184D_2204u32.to_le_bytes().to_vec();
    f.extend_from_slice(desc);
    f.push((XxHash32::oneshot(0, desc) >> 8) as u8);
    for b in blocks {
        f.extend_from_slice(b);
    }
    f.extend_from_slice(&[0; 4]);
    f.extend_from_slice(tail);
    f
}

fn stored(data: &[u8]) -> Vec<u8> {
    let mut b = (data.len() as u32 | 0x8000_0000).to_le_bytes().to_vec();
    b.extend_from_slice(data);
    b
}

fn decode(f: &[u8], len: usize) -> Result<(Vec<u8>, u64), String> {
    let mut out = vec![0u8; len];
    let mut cur = Cursor::new(f);
    decompress_frame(&mut cur, &mut out).map_err(|e| e.to_string())?;
    Ok((out, cur.position()))
}

#[test]
fn frames_of_other_encoders_decode() {
    let data = b"some page data";
    let sum = XxHash32::oneshot(0, data).to_le_bytes();
    // Content size and dictionary id are skipped, block checksums checked.
    let mut desc = vec![0x64 | 0x08 | 0x01 | 0x10, 0x70];
    desc.extend_from_slice(&[9; 12]);
    let mut block = stored(data);
    block.extend_from_slice(&sum);
    let f = frame(&desc, &[&block], &sum);
    assert_eq!(decode(&f, data.len()).unwrap(), (data.to_vec(), f.len() as u64));
    // No content checksum.
    let f = frame(&[0x60, 0x50], &[&stored(&data[..5]), &stored(&data[5..])], &[]);
    assert_eq!(decode(&f, data.len()).unwrap().0, data);
    // An LZ4 block as the format's documentation spells it: four literals, a
    // match of eight one byte back, five literals.
    let lz4 = [&[0x44, b'a', b'b', b'c', b'd', 1, 0][..], &[0x50], b"efghi"].concat();
    let mut block = (lz4.len() as u32).to_le_bytes().to_vec();
    block.extend_from_slice(&lz4);
    let f = frame(&[0x60, 0x40], &[&block], &[]);
    assert_eq!(decode(&f, 17).unwrap().0, b"abcdddddddddefghi");
}

#[test]
fn broken_frames_name_their_fault() {
    let data = [5u8; 64];
    let sum = XxHash32::oneshot(0, &data).to_le_bytes();
    let good = frame(&[0x64, 0x40], &[&stored(&data)], &sum);
    assert_eq!(decode(&good, 64).unwrap().0, data);
    let broken = |at: usize| {
        let mut f = good.clone();
        f[at] ^= 0x20;
        decode(&f, 64).unwrap_err()
    };
    assert_eq!(broken(0), "lz4: bad frame magic");
    assert_eq!(broken(6), "lz4: frame descriptor checksum mismatch");
    assert_eq!(broken(good.len() - 1), "lz4: content checksum mismatch");
    assert_eq!(
        decode(&frame(&[0xA4, 0x40], &[], &[]), 0).unwrap_err(),
        "lz4: unsupported frame version: FLG=0xa4"
    );
    assert_eq!(decode(&frame(&[0x64, 0x30], &[], &[]), 0).unwrap_err(), "lz4: invalid BD byte: 0x30");
    assert_eq!(
        decode(&frame(&[0x64, 0x40], &[&stored(&[0; 65537])], &[]), 64).unwrap_err(),
        "lz4: block size 65537 exceeds frame max 65536"
    );
    let mut block = stored(&data);
    block.extend_from_slice(&[0; 4]);
    assert_eq!(
        decode(&frame(&[0x74, 0x40], &[&block], &sum), 64).unwrap_err(),
        "lz4: block checksum mismatch"
    );
    assert_eq!(decode(&good, 63).unwrap_err(), "lz4: frame content longer than expected page size");
    assert_eq!(
        decode(&good, 65).unwrap_err(),
        "lz4: frame content length mismatch: got 64, expected 65"
    );
    let bad_block = [&2u32.to_le_bytes()[..], &[0x0F, 1]].concat();
    let e = decode(&frame(&[0x64, 0x40], &[&bad_block], &sum), 64).unwrap_err();
    assert!(e.starts_with("lz4: block decompress: ") && e.len() > 23, "{e}");
    for n in [0, 5, 6, 9, 20, good.len() - 1] {
        assert_eq!(decode(&good[..n], 64).unwrap_err(), "failed to fill whole buffer", "{n}");
    }
}

#[test]
fn frames_are_appended() {
    let mut out = b"front".to_vec();
    compress_frame(&[], &mut out);
    // Only the head, the end mark and the checksum of nothing.
    let none = frame(&[0x64, 0x40], &[], &XxHash32::oneshot(0, &[]).to_le_bytes());
    assert_eq!(out, [b"front", &none[..]].concat());
    // Two blocks.
    let data: Vec<u8> = (0..100_000u32).map(|i| (i / 3) as u8).collect();
    let mut out = Vec::new();
    compress_frame(&data, &mut out);
    assert!(out.len() < data.len());
    assert_eq!(decode(&out, data.len()).unwrap(), (data, out.len() as u64));
}

#[test]
fn frame_parts_on_their_own() {
    assert_eq!(second_byte(0x1234_5678), 0x56);
    check_sum(7, 7, "x").unwrap();
    assert_eq!(check_sum(7, 8, "sum").unwrap_err().to_string(), "lz4: sum");
    assert_eq!(block_outcome(Ok(3)).unwrap(), 3);
    assert_eq!(block_outcome(Err("why".into())).unwrap_err().to_string(), "lz4: block decompress: why");
    check_length(4, 4).unwrap();
    assert!(check_length(4, 5).is_err());
    let mut out = Vec::new();
    push_block(b"abc", b"xy", &mut out);
    push_block(b"abc", b"xyz", &mut out);
    assert_eq!(out, [&[2, 0, 0, 0][..], b"xy", &[3, 0, 0, 0x80], b"abc"].concat());
}

#[test]
fn storage_messages() {
    assert_eq!(StorageError::Unavailable("down".into()).to_string(), "down");
    assert_eq!(StorageError::Cancelled.to_string(), "operation cancelled");
    assert!(StorageError::Unavailable(String::new()).is_transient());
    assert!(!StorageError::Conflict(String::new()).is_transient());
}
