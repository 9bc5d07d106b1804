use liters::error::{enable_wal_text, lock_busy_text, Error};
use liters::io::{IoError, IoErrorKind};
use liters::ltx::{self, Txid};
use liters::storage::StorageError;
use liters::text::{parse_hex16, push_decimal, push_hex, push_signed, trim};
use liters::time::{Duration, Timestamp};

#[test]
fn numbers_as_text() {
    let mut s = String::new();
    push_hex(&mut s, 0xBEEF, 8);
    s.push(' ');
    push_decimal(&mut s, 0);
    s.push(' ');
    push_decimal(&mut s, u64::MAX);
    s.push(' ');
    push_signed(&mut s, i64::MIN);
    s.push(' ');
    push_signed(&mut s, 42);
    assert_eq!(s, "0000beef 0 18446744073709551615 -9223372036854775808 42");
    assert_eq!(parse_hex16("xxffffffffFFFFFFFF", 2), Some(u64::MAX));
    assert_eq!(parse_hex16("000000000000000g", 0), None);
}

#[test]
fn trimming_takes_white_space_only() {
    for s in ["", " ", " \t a b\n\n", "a", "\u{2003}x\u{3000}", "\u{200B}x"] {
        assert_eq!(trim(s), s.trim(), "{s:?}");
    }
}

#[test]
fn white_space_is_that_of_the_standard_library() {
    for c in (0..=0x10ffffu32).filter_map(char::from_u32) {
        let mut s = String::new();
        s.push(c);
        assert_eq!(trim(&s).is_empty(), c.is_whitespace(), "{c:?}");
    }
}

#[test]
fn spans_of_time() {
    let d = Duration::from_millis(1_500);
    assert_eq!((d.as_secs(), d.subsec_nanos()), (1, 500_000_000));
    assert_eq!(d.doubled(), Duration::from_secs(3));
    assert_eq!(Duration::from_millis(900).doubled(), Duration::from_millis(1_800));
    assert_eq!(d.min(Duration::from_secs(1)), Duration::from_secs(1));
    assert_eq!(Duration::left(Duration::from_secs(2), d), Duration::from_millis(500));
    assert!(Duration::left(d, Duration::from_secs(2)).is_zero());
    assert_eq!(d.after(d), Some(Duration::from_secs(3)));
    assert_eq!(Duration::from_secs(u64::MAX).after(Duration::from_secs(1)), None);
    assert_eq!(Duration::new(1, 1_000_000_000), None);
    // The text is that of the standard library's type.
    assert_eq!(d.to_text(), "1.5s");
    assert_eq!(Duration::from_millis(20).to_text(), "20ms");
    assert_eq!(
        Timestamp::AfterEpoch(Duration::from_secs(u64::MAX)).epoch_ms(),
        (u64::MAX as u128 * 1000) as u64
    );
}

#[test]
fn messages_name_the_cause() {
    let text = |e: Error| e.to_string();
    assert_eq!(text(Error::Sqlite("locked".into())), "sqlite: locked");
    assert_eq!(text(Error::Wal("short".into())), "wal: short");
    assert_eq!(text(Error::Ltx(ltx::Error::InvalidFile)), "ltx: invalid LTX file");
    assert_eq!(text(Error::Ltx(ltx::Error::Lz4("bad".into()))), "ltx: lz4: bad");
    assert_eq!(text(Error::Storage(StorageError::ReadOnly("no".into()))), "storage: no");
    assert_eq!(text(Error::Io(IoError::new(IoErrorKind::NotFound, "gone".into()))), "gone");
    // The mode is quoted and escaped.
    assert_eq!(
        text(Error::EnableWalFailed("de\"lete".into())),
        "enable wal failed, mode=\"de\\\"lete\""
    );
    assert_eq!(enable_wal_text("\"off\""), "enable wal failed, mode=\"off\"");
    assert_eq!(
        text(Error::LocalLtx { txid: Txid(0x1f), msg: "open".into() }),
        "local ltx file missing or corrupt: txid 000000000000001f: open"
    );
    assert_eq!(
        text(Error::Diverged { local: Txid(5), remote: Txid(3) }),
        "replica diverged: local txid 0000000000000005 ahead of bucket max 0000000000000003"
    );
    assert_eq!(text(Error::TxNotAvailable), "transaction not available");
    assert_eq!(text(Error::Cancelled), "operation cancelled");
    assert_eq!(text(Error::Other("x".into())), "x");
    let busy = |holder_pid| Error::LockBusy {
        lock: "SHARED",
        waited: Duration::from_millis(250),
        holder_pid,
    };
    assert_eq!(
        text(busy(Some(77))),
        "replica file lock busy: could not take the SQLite SHARED lock within 250ms \
         (conflicting lock held by pid 77)"
    );
    assert_eq!(
        text(busy(None)),
        "replica file lock busy: could not take the SQLite SHARED lock within 250ms"
    );
    assert_eq!(
        lock_busy_text("PENDING", "1s", None),
        "replica file lock busy: could not take the SQLite PENDING lock within 1s"
    );
}

#[test]
fn transient_errors() {
    assert!(Error::Storage(StorageError::Unavailable("x".into())).is_transient());
    assert!(Error::Io(IoError::new(IoErrorKind::Other, "x".into())).is_transient());
    assert!(Error::LockBusy { lock: "PENDING", waited: Duration::from_secs(1), holder_pid: None }
        .is_transient());
    for e in [
        Error::Cancelled,
        Error::TxNotAvailable,
        Error::Diverged { local: Txid(1), remote: Txid(2) },
        Error::Storage(StorageError::ReadOnly("x".into())),
        Error::Storage(StorageError::Conflict("x".into())),
        Error::Storage(StorageError::Unauthorized("x".into())),
        Error::Storage(StorageError::Other("x".into())),
        Error::Sqlite("x".into()),
        Error::Other("x".into()),
    ] {
        assert!(!e.is_transient(), "{e:?}");
    }
}

#[test]
fn storage_cancellation_is_one_variant() {
    assert!(matches!(Error::from(StorageError::Cancelled), Error::Cancelled));
    assert!(matches!(
        Error::from(StorageError::Unavailable("x".into())),
        Error::Storage(StorageError::Unavailable(_))
    ));
}
