use liters::error::Error;
use liters::ffi::{
    map_error, map_event, map_state, map_status, push_summary, sync_summary, DbRole, DbState,
    LitersError, LitersManager, LitersReplica, LitersWriter, MaintenanceResult, ManagerEvent,
    Storage, StorageConfig,
};
use liters::io::{IoError, IoErrorKind};
use liters::ltx::{Checksum, Pos, Txid};
use liters::manager;
use liters::replica::SyncResult;
use liters::storage::StorageError;
use liters::time::{Duration, Timestamp};
use liters::writer::PushResult;

fn push_result() -> PushResult {
    PushResult {
        txid: Txid(9),
        synced: true,
        uploaded: 3,
        remote_txid: Txid(8),
        checkpointed: true,
        snapshotted: true,
        snapshot_reason: Some("wal truncated by another process"),
        bytes_uploaded: 777,
    }
}

#[test]
fn error_mapping() {
    assert!(matches!(map_error(Error::Cancelled), LitersError::Cancelled));
    assert!(matches!(
        map_error(Error::Storage(StorageError::Cancelled)),
        LitersError::Cancelled
    ));
    assert!(matches!(
        map_error(Error::Diverged { local: Txid(2), remote: Txid(1) }),
        LitersError::Diverged { .. }
    ));
    assert!(matches!(
        map_error(Error::Storage(StorageError::Conflict("owned".into()))),
        LitersError::Conflict { .. }
    ));
    assert!(matches!(
        map_error(Error::Storage(StorageError::Unauthorized("401".into()))),
        LitersError::Unauthorized { .. }
    ));
    // Io is transient per the core's classification → Storage, not Other.
    assert!(matches!(
        map_error(Error::Io(IoError::new(IoErrorKind::Other, "disk".into()))),
        LitersError::Storage { .. }
    ));
    assert!(matches!(
        map_error(Error::Storage(StorageError::Unavailable("down".into()))),
        LitersError::Storage { .. }
    ));
    // Permanent conditions must not look retryable: ReadOnly and the
    // protocol-level Other map to LitersError::Other, never Storage.
    match map_error(Error::Storage(StorageError::ReadOnly(
        "server is read-only (writable: false)".into(),
    ))) {
        LitersError::Other { message } => {
            assert!(message.contains("read-only"), "message must name the cause: {message}")
        }
        other => panic!("ReadOnly must map to Other, got {other:?}"),
    }
    assert!(matches!(
        map_error(Error::Storage(StorageError::Other("not a liters server".into()))),
        LitersError::Other { .. }
    ));
    assert!(matches!(map_error(Error::TxNotAvailable), LitersError::Other { .. }));
}

#[test]
fn state_and_status_flattening() {
    let until = Timestamp::AfterEpoch(Duration::from_millis(12_345));
    match map_state(manager::DbState::BackingOff { until, attempt: 3 }) {
        DbState::BackingOff { until_ms, attempt } => {
            assert_eq!(until_ms, 12_345);
            assert_eq!(attempt, 3);
        }
        _ => panic!("wrong variant"),
    }
    let status = map_status(manager::DbStatus {
        id: "app".into(),
        role: manager::DbRole::Follow,
        state: manager::DbState::Working,
        position: Some(Txid(7)),
        last_error: None,
        last_activity: Some(Timestamp::AfterEpoch(Duration::from_millis(99))),
    });
    assert!(matches!(status.role, DbRole::Follow));
    assert!(matches!(status.state, DbState::Working));
    assert_eq!(status.position, Some(7));
    assert_eq!(status.last_activity_ms, Some(99));
}

#[test]
fn times_before_the_epoch_are_zero() {
    let until = Timestamp::BeforeEpoch(Duration::from_millis(5));
    assert_eq!(
        map_state(manager::DbState::BackingOff { until, attempt: 0 }),
        DbState::BackingOff { until_ms: 0, attempt: 0 }
    );
    assert_eq!(map_state(manager::DbState::Idle), DbState::Idle);
    assert_eq!(map_state(manager::DbState::Sleeping), DbState::Sleeping);
    assert_eq!(map_state(manager::DbState::Failed), DbState::Failed);
}

#[test]
fn host_error_messages() {
    let text = |e: Error| map_error(e).to_string();
    assert_eq!(
        text(Error::Diverged { local: Txid(2), remote: Txid(1) }),
        "diverged: replica diverged: local txid 0000000000000002 ahead of bucket max \
         0000000000000001"
    );
    assert_eq!(
        text(Error::Storage(StorageError::Unavailable("down".into()))),
        "storage: storage: down"
    );
    assert_eq!(
        text(Error::Storage(StorageError::Conflict("owned".into()))),
        "conflict: storage: owned"
    );
    assert_eq!(
        text(Error::Storage(StorageError::Unauthorized("401".into()))),
        "unauthorized: storage: 401"
    );
    assert_eq!(text(Error::Cancelled), "operation cancelled");
    assert_eq!(text(Error::TxNotAvailable), "transaction not available");
    // A missing file is told as a storage failure, though a retry of the same
    // fetch is not what mends it.
    let missing = Error::Storage(StorageError::NotFound {
        level: 1,
        min_txid: Txid(2),
        max_txid: Txid(3),
    });
    assert!(!missing.is_transient());
    assert_eq!(
        text(missing),
        "storage: storage: ltx file not found: level 1 0000000000000002-0000000000000003.ltx"
    );
}

#[test]
fn summaries_carry_every_field() {
    let s = push_summary(push_result());
    assert_eq!(s.txid, 9);
    assert!(s.synced && s.checkpointed && s.snapshotted);
    assert_eq!(s.uploaded, 3);
    assert_eq!(s.remote_txid, 8);
    assert_eq!(s.snapshot_reason.as_deref(), Some("wal truncated by another process"));
    assert_eq!(s.bytes_uploaded, 777);
    let none = push_summary(PushResult { snapshot_reason: None, ..push_result() });
    assert_eq!(none.snapshot_reason, None);

    let s = sync_summary(SyncResult { restored: true, from_txid: Txid(4), to_txid: Txid(6) });
    assert!(s.restored);
    assert_eq!((s.from_txid, s.to_txid), (4, 6));
}

#[test]
fn events_are_mapped() {
    match map_event(manager::ManagerEvent::StateChanged {
        id: "a".into(),
        state: manager::DbState::Working,
    }) {
        ManagerEvent::StateChanged { id, state } => {
            assert_eq!(id, "a");
            assert_eq!(state, DbState::Working);
        }
        other => panic!("{other:?}"),
    }
    match map_event(manager::ManagerEvent::PushCompleted { id: "b".into(), result: push_result() }) {
        ManagerEvent::PushCompleted { id, result } => {
            assert_eq!(id, "b");
            assert_eq!(result.bytes_uploaded, 777);
        }
        other => panic!("{other:?}"),
    }
    match map_event(manager::ManagerEvent::SyncCompleted {
        id: "c".into(),
        result: SyncResult { restored: false, from_txid: Txid(1), to_txid: Txid(2) },
    }) {
        ManagerEvent::SyncCompleted { id, result } => {
            assert_eq!(id, "c");
            assert_eq!(result.to_txid, 2);
        }
        other => panic!("{other:?}"),
    }
    match map_event(manager::ManagerEvent::Error {
        id: "d".into(),
        message: "m".into(),
        transient: true,
    }) {
        ManagerEvent::Error { id, message, transient } => {
            assert_eq!((id.as_str(), message.as_str(), transient), ("d", "m", true));
        }
        other => panic!("{other:?}"),
    }
}

#[test]
fn storage_configurations() {
    match (Storage::Dir { path: "/b".into() }).into_config() {
        StorageConfig::Dir { path } => assert_eq!(path, "/b"),
        other => panic!("{other:?}"),
    }
    let http = || Storage::Http { url: "http://h:1/db".into(), auth_token: Some("t".into()) };
    match http().into_config() {
        StorageConfig::Http { url, auth_token, writer_id, host_transport } => {
            assert_eq!(url, "http://h:1/db");
            assert_eq!(auth_token.as_deref(), Some("t"));
            assert_eq!(writer_id, None);
            assert!(!host_transport);
        }
        other => panic!("{other:?}"),
    }
    // A host's transport reaches HTTP storage, and only that.
    let m = LitersManager::with_options(None, true);
    assert!(matches!(
        m.storage_config(http()),
        StorageConfig::Http { host_transport: true, .. }
    ));
    assert!(matches!(
        m.storage_config(Storage::Dir { path: "/b".into() }),
        StorageConfig::Dir { .. }
    ));
    let s3 = Storage::S3 {
        bucket: "bk".into(),
        prefix: "p".into(),
        endpoint: None,
        region: Some("r".into()),
        access_key_id: None,
        secret_access_key: None,
        force_path_style: true,
        allow_http: false,
    };
    match s3.into_config() {
        StorageConfig::S3 { config } => {
            assert_eq!((config.bucket.as_str(), config.prefix.as_str()), ("bk", "p"));
            assert_eq!(config.region.as_deref(), Some("r"));
            assert!(config.force_path_style && !config.allow_http);
        }
        other => panic!("{other:?}"),
    }
}

#[test]
fn closed_objects_refuse_operations() {
    let mut w = LitersWriter::new();
    w.with_writer().unwrap();
    // A cancel reaches the running operation, not the next one.
    w.cancel();
    assert!(w.session.cancelled);
    w.with_writer().unwrap();
    assert!(!w.session.cancelled);
    assert!(w.close());
    assert!(!w.close()); // idempotent
    match w.with_writer() {
        Err(LitersError::Other { message }) => assert_eq!(message, "LitersWriter is closed"),
        other => panic!("{other:?}"),
    }

    let mut r = LitersReplica::new("/db".into());
    r.with_replica().unwrap();
    r.cancel();
    assert!(r.session.cancelled);
    r.close();
    match r.with_replica() {
        Err(LitersError::Other { message }) => assert_eq!(message, "LitersReplica is closed"),
        other => panic!("{other:?}"),
    }
    assert_eq!(r.db_path(), "/db");
}

#[test]
fn operations_answer_with_the_core_outcome() {
    let w = LitersWriter::new();
    assert_eq!(w.push(Ok(push_result())).unwrap().uploaded, 3);
    assert!(matches!(w.push(Err(Error::Cancelled)), Err(LitersError::Cancelled)));
    let m = w
        .maintain(Ok(MaintenanceResult {
            compacted_levels: vec![1, 2],
            snapshot: Some(Txid(5)),
            deleted: 4,
        }))
        .unwrap();
    assert_eq!((m.compacted_levels, m.snapshot_txid, m.deleted_files), (vec![1, 2], Some(5), 4));
    assert_eq!(w.snapshot(Ok(Some(Txid(3)))).unwrap(), Some(3));
    assert_eq!(w.snapshot(Ok(None)).unwrap(), None);
    assert_eq!(w.position(Ok(Pos::new(Txid(8), Checksum(0)))).unwrap(), 8);
    w.reset_local(Ok(())).unwrap();
    assert!(w.reset_local(Err(Error::TxNotAvailable)).is_err());

    let r = LitersReplica::new("/db".into());
    let s = r
        .sync(Ok(SyncResult { restored: false, from_txid: Txid(1), to_txid: Txid(2) }))
        .unwrap();
    assert_eq!((s.from_txid, s.to_txid), (1, 2));
    assert_eq!(r.position(Ok(Txid(6))).unwrap(), 6);
    r.reset(Ok(())).unwrap();

    let m = LitersManager::new();
    m.unregister(Ok(())).unwrap();
    m.sleep(Ok(())).unwrap();
    m.resume(Ok(())).unwrap();
    m.push_now(Ok(())).unwrap();
    assert!(matches!(
        m.sync_now(Err(Error::Other("unknown id".into()))),
        Err(LitersError::Other { .. })
    ));
    let status = manager::DbStatus {
        id: "x".into(),
        role: manager::DbRole::Push,
        state: manager::DbState::Idle,
        position: None,
        last_error: Some("boom".into()),
        last_activity: None,
    };
    assert!(m.status(None).is_none());
    assert_eq!(m.status(Some(status.clone())).unwrap().last_error.as_deref(), Some("boom"));
    let all = m.statuses(vec![status.clone(), status.clone()]);
    assert_eq!(all.len(), 2);
    assert_eq!(all[1].role, DbRole::Push);
    // The core's order and ids are kept, and one id gives its entry.
    let named = |id: &str| manager::DbStatus { id: id.into(), ..status.clone() };
    let all = m.statuses(vec![named("a"), named("ab"), named("b")]);
    let ids: Vec<_> = all.iter().map(|s| s.id.as_str()).collect();
    assert_eq!(ids, ["a", "ab", "b"]);
    assert_eq!(m.status(Some(named("ab"))).unwrap().id, "ab");
}

#[test]
fn registrations_carry_the_hosts_choices() {
    let m = LitersManager::with_options(Some(1_500), true);
    assert!(m.host_transport);
    assert_eq!(m.default_push_interval, Some(Duration::from_millis(1_500)));
    let http = || Storage::Http { url: "http://h".into(), auth_token: None };
    let c = m.register_follow(http(), true, Some(250), true);
    assert!(matches!(c.storage, StorageConfig::Http { host_transport: true, .. }));
    assert!(c.replica_options.auto_reset && c.replica_options.use_file_locks);
    assert_eq!(c.replica_options.lock_timeout, Duration::from_secs(5));
    assert_eq!(c.follow_options.poll_interval, Duration::from_millis(250));
    assert!(c.follow_options.retry);
    let m = LitersManager::new();
    assert_eq!(m, LitersManager::default());
    assert!(!m.host_transport && m.default_push_interval.is_none());
    let c = m.register_follow(http(), false, None, false);
    assert!(matches!(c.storage, StorageConfig::Http { host_transport: false, .. }));
    assert_eq!(c.follow_options.poll_interval, Duration::from_secs(1));
    let c = m.register_push(http(), Some(30_000), None);
    assert_eq!((c.push_interval, c.maintenance_interval), (Some(Duration::from_secs(30)), None));
    assert_eq!(c.writer_options.min_checkpoint_page_n, 1000);
    m.registered(Ok(())).unwrap();
    assert!(m.registered(Err(Error::Other("duplicate id".into()))).is_err());
}
