//! The surface for host apps: blocking, mobile-friendly wrappers around the
//! writer, the replica, and the multi-database manager.

use vstd::prelude::*;
use vstd::string::*;

use crate::error::Error;
#[allow(unused_imports)]
use crate::error::ErrorView;
use crate::ltx::{Pos, Txid};
use crate::manager;
#[allow(unused_imports)]
use crate::replica::IntegrityCheck;
use crate::replica::{FollowOptions, ReplicaOptions, SyncResult};
use crate::storage::StorageError;
#[allow(unused_imports)]
use crate::storage::StorageErrorView;
use crate::time::Duration;
#[allow(unused_imports)]
use crate::time::{lemma_millis_passed, Timestamp};
use crate::writer::{PushResult, WriterOptions};

verus! {

/// Where a database's replica lives.
#[derive(Debug, Clone)]
pub enum Storage {
    /// Local directory (testing, shared containers).
    Dir { path: String },
    /// S3-compatible object storage.
    S3 {
        bucket: String,
        prefix: String,
        endpoint: Option<String>,
        region: Option<String>,
        access_key_id: Option<String>,
        secret_access_key: Option<String>,
        force_path_style: bool,
        allow_http: bool,
    },
    /// Another instance serving a bucket over HTTP (`http://host:port[/path]`).
    /// Valid as a replica source, and as a writer destination when the server
    /// accepts writes.
    ///
    /// `auth_token` is sent as `Authorization: Bearer <token>` on every
    /// request, for servers started with an auth token.
    Http { url: String, auth_token: Option<String> },
}

/// How to reach S3-compatible object storage.
#[derive(Debug, Clone)]
pub struct S3Config {
    pub bucket: String,
    pub prefix: String,
    pub endpoint: Option<String>,
    pub region: Option<String>,
    pub access_key_id: Option<String>,
    pub secret_access_key: Option<String>,
    pub force_path_style: bool,
    pub allow_http: bool,
}

/// A storage backend's configuration.
#[derive(Debug, Clone)]
pub enum StorageConfig {
    Dir { path: String },
    S3 { config: S3Config },
    Http {
        url: String,
        auth_token: Option<String>,
        /// The id sent for server-side fencing. The manager fills it with a
        /// per-database persisted id for push registrations; plain writer
        /// pushes stay without one (no fencing).
        writer_id: Option<String>,
        /// Whether requests run through the host's HTTP client instead of the
        /// built-in socket transport.
        host_transport: bool,
    },
}

impl Storage {
    /// The configuration for this storage, with the built-in transport.
    pub fn into_config(self) -> (r: StorageConfig)
        ensures
            r == config_of(self, false),
    {
        self.into_config_with(false)
    }

    /// The configuration for this storage; HTTP requests run through the
    /// host's client when one was supplied.
    pub fn into_config_with(self, host_transport: bool) -> (r: StorageConfig)
        ensures
            r == config_of(self, host_transport),
    {
        match self {
            Storage::Dir { path } => StorageConfig::Dir { path },
            Storage::S3 {
                bucket,
                prefix,
                endpoint,
                region,
                access_key_id,
                secret_access_key,
                force_path_style,
                allow_http,
            } => StorageConfig::S3 {
                config: S3Config {
                    bucket,
                    prefix,
                    endpoint,
                    region,
                    access_key_id,
                    secret_access_key,
                    force_path_style,
                    allow_http,
                },
            },
            Storage::Http { url, auth_token } => StorageConfig::Http {
                url,
                auth_token,
                writer_id: None,
                host_transport,
            },
        }
    }
}

/// The configuration for a storage: every field is carried over, no writer id
/// is set, and only HTTP uses a transport.
pub open spec fn config_of(s: Storage, host_transport: bool) -> StorageConfig {
    match s {
        Storage::Dir { path } => StorageConfig::Dir { path },
        Storage::S3 {
            bucket,
            prefix,
            endpoint,
            region,
            access_key_id,
            secret_access_key,
            force_path_style,
            allow_http,
        } => StorageConfig::S3 {
            config: S3Config {
                bucket,
                prefix,
                endpoint,
                region,
                access_key_id,
                secret_access_key,
                force_path_style,
                allow_http,
            },
        },
        Storage::Http { url, auth_token } => StorageConfig::Http {
            url,
            auth_token,
            writer_id: None,
            host_transport,
        },
    }
}

/// What a host app can act on.
#[derive(Debug)]
pub enum LitersError {
    /// The bucket's history no longer matches the local state; reset the
    /// replica (or construct it with `auto_reset`) to re-restore.
    Diverged { message: String },
    /// Storage/network failure (including local I/O); usually transient —
    /// retry the same call later.
    Storage { message: String },
    /// The server rejected a write for consistency/ownership reasons:
    /// another writer holds the bucket lease, or the push was
    /// non-monotonic. Not retryable as-is — the next push after the local
    /// lineage check re-derives the correct baseline.
    Conflict { message: String },
    /// Authentication required or rejected; fix the auth token.
    Unauthorized { message: String },
    /// The operation was aborted by a cancel (or close). State is crash-safe:
    /// retrying is indistinguishable from resuming after a process kill.
    Cancelled,
    Other { message: String },
}

/// The mathematical counterpart of [`LitersError`].
#[verifier::ext_equal]
pub enum LitersErrorView {
    Diverged(Seq<char>),
    Storage(Seq<char>),
    Conflict(Seq<char>),
    Unauthorized(Seq<char>),
    Cancelled,
    Other(Seq<char>),
}

impl View for LitersError {
    type V = LitersErrorView;

    open spec fn view(&self) -> LitersErrorView {
        match self {
            LitersError::Diverged { message } => LitersErrorView::Diverged(message@),
            LitersError::Storage { message } => LitersErrorView::Storage(message@),
            LitersError::Conflict { message } => LitersErrorView::Conflict(message@),
            LitersError::Unauthorized { message } => LitersErrorView::Unauthorized(message@),
            LitersError::Cancelled => LitersErrorView::Cancelled,
            LitersError::Other { message } => LitersErrorView::Other(message@),
        }
    }
}

impl LitersErrorView {
    /// The message shown to the host.
    pub open spec fn text(self) -> Seq<char> {
        match self {
            LitersErrorView::Diverged(m) => "diverged: "@ + m,
            LitersErrorView::Storage(m) => "storage: "@ + m,
            LitersErrorView::Conflict(m) => "conflict: "@ + m,
            LitersErrorView::Unauthorized(m) => "unauthorized: "@ + m,
            LitersErrorView::Cancelled => "operation cancelled"@,
            LitersErrorView::Other(m) => m,
        }
    }
}

impl LitersError {
    /// The message shown to the host.
    pub fn to_string(&self) -> (s: String)
        ensures
            s@ == self@.text(),
    {
        match self {
            LitersError::Diverged { message } => {
                String::from_str("diverged: ").concat(message.as_str())
            },
            LitersError::Storage { message } => {
                String::from_str("storage: ").concat(message.as_str())
            },
            LitersError::Conflict { message } => {
                String::from_str("conflict: ").concat(message.as_str())
            },
            LitersError::Unauthorized { message } => {
                String::from_str("unauthorized: ").concat(message.as_str())
            },
            LitersError::Cancelled => String::from_str("operation cancelled"),
            LitersError::Other { message } => message.clone(),
        }
    }
}

/// What a host is told of a core error. Permanent conditions never land in
/// the retryable `Storage` variant; local I/O, which is transient, does.
pub open spec fn mapped_error(e: ErrorView) -> LitersErrorView {
    match e {
        ErrorView::Cancelled => LitersErrorView::Cancelled,
        ErrorView::Diverged { .. } => LitersErrorView::Diverged(e.text()),
        ErrorView::Storage(StorageErrorView::Conflict(_)) => LitersErrorView::Conflict(e.text()),
        ErrorView::Storage(StorageErrorView::Unauthorized(_)) => LitersErrorView::Unauthorized(
            e.text(),
        ),
        ErrorView::Storage(StorageErrorView::Cancelled) => LitersErrorView::Cancelled,
        ErrorView::Storage(StorageErrorView::ReadOnly(_)) => LitersErrorView::Other(e.text()),
        ErrorView::Storage(StorageErrorView::Other(_)) => LitersErrorView::Other(e.text()),
        ErrorView::Storage(_) => LitersErrorView::Storage(e.text()),
        ErrorView::Io(_) => LitersErrorView::Storage(e.text()),
        _ => LitersErrorView::Other(e.text()),
    }
}

/// Turns a core error into what the host is told.
pub fn map_error(e: Error) -> (r: LitersError)
    ensures
        r@ == mapped_error(e@),
{
    let message = e.to_string();
    match e {
        Error::Cancelled => LitersError::Cancelled,
        Error::Diverged { .. } => LitersError::Diverged { message },
        Error::Storage(StorageError::Conflict(_)) => LitersError::Conflict { message },
        Error::Storage(StorageError::Unauthorized(_)) => LitersError::Unauthorized { message },
        Error::Storage(StorageError::Cancelled) => LitersError::Cancelled,
        // Permanent conditions must not land in the retryable Storage
        // variant: ReadOnly (the server rejects every write until it is
        // reconfigured) and Other (protocol mismatch) map to Other —
        // non-retryable, message names the cause.
        Error::Storage(StorageError::ReadOnly(_)) => LitersError::Other { message },
        Error::Storage(StorageError::Other(_)) => LitersError::Other { message },
        Error::Storage(_) => LitersError::Storage { message },
        Error::Io(_) => LitersError::Storage { message },
        _ => LitersError::Other { message },
    }
}

/// Every error worth a retry, and no cancellation or divergence, is told to
/// the host as a storage failure; the other storage failures it is told of
/// are files that are missing from the bucket.
pub proof fn lemma_transient_is_storage(e: ErrorView)
    ensures
        e.transient() && !(e is LockBusy) ==> mapped_error(e) is Storage,
        mapped_error(e) is Storage ==> e.transient() || e matches ErrorView::Storage(
            StorageErrorView::NotFound { .. },
        ),
{
}

/// Result of a push, for the host.
#[derive(Debug, Clone)]
pub struct PushSummary {
    /// Local replication position (TXID) after the push.
    pub txid: u64,
    /// Whether new committed content was captured into an L0 file.
    pub synced: bool,
    /// Number of files uploaded by this push.
    pub uploaded: u64,
    /// Bucket-side max TXID after the push.
    pub remote_txid: u64,
    /// Whether a WAL checkpoint ran.
    pub checkpointed: bool,
    /// Whether this push wrote a **full snapshot of the database** instead of
    /// an incremental WAL delta.
    pub snapshotted: bool,
    /// Why, when `snapshotted`. One of a small fixed set.
    pub snapshot_reason: Option<String>,
    /// Bytes of LTX uploaded by this push, across `uploaded` files.
    pub bytes_uploaded: u64,
}

/// Whether `s` says of a push what `r` says.
pub open spec fn summarizes(s: PushSummary, r: PushResult) -> bool {
    &&& s.txid == r.txid.0
    &&& s.synced == r.synced
    &&& s.uploaded == r.uploaded
    &&& s.remote_txid == r.remote_txid.0
    &&& s.checkpointed == r.checkpointed
    &&& s.snapshotted == r.snapshotted
    &&& s.bytes_uploaded == r.bytes_uploaded
    &&& match (s.snapshot_reason, r.snapshot_reason) {
        (Some(a), Some(b)) => a@ == b@,
        (None, None) => true,
        _ => false,
    }
}

pub fn push_summary(r: PushResult) -> (s: PushSummary)
    ensures
        summarizes(s, r),
{
    PushSummary {
        txid: r.txid.0,
        synced: r.synced,
        uploaded: r.uploaded,
        remote_txid: r.remote_txid.0,
        checkpointed: r.checkpointed,
        snapshotted: r.snapshotted,
        snapshot_reason: match r.snapshot_reason {
            Some(t) => Some(String::from_str(t)),
            None => None,
        },
        bytes_uploaded: r.bytes_uploaded,
    }
}

/// Result of a sync, for the host.
#[derive(Debug, Clone, Copy, PartialEq, Eq, Structural)]
pub struct SyncSummary {
    /// Whether a full restore ran (vs. incremental application).
    pub restored: bool,
    pub from_txid: u64,
    pub to_txid: u64,
}

/// What the host is told of a sync.
pub open spec fn sync_told(s: SyncResult) -> SyncSummary {
    SyncSummary { restored: s.restored, from_txid: s.from_txid.0, to_txid: s.to_txid.0 }
}

pub fn sync_summary(s: SyncResult) -> (r: SyncSummary)
    ensures
        r == sync_told(s),
{
    SyncSummary { restored: s.restored, from_txid: s.from_txid.0, to_txid: s.to_txid.0 }
}

/// Result of a maintenance round, for the host.
#[derive(Debug, Clone)]
pub struct MaintenanceSummary {
    pub compacted_levels: Vec<u8>,
    pub snapshot_txid: Option<u64>,
    pub deleted_files: u64,
}

/// Whether a registration pushes or follows.
#[derive(Debug, Clone, Copy, PartialEq, Eq, Structural)]
pub enum DbRole {
    Push,
    Follow,
}

/// Lifecycle state of one registered database.
#[derive(Debug, Clone, Copy, PartialEq, Eq, Structural)]
pub enum DbState {
    /// Registered and waiting for the next tick/nudge (push entries only;
    /// an active follower is `Working` for its whole session).
    Idle,
    /// A push/maintain round or follow session is in progress.
    Working,
    /// A transient failure is waiting out its backoff delay. `until_ms` is
    /// milliseconds since the Unix epoch; `attempt` is the
    /// consecutive-failure count (1 after the first failure).
    BackingOff { until_ms: u64, attempt: u32 },
    /// Slept: session cancelled, writer dropped, no storage traffic until
    /// resumed.
    Sleeping,
    /// A fatal (non-transient) error parked the worker; it retries once per
    /// nudge or on resume.
    Failed,
}

/// The host's form of a state.
pub open spec fn mapped_state(s: manager::DbState) -> DbState {
    match s {
        manager::DbState::Idle => DbState::Idle,
        manager::DbState::Working => DbState::Working,
        manager::DbState::BackingOff { until, attempt } => DbState::BackingOff {
            until_ms: until.millis() as u64,
            attempt,
        },
        manager::DbState::Sleeping => DbState::Sleeping,
        manager::DbState::Failed => DbState::Failed,
    }
}

pub fn map_state(s: manager::DbState) -> (r: DbState)
    ensures
        r == mapped_state(s),
{
    match s {
        manager::DbState::Idle => DbState::Idle,
        manager::DbState::Working => DbState::Working,
        manager::DbState::BackingOff { until, attempt } => DbState::BackingOff {
            until_ms: until.epoch_ms(),
            attempt,
        },
        manager::DbState::Sleeping => DbState::Sleeping,
        manager::DbState::Failed => DbState::Failed,
    }
}

/// Point-in-time snapshot of one registered database.
#[derive(Debug, Clone)]
pub struct DbStatus {
    pub id: String,
    pub role: DbRole,
    pub state: DbState,
    /// Replication position (TXID): for pushes, the last successful push;
    /// for follows, the last applied transaction. `None` until the first
    /// push/apply.
    pub position: Option<u64>,
    /// Most recent error message; cleared by the next successful round.
    pub last_error: Option<String>,
    /// Completion time of the last successful push/apply, in milliseconds
    /// since the Unix epoch.
    pub last_activity_ms: Option<u64>,
}

/// The host's form of a status.
pub open spec fn mapped_status(s: manager::DbStatus) -> DbStatus {
    DbStatus {
        id: s.id,
        role: match s.role {
            manager::DbRole::Push => DbRole::Push,
            manager::DbRole::Follow => DbRole::Follow,
        },
        state: mapped_state(s.state),
        position: match s.position {
            Some(t) => Some(t.0),
            None => None,
        },
        last_error: s.last_error,
        last_activity_ms: match s.last_activity {
            Some(t) => Some(t.millis() as u64),
            None => None,
        },
    }
}

pub fn map_status(s: manager::DbStatus) -> (r: DbStatus)
    ensures
        r == mapped_status(s),
{
    DbStatus {
        id: s.id,
        role: match s.role {
            manager::DbRole::Push => DbRole::Push,
            manager::DbRole::Follow => DbRole::Follow,
        },
        state: map_state(s.state),
        position: match s.position {
            Some(t) => Some(t.0),
            None => None,
        },
        last_error: s.last_error,
        last_activity_ms: match s.last_activity {
            Some(t) => Some(t.epoch_ms()),
            None => None,
        },
    }
}

/// Events delivered to a listener. One database's events arrive in order;
/// followers do not emit per-transaction position events.
#[derive(Debug, Clone)]
pub enum ManagerEvent {
    StateChanged { id: String, state: DbState },
    PushCompleted { id: String, result: PushSummary },
    SyncCompleted { id: String, result: SyncSummary },
    Error { id: String, message: String, transient: bool },
}

/// Whether the host's event `r` says what `e` says.
pub open spec fn event_told(e: manager::ManagerEvent, r: ManagerEvent) -> bool {
    match e {
        manager::ManagerEvent::StateChanged { id, state } => r == (ManagerEvent::StateChanged {
            id,
            state: mapped_state(state),
        }),
        manager::ManagerEvent::PushCompleted { id, result } => r matches ManagerEvent::PushCompleted {
            id: rid,
            result: summary,
        } && rid == id && summarizes(summary, result),
        manager::ManagerEvent::SyncCompleted { id, result } => r == (ManagerEvent::SyncCompleted {
            id,
            result: sync_told(result),
        }),
        manager::ManagerEvent::Error { id, message, transient } => r == (ManagerEvent::Error {
            id,
            message,
            transient,
        }),
    }
}

pub fn map_event(e: manager::ManagerEvent) -> (r: ManagerEvent)
    ensures
        event_told(e, r),
{
    match e {
        manager::ManagerEvent::StateChanged { id, state } => ManagerEvent::StateChanged {
            id,
            state: map_state(state),
        },
        manager::ManagerEvent::PushCompleted { id, result } => ManagerEvent::PushCompleted {
            id,
            result: push_summary(result),
        },
        manager::ManagerEvent::SyncCompleted { id, result } => ManagerEvent::SyncCompleted {
            id,
            result: sync_summary(result),
        },
        manager::ManagerEvent::Error { id, message, transient } => ManagerEvent::Error {
            id,
            message,
            transient,
        },
    }
}

/// What a maintenance round did.
#[derive(Debug, Clone)]
pub struct MaintenanceResult {
    pub compacted_levels: Vec<u8>,
    pub snapshot: Option<Txid>,
    pub deleted: usize,
}

/// What the host is told of a maintenance round.
pub open spec fn maintenance_told(m: MaintenanceResult) -> MaintenanceSummary {
    MaintenanceSummary {
        compacted_levels: m.compacted_levels,
        snapshot_txid: match m.snapshot {
            Some(t) => Some(t.0),
            None => None,
        },
        deleted_files: m.deleted as u64,
    }
}

/// The error of a call on a closed object.
pub open spec fn closed_view(what: Seq<char>) -> LitersErrorView {
    LitersErrorView::Other(what + " is closed"@)
}

fn closed_error(what: &str) -> (e: LitersError)
    ensures
        e@ == closed_view(what@),
{
    LitersError::Other { message: String::from_str(what).concat(" is closed") }
}

/// Which operations of an object may run, and whether the running one was
/// cancelled.
#[derive(Debug, Clone, Copy, PartialEq, Eq, Structural)]
pub struct Session {
    /// Whether the object still holds its writer or replica.
    pub open: bool,
    /// Set for good once the object is being closed.
    pub closed: bool,
    /// Whether the current operation's token is cancelled.
    pub cancelled: bool,
}

/// What can happen to a session.
pub enum SessionOp {
    /// An operation starts.
    Begin,
    Cancel,
    Close,
}

/// The session after an event.
pub open spec fn session_after(s: Session, op: SessionOp) -> Session {
    match op {
        SessionOp::Begin => Session { cancelled: false, ..s },
        SessionOp::Cancel => Session { cancelled: true, ..s },
        SessionOp::Close => Session { open: false, closed: true, cancelled: true },
    }
}

/// The session after several events.
pub open spec fn session_run(s: Session, ops: Seq<SessionOp>) -> Session
    decreases ops.len(),
{
    if ops.len() == 0 {
        s
    } else {
        session_after(session_run(s, ops.drop_last()), ops.last())
    }
}

/// Whether an operation that starts now is refused.
pub open spec fn refuses(s: Session) -> bool {
    s.closed || !s.open
}

/// A closed object refuses every later operation, whatever happens in
/// between; closing it again changes nothing.
pub proof fn lemma_closed_for_good(s: Session, ops: Seq<SessionOp>)
    ensures
        refuses(session_run(session_after(s, SessionOp::Close), ops)),
        session_after(session_after(s, SessionOp::Close), SessionOp::Close) == session_after(
            s,
            SessionOp::Close,
        ),
    decreases ops.len(),
{
    if ops.len() > 0 {
        lemma_closed_for_good(s, ops.drop_last());
    }
}

/// A cancel aborts the operation that is running and never one that starts
/// later.
pub proof fn lemma_cancel_spares_next(s: Session)
    ensures
        session_after(s, SessionOp::Cancel).cancelled,
        !session_after(session_after(s, SessionOp::Cancel), SessionOp::Begin).cancelled,
        refuses(session_after(s, SessionOp::Cancel)) == refuses(s),
{
}

impl Session {
    pub fn new() -> (s: Session)
        ensures
            s == (Session { open: true, closed: false, cancelled: false }),
    {
        Session { open: true, closed: false, cancelled: false }
    }

    /// Starts an operation of the object called `what`. A fresh token is
    /// installed first, so a cancel aborts exactly the running operation and
    /// can never pre-cancel a future one; the closed flag is looked at after
    /// that, so no operation slips through with a live token once the object
    /// is being closed.
    pub fn begin(&mut self, what: &str) -> (r: core::result::Result<(), LitersError>)
        ensures
            *final(self) == session_after(*old(self), SessionOp::Begin),
            if refuses(*old(self)) {
                r matches Err(e) && e@ == closed_view(what@)
            } else {
                r is Ok
            },
    {
        self.cancelled = false;
        if self.closed {
            return Err(closed_error(what));
        }
        if !self.open {
            return Err(closed_error(what));
        }
        Ok(())
    }

    /// Aborts the running operation.
    pub fn cancel(&mut self)
        ensures
            *final(self) == session_after(*old(self), SessionOp::Cancel),
    {
        self.cancelled = true;
    }

    /// Tears the object down: refuses new operations, then cancels the running
    /// one, then, once that has returned, gives up what the object holds.
    /// Returns whether there was something to give up.
    pub fn close(&mut self) -> (held: bool)
        ensures
            *final(self) == session_after(*old(self), SessionOp::Close),
            held == old(self).open,
    {
        let held: bool = self.open;
        self.closed = true;
        self.cancelled = true;
        self.open = false;
        held
    }
}

/// What the host is told of an operation's outcome.
pub open spec fn told<T>(r: core::result::Result<T, Error>) -> core::result::Result<T, LitersErrorView> {
    match r {
        Ok(v) => Ok(v),
        Err(e) => Err(mapped_error(e@)),
    }
}

/// A result with its error taken by its view.
pub open spec fn answer<T>(r: core::result::Result<T, LitersError>) -> core::result::Result<
    T,
    LitersErrorView,
> {
    match r {
        Ok(v) => Ok(v),
        Err(e) => Err(e@),
    }
}

/// Replicates a local, app-owned SQLite database to a bucket. Call `push`
/// after commits (or batched); call `maintain` opportunistically to compact
/// and enforce retention.
///
/// Each operation first begins with [`LitersWriter::with_writer`]; the writer
/// then does its work under the installed token, and the method of the
/// operation turns what that came to into the host's answer.
#[derive(Debug, Clone, Copy, PartialEq, Eq, Structural)]
pub struct LitersWriter {
    pub session: Session,
}

impl LitersWriter {
    /// For a writer that was opened.
    pub fn new() -> (w: LitersWriter)
        ensures
            w.session == (Session { open: true, closed: false, cancelled: false }),
    {
        LitersWriter { session: Session::new() }
    }

    /// Starts an operation; errors clearly once the writer is closed.
    pub fn with_writer(&mut self) -> (r: core::result::Result<(), LitersError>)
        ensures
            final(self).session == session_after(old(self).session, SessionOp::Begin),
            if refuses(old(self).session) {
                r matches Err(e) && e@ == closed_view("LitersWriter"@)
            } else {
                r is Ok
            },
    {
        self.session.begin("LitersWriter")
    }

    /// Captures all committed changes into the bucket. Short and resumable:
    /// on failure, the next push picks up exactly where this one stopped.
    pub fn push(&self, outcome: core::result::Result<PushResult, Error>) -> (r: core::result::Result<
        PushSummary,
        LitersError,
    >)
        ensures
            match outcome {
                Ok(p) => r matches Ok(s) && summarizes(s, p),
                Err(e) => r matches Err(x) && x@ == mapped_error(e@),
            },
    {
        match outcome {
            Ok(p) => Ok(push_summary(p)),
            Err(e) => Err(map_error(e)),
        }
    }

    /// Runs due compaction, snapshotting, and retention.
    pub fn maintain(&self, outcome: core::result::Result<MaintenanceResult, Error>) -> (r:
        core::result::Result<MaintenanceSummary, LitersError>)
        ensures
            match outcome {
                Ok(m) => r == Ok::<MaintenanceSummary, LitersError>(maintenance_told(m)),
                Err(e) => r matches Err(x) && x@ == mapped_error(e@),
            },
    {
        match outcome {
            Ok(m) => Ok(
                MaintenanceSummary {
                    compacted_levels: m.compacted_levels,
                    snapshot_txid: match m.snapshot {
                        Some(t) => Some(t.0),
                        None => None,
                    },
                    deleted_files: m.deleted as u64,
                },
            ),
            Err(e) => Err(map_error(e)),
        }
    }

    /// Forces a full snapshot to the bucket now.
    pub fn snapshot(&self, outcome: core::result::Result<Option<Txid>, Error>) -> (r:
        core::result::Result<Option<u64>, LitersError>)
        ensures
            match outcome {
                Ok(Some(t)) => r == Ok::<Option<u64>, LitersError>(Some(t.0)),
                Ok(None) => r == Ok::<Option<u64>, LitersError>(None),
                Err(e) => r matches Err(x) && x@ == mapped_error(e@),
            },
    {
        match outcome {
            Ok(Some(t)) => Ok(Some(t.0)),
            Ok(None) => Ok(None),
            Err(e) => Err(map_error(e)),
        }
    }

    /// Current local replication position.
    pub fn position(&self, outcome: core::result::Result<Pos, Error>) -> (r: core::result::Result<
        u64,
        LitersError,
    >)
        ensures
            match outcome {
                Ok(p) => r == Ok::<u64, LitersError>(p.txid.0),
                Err(e) => r matches Err(x) && x@ == mapped_error(e@),
            },
    {
        match outcome {
            Ok(p) => Ok(p.txid.0),
            Err(e) => Err(map_error(e)),
        }
    }

    /// Recovery for a "local ltx file missing or corrupt" error: wipes local
    /// replication state so the next push re-derives everything from the
    /// bucket. Local database content is untouched.
    pub fn reset_local(&self, outcome: core::result::Result<(), Error>) -> (r: core::result::Result<
        (),
        LitersError,
    >)
        ensures
            answer(r) == told(outcome),
    {
        match outcome {
            Ok(()) => Ok(()),
            Err(e) => Err(map_error(e)),
        }
    }

    /// Aborts the in-flight operation, if any. Each operation installs a fresh
    /// token at its start, so a cancel only ever affects the one currently
    /// running.
    pub fn cancel(&mut self)
        ensures
            final(self).session == session_after(old(self).session, SessionOp::Cancel),
    {
        self.session.cancel()
    }

    /// Tears the writer down. Later operations error with "LitersWriter is
    /// closed". Idempotent. Returns whether the writer was still held.
    pub fn close(&mut self) -> (held: bool)
        ensures
            final(self).session == session_after(old(self).session, SessionOp::Close),
            held == old(self).session.open,
    {
        self.session.close()
    }
}

/// A local read-only materialization of a bucket: a sync restores on first
/// use, then applies changes incrementally. Operations begin and end as those
/// of [`LitersWriter`].
#[derive(Debug, Clone)]
pub struct LitersReplica {
    pub session: Session,
    pub db_path: String,
}

impl LitersReplica {
    pub fn new(db_path: String) -> (r: LitersReplica)
        ensures
            r == (LitersReplica {
                session: Session { open: true, closed: false, cancelled: false },
                db_path,
            }),
    {
        LitersReplica { session: Session::new(), db_path }
    }

    /// Starts an operation; errors clearly once the replica is closed.
    pub fn with_replica(&mut self) -> (r: core::result::Result<(), LitersError>)
        ensures
            *final(self) == (LitersReplica {
                session: session_after(old(self).session, SessionOp::Begin),
                ..*old(self)
            }),
            if refuses(old(self).session) {
                r matches Err(e) && e@ == closed_view("LitersReplica"@)
            } else {
                r is Ok
            },
    {
        self.session.begin("LitersReplica")
    }

    /// Brings the local replica up to date. Short and resumable.
    pub fn sync(&self, outcome: core::result::Result<SyncResult, Error>) -> (r: core::result::Result<
        SyncSummary,
        LitersError,
    >)
        ensures
            match outcome {
                Ok(s) => r == Ok::<SyncSummary, LitersError>(sync_told(s)),
                Err(e) => r matches Err(x) && x@ == mapped_error(e@),
            },
    {
        match outcome {
            Ok(s) => Ok(sync_summary(s)),
            Err(e) => Err(map_error(e)),
        }
    }

    /// Last applied TXID (zero if never synced).
    pub fn position(&self, outcome: core::result::Result<Txid, Error>) -> (r: core::result::Result<
        u64,
        LitersError,
    >)
        ensures
            match outcome {
                Ok(t) => r == Ok::<u64, LitersError>(t.0),
                Err(e) => r matches Err(x) && x@ == mapped_error(e@),
            },
    {
        match outcome {
            Ok(t) => Ok(t.0),
            Err(e) => Err(map_error(e)),
        }
    }

    /// Path of the local database file to open read-only.
    pub fn db_path(&self) -> (r: String)
        ensures
            r@ == self.db_path@,
    {
        self.db_path.clone()
    }

    /// Deletes the local replica; the next sync restores from scratch.
    pub fn reset(&self, outcome: core::result::Result<(), Error>) -> (r: core::result::Result<
        (),
        LitersError,
    >)
        ensures
            answer(r) == told(outcome),
    {
        match outcome {
            Ok(()) => Ok(()),
            Err(e) => Err(map_error(e)),
        }
    }

    /// Aborts the in-flight sync, if any.
    pub fn cancel(&mut self)
        ensures
            *final(self) == (LitersReplica {
                session: session_after(old(self).session, SessionOp::Cancel),
                ..*old(self)
            }),
    {
        self.session.cancel()
    }

    /// Tears the replica down. Later operations (except `db_path`) error with
    /// "LitersReplica is closed". Idempotent. Returns whether the replica was
    /// still held.
    pub fn close(&mut self) -> (held: bool)
        ensures
            *final(self) == (LitersReplica {
                session: session_after(old(self).session, SessionOp::Close),
                ..*old(self)
            }),
            held == old(self).session.open,
    {
        self.session.close()
    }
}

/// What starts the worker of a push registration.
#[derive(Debug, Clone)]
pub struct PushConfig {
    pub storage: StorageConfig,
    pub writer_options: WriterOptions,
    /// Push cadence; `None` falls back to the manager's default.
    pub push_interval: Option<Duration>,
    /// How long after the last attempt maintenance is due again; `None` for
    /// no maintenance.
    pub maintenance_interval: Option<Duration>,
}

/// What starts the worker of a follow registration.
#[derive(Debug, Clone)]
pub struct FollowConfig {
    pub storage: StorageConfig,
    pub replica_options: ReplicaOptions,
    pub follow_options: FollowOptions,
}

/// Whether `d` is the span of so many milliseconds.
pub open spec fn is_millis(d: Option<Duration>, ms: Option<u64>) -> bool {
    match (d, ms) {
        (Some(d), Some(ms)) => d.total() == ms * 1_000_000,
        (None, None) => true,
        _ => false,
    }
}

fn millis(ms: Option<u64>) -> (d: Option<Duration>)
    ensures
        is_millis(d, ms),
{
    match ms {
        Some(ms) => Some(Duration::from_millis(ms)),
        None => None,
    }
}

/// Answers for the manager of any number of registered databases. The methods
/// turn what the manager's core came to into the host's answer.
#[derive(Debug, Clone, Copy, PartialEq, Eq, Structural)]
pub struct LitersManager {
    /// Whether the app supplied an HTTP client, shared by every HTTP-backed
    /// registration.
    pub host_transport: bool,
    /// Push cadence of the registrations without one of their own; `None`
    /// where those push on `push_now` alone.
    pub default_push_interval: Option<Duration>,
}

impl Default for LitersManager {
    fn default() -> (m: LitersManager)
        ensures
            m == (LitersManager { host_transport: false, default_push_interval: None }),
    {
        LitersManager::new()
    }
}

impl LitersManager {
    /// A manager without an HTTP client of the app's and without a default
    /// push interval: databases push on `push_now` unless registered with an
    /// interval of their own.
    pub fn new() -> (m: LitersManager)
        ensures
            m == (LitersManager { host_transport: false, default_push_interval: None }),
    {
        LitersManager::with_options(None, false)
    }

    /// A manager with the host's default push interval, and with the app's
    /// HTTP client where one was supplied.
    pub fn with_options(default_push_interval_ms: Option<u64>, host_transport: bool) -> (m:
        LitersManager)
        ensures
            m.host_transport == host_transport,
            is_millis(m.default_push_interval, default_push_interval_ms),
    {
        LitersManager { host_transport, default_push_interval: millis(default_push_interval_ms) }
    }

    /// The registration of a local database to push to `storage`.
    pub fn register_push(
        &self,
        storage: Storage,
        push_interval_ms: Option<u64>,
        maintenance_interval_ms: Option<u64>,
    ) -> (r: PushConfig)
        ensures
            r.storage == config_of(storage, self.host_transport),
            r.writer_options.busy_timeout.total() == 1_000_000_000,
            r.writer_options.min_checkpoint_page_n == 1000,
            r.writer_options.truncate_page_n == 121_359,
            r.writer_options.auto_checkpoint,
            is_millis(r.push_interval, push_interval_ms),
            is_millis(r.maintenance_interval, maintenance_interval_ms),
    {
        PushConfig {
            storage: self.storage_config(storage),
            writer_options: WriterOptions::default(),
            push_interval: millis(push_interval_ms),
            maintenance_interval: millis(maintenance_interval_ms),
        }
    }

    /// The registration of a local path to follow the bucket in `storage`: the
    /// defaults, but for what the host chose. Without a poll interval of the
    /// host's, polling is once a second.
    pub fn register_follow(
        &self,
        storage: Storage,
        auto_reset: bool,
        poll_interval_ms: Option<u64>,
        retry: bool,
    ) -> (r: FollowConfig)
        ensures
            r.storage == config_of(storage, self.host_transport),
            r.replica_options.auto_reset == auto_reset,
            r.replica_options.integrity_check == IntegrityCheck::Quick,
            r.replica_options.use_file_locks,
            r.replica_options.lock_timeout.total() == 5_000_000_000,
            r.follow_options.retry == retry,
            r.follow_options.poll_interval.total() == match poll_interval_ms {
                Some(ms) => ms * 1_000_000,
                None => 1_000_000_000,
            },
    {
        let mut replica_options = ReplicaOptions::default();
        replica_options.auto_reset = auto_reset;
        let mut follow_options = FollowOptions::default();
        match poll_interval_ms {
            Some(ms) => {
                follow_options.poll_interval = Duration::from_millis(ms);
            },
            None => {},
        }
        follow_options.retry = retry;
        FollowConfig { storage: self.storage_config(storage), replica_options, follow_options }
    }

    /// What the host is told of a registration. A duplicate id or path errors.
    pub fn registered(&self, outcome: core::result::Result<(), Error>) -> (r: core::result::Result<
        (),
        LitersError,
    >)
        ensures
            answer(r) == told(outcome),
    {
        self.forward(outcome)
    }

    /// The configuration for a registration's storage.
    pub fn storage_config(&self, storage: Storage) -> (r: StorageConfig)
        ensures
            r == config_of(storage, self.host_transport),
    {
        storage.into_config_with(self.host_transport)
    }

    /// Removes a registration. Unknown id errors.
    pub fn unregister(&self, outcome: core::result::Result<(), Error>) -> (r: core::result::Result<
        (),
        LitersError,
    >)
        ensures
            answer(r) == told(outcome),
    {
        self.forward(outcome)
    }

    /// Puts one database to sleep until it is resumed.
    pub fn sleep(&self, outcome: core::result::Result<(), Error>) -> (r: core::result::Result<
        (),
        LitersError,
    >)
        ensures
            answer(r) == told(outcome),
    {
        self.forward(outcome)
    }

    /// Wakes a sleeping database.
    pub fn resume(&self, outcome: core::result::Result<(), Error>) -> (r: core::result::Result<
        (),
        LitersError,
    >)
        ensures
            answer(r) == told(outcome),
    {
        self.forward(outcome)
    }

    /// Nudges a push registration to run a round now.
    pub fn push_now(&self, outcome: core::result::Result<(), Error>) -> (r: core::result::Result<
        (),
        LitersError,
    >)
        ensures
            answer(r) == told(outcome),
    {
        self.forward(outcome)
    }

    /// Forces a follow registration to resync now.
    pub fn sync_now(&self, outcome: core::result::Result<(), Error>) -> (r: core::result::Result<
        (),
        LitersError,
    >)
        ensures
            answer(r) == told(outcome),
    {
        self.forward(outcome)
    }

    fn forward(&self, outcome: core::result::Result<(), Error>) -> (r: core::result::Result<
        (),
        LitersError,
    >)
        ensures
            answer(r) == told(outcome),
    {
        match outcome {
            Ok(()) => Ok(()),
            Err(e) => Err(map_error(e)),
        }
    }

    /// Status of one registered database, or `None` for an unknown id.
    pub fn status(&self, found: Option<manager::DbStatus>) -> (r: Option<DbStatus>)
        ensures
            r == status_told(found),
    {
        match found {
            Some(s) => Some(map_status(s)),
            None => None,
        }
    }

    /// Statuses of all registered databases, in the order given: that of the
    /// manager's core, which sorts them by id.
    pub fn statuses(&self, all: Vec<manager::DbStatus>) -> (r: Vec<DbStatus>)
        ensures
            r@ == statuses_told(all@),
    {
        let mut list: Vec<DbStatus> = Vec::new();
        for s in it: all
            invariant
                it.seq() == all@,
                list@.len() == it.index(),
                forall|i: int|
                    0 <= i < list@.len() ==> (#[trigger] list@[i]) == mapped_status(all@[i]),
        {
            list.push(map_status(s));
        }
        assert(list@ =~= statuses_told(all@));
        list
    }
}

/// What the host is told of one registered database, if it was found.
pub open spec fn status_told(found: Option<manager::DbStatus>) -> Option<DbStatus> {
    match found {
        Some(s) => Some(mapped_status(s)),
        None => None,
    }
}

/// What the host is told of all registered databases.
pub open spec fn statuses_told(all: Seq<manager::DbStatus>) -> Seq<DbStatus> {
    Seq::new(all.len(), |i: int| mapped_status(all[i]))
}

/// Whether the text `a` sorts before `b`: by the first character in which they
/// differ, else by length.
pub open spec fn sorts_before(a: Seq<char>, b: Seq<char>) -> bool
    decreases a.len(),
{
    if b.len() == 0 {
        false
    } else if a.len() == 0 {
        true
    } else if a[0] == b[0] {
        sorts_before(a.skip(1), b.skip(1))
    } else {
        (a[0] as u32) < (b[0] as u32)
    }
}

/// Whether the texts come in strictly increasing order.
pub open spec fn increasing(ids: Seq<Seq<char>>) -> bool {
    forall|i: int, j: int|
        0 <= i < j < ids.len() ==> sorts_before(#[trigger] ids[i], #[trigger] ids[j])
}

/// The ids of the registered databases, in the manager's order.
pub open spec fn registered_ids(all: Seq<manager::DbStatus>) -> Seq<Seq<char>> {
    Seq::new(all.len(), |i: int| all[i].id@)
}

/// The ids that the host is told of.
pub open spec fn told_ids(told: Seq<DbStatus>) -> Seq<Seq<char>> {
    Seq::new(told.len(), |i: int| told[i].id@)
}

/// Whether `found` is the registered database of this id, and `None` where
/// there is none.
pub open spec fn looked_up(
    all: Seq<manager::DbStatus>,
    id: Seq<char>,
    found: Option<manager::DbStatus>,
) -> bool {
    match found {
        Some(s) => s.id@ == id && all.contains(s),
        None => !registered_ids(all).contains(id),
    }
}

proof fn lemma_not_before_itself(a: Seq<char>)
    ensures
        !sorts_before(a, a),
    decreases a.len(),
{
    if a.len() > 0 {
        lemma_not_before_itself(a.skip(1));
    }
}

/// The host is told of each registered database once, sorted by id; and asked
/// for one id, it is told of that database, just as in the list of all, or of
/// none where the list has no such id.
pub proof fn lemma_statuses_by_id(
    all: Seq<manager::DbStatus>,
    id: Seq<char>,
    found: Option<manager::DbStatus>,
)
    requires
        increasing(registered_ids(all)),
        looked_up(all, id, found),
    ensures
        ({
            let told = statuses_told(all);
            &&& told_ids(told) == registered_ids(all)
            &&& increasing(told_ids(told))
            &&& told_ids(told).no_duplicates()
            &&& status_told(found) is Some <==> told_ids(told).contains(id)
            &&& status_told(found) matches Some(s) ==> s.id@ == id && told.contains(s)
        }),
{
    let told = statuses_told(all);
    let ids = told_ids(told);
    assert(ids =~= registered_ids(all));
    assert forall|i: int, j: int| 0 <= i < j < ids.len() implies ids[i] != ids[j] by {
        lemma_not_before_itself(ids[i]);
    }
    match found {
        Some(s) => {
            let i = choose|i: int| 0 <= i < all.len() && all[i] == s;
            assert(ids[i] == id);
            assert(told[i] == mapped_status(s));
        },
        None => {},
    }
}

/// A storage keeps its place: the directory, the bucket with its prefix and
/// everything needed to reach it, or the address with its token. No writer id
/// is set, and the app's HTTP client matters to HTTP alone.
pub proof fn lemma_storage_kept(s: Storage, host_transport: bool)
    ensures
        match (s, config_of(s, host_transport)) {
            (Storage::Dir { path }, StorageConfig::Dir { path: p }) => p == path,
            (
                Storage::S3 {
                    bucket,
                    prefix,
                    endpoint,
                    region,
                    access_key_id,
                    secret_access_key,
                    force_path_style,
                    allow_http,
                },
                StorageConfig::S3 { config },
            ) => {
                &&& config.bucket == bucket && config.prefix == prefix
                &&& config.endpoint == endpoint && config.region == region
                &&& config.access_key_id == access_key_id
                &&& config.secret_access_key == secret_access_key
                &&& config.force_path_style == force_path_style
                &&& config.allow_http == allow_http
            },
            (
                Storage::Http { url, auth_token },
                StorageConfig::Http { url: u, auth_token: t, writer_id, host_transport: h },
            ) => u == url && t == auth_token && writer_id is None && h == host_transport,
            _ => false,
        },
        !(s is Http) ==> config_of(s, true) == config_of(s, false),
{
}

/// What the host is told of each error: a cancellation, at whichever layer it
/// was noticed, without words, and else the error's own message, under the one
/// heading that fits.
pub proof fn lemma_errors_told(e: ErrorView)
    ensures
        mapped_error(e) is Cancelled <==> e is Cancelled || e == ErrorView::Storage(
            StorageErrorView::Cancelled,
        ),
        mapped_error(e) is Diverged <==> e is Diverged,
        mapped_error(e) is Conflict <==> (e matches ErrorView::Storage(s) && s is Conflict),
        mapped_error(e) is Unauthorized <==> (e matches ErrorView::Storage(s) && s is Unauthorized),
        mapped_error(e) is Storage <==> e is Io || (e matches ErrorView::Storage(s) && (s is Unavailable
            || s is NotFound)),
        match mapped_error(e) {
            LitersErrorView::Cancelled => true,
            LitersErrorView::Diverged(m) => m == e.text(),
            LitersErrorView::Storage(m) => m == e.text(),
            LitersErrorView::Conflict(m) => m == e.text(),
            LitersErrorView::Unauthorized(m) => m == e.text(),
            LitersErrorView::Other(m) => m == e.text(),
        },
{
}

/// The host's message ends with the error's own, whole; only an error without
/// a heading stands alone.
pub proof fn lemma_message_whole(m: Seq<char>)
    ensures
        ({
            let ends = |t: Seq<char>| t.len() > m.len() && t.skip(t.len() - m.len()) == m;
            &&& ends(LitersErrorView::Diverged(m).text())
            &&& ends(LitersErrorView::Storage(m).text())
            &&& ends(LitersErrorView::Conflict(m).text())
            &&& ends(LitersErrorView::Unauthorized(m).text())
        }),
        LitersErrorView::Other(m).text() == m,
{
    reveal_strlit("diverged: ");
    reveal_strlit("storage: ");
    reveal_strlit("conflict: ");
    reveal_strlit("unauthorized: ");
    let d = LitersErrorView::Diverged(m).text();
    let s = LitersErrorView::Storage(m).text();
    let c = LitersErrorView::Conflict(m).text();
    let u = LitersErrorView::Unauthorized(m).text();
    assert(d.skip(d.len() - m.len()) =~= m);
    assert(s.skip(s.len() - m.len()) =~= m);
    assert(c.skip(c.len() - m.len()) =~= m);
    assert(u.skip(u.len() - m.len()) =~= m);
}

/// The host is told the numbers of a push, a sync and a maintenance round as
/// they are, each under its own name.
pub proof fn lemma_numbers_told(p: PushSummary, r: PushResult, s: SyncResult, m: MaintenanceResult)
    requires
        summarizes(p, r),
    ensures
        p.txid == r.txid.0 && p.remote_txid == r.remote_txid.0,
        p.uploaded == r.uploaded && p.bytes_uploaded == r.bytes_uploaded,
        p.synced == r.synced && p.checkpointed == r.checkpointed && p.snapshotted == r.snapshotted,
        p.snapshot_reason is Some <==> r.snapshot_reason is Some,
        r.snapshot_reason matches Some(t) ==> p.snapshot_reason->Some_0@ == t@,
        sync_told(s).from_txid == s.from_txid.0 && sync_told(s).to_txid == s.to_txid.0,
        sync_told(s).restored == s.restored,
        maintenance_told(m).compacted_levels == m.compacted_levels,
        maintenance_told(m).snapshot_txid is Some <==> m.snapshot is Some,
        m.snapshot matches Some(t) ==> maintenance_told(m).snapshot_txid == Some(t.0),
        maintenance_told(m).deleted_files == m.deleted,
{
}

/// The host is told of a database by its own id, role, position and error, of
/// its times in milliseconds, and of its state by name; a wait keeps its count.
pub proof fn lemma_status_kept(s: manager::DbStatus)
    ensures
        ({
            let r = mapped_status(s);
            &&& r.id == s.id
            &&& r.role == DbRole::Push <==> s.role == manager::DbRole::Push
            &&& r.last_error == s.last_error
            &&& r.position is Some <==> s.position is Some
            &&& s.position matches Some(t) ==> r.position == Some(t.0)
            &&& r.last_activity_ms is Some <==> s.last_activity is Some
            &&& s.last_activity matches Some(t) ==> tells_time(t, r.last_activity_ms->Some_0)
            &&& match (s.state, r.state) {
                (manager::DbState::Idle, DbState::Idle) => true,
                (manager::DbState::Working, DbState::Working) => true,
                (manager::DbState::Sleeping, DbState::Sleeping) => true,
                (manager::DbState::Failed, DbState::Failed) => true,
                (
                    manager::DbState::BackingOff { until, attempt },
                    DbState::BackingOff { until_ms, attempt: n },
                ) => n == attempt && tells_time(until, until_ms),
                _ => false,
            }
        }),
{
    if let Some(t) = s.last_activity {
        lemma_millis_passed(t);
    }
    if let manager::DbState::BackingOff { until, .. } = s.state {
        lemma_millis_passed(until);
    }
}

/// Whether `ms` whole milliseconds had passed since the epoch at `t`; none
/// before it. Nothing is asked of a time that 64 bits of milliseconds cannot
/// hold.
pub open spec fn tells_time(t: Timestamp, ms: u64) -> bool {
    match t {
        Timestamp::BeforeEpoch(_) => ms == 0,
        Timestamp::AfterEpoch(d) => d.total() < 0x1_0000_0000_0000_0000 * 1_000_000 ==> ms * 1_000_000
            <= d.total() < (ms + 1) * 1_000_000,
    }
}

/// An object that was opened takes every operation until it is closed, however
/// many were started or cancelled before.
pub proof fn lemma_open_until_closed(ops: Seq<SessionOp>)
    requires
        forall|i: int| 0 <= i < ops.len() ==> !(#[trigger] ops[i] is Close),
    ensures
        ({
            let s = session_run(Session { open: true, closed: false, cancelled: false }, ops);
            &&& !refuses(s)
            &&& s.open && !s.closed
            &&& s.cancelled <==> ops.len() > 0 && ops.last() is Cancel
        }),
    decreases ops.len(),
{
    if ops.len() > 0 {
        let front = ops.drop_last();
        assert forall|i: int| 0 <= i < front.len() implies !(#[trigger] front[i] is Close) by {
            assert(front[i] == ops[i]);
        }
        lemma_open_until_closed(front);
        assert(!(ops[ops.len() - 1] is Close));
    }
}

/// An event reaches the host under its own name and id.
pub proof fn lemma_events_told(e: manager::ManagerEvent, r: ManagerEvent)
    requires
        event_told(e, r),
    ensures
        match (e, r) {
            (
                manager::ManagerEvent::StateChanged { id, state },
                ManagerEvent::StateChanged { id: i, state: s },
            ) => i == id && s == mapped_state(state),
            (
                manager::ManagerEvent::PushCompleted { id, result },
                ManagerEvent::PushCompleted { id: i, result: p },
            ) => i == id && p.txid == result.txid.0 && p.uploaded == result.uploaded,
            (
                manager::ManagerEvent::SyncCompleted { id, result },
                ManagerEvent::SyncCompleted { id: i, result: s },
            ) => i == id && s.restored == result.restored && s.from_txid == result.from_txid.0
                && s.to_txid == result.to_txid.0,
            (
                manager::ManagerEvent::Error { id, message, transient },
                ManagerEvent::Error { id: i, message: m, transient: t },
            ) => i == id && m == message && t == transient,
            _ => false,
        },
{
}

} // verus!
