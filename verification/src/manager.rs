//! What is known of a registered database from outside its worker.

use vstd::prelude::*;

use crate::ltx::Txid;
use crate::replica::SyncResult;
use crate::time::Timestamp;
use crate::writer::PushResult;

verus! {

/// Whether a registration pushes or follows.
#[derive(Debug, Clone, Copy, PartialEq, Eq, Structural)]
pub enum DbRole {
    Push,
    Follow,
}

/// Lifecycle state of one registered database.
#[derive(Debug, Clone, Copy, PartialEq, Eq)]
pub enum DbState {
    Idle,
    Working,
    /// A transient failure is waiting out its backoff delay; `attempt` is the
    /// consecutive-failure count.
    BackingOff { until: Timestamp, attempt: u32 },
    Sleeping,
    Failed,
}

/// Point-in-time snapshot of one registered database.
#[derive(Debug, Clone)]
pub struct DbStatus {
    pub id: String,
    pub role: DbRole,
    pub state: DbState,
    pub position: Option<Txid>,
    pub last_error: Option<String>,
    pub last_activity: Option<Timestamp>,
}

/// What an observer is told.
#[derive(Debug, Clone)]
pub enum ManagerEvent {
    StateChanged { id: String, state: DbState },
    PushCompleted { id: String, result: PushResult },
    SyncCompleted { id: String, result: SyncResult },
    Error { id: String, message: String, transient: bool },
}

} // verus!
