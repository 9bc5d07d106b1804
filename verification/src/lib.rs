//! Replicates SQLite databases to buckets of LTX files, and materializes
//! buckets as read-only replicas.
//!
//! The library decides; it does no I/O. Formats ([`ltx`], [`text`], [`bytes`])
//! are functions on plain values. Where a decision alternates with outside
//! work, it is a state machine: a step takes what the last action came to and
//! gives the next action, and a spec function over views says what each step
//! is. The properties that span steps and functions stand beside them as
//! public proof functions.
//!
//! - The write side: [`writer`] plans each L0 file, [`verify`] decides where
//!   in the WAL to resume, [`push`] orders one push, [`upload`] guards the
//!   bucket's lineage.
//! - The read side: [`replica`] routes a sync, [`incremental`] catches up,
//!   [`restore`] starts from scratch, [`apply`] writes pages, [`lock`] waits
//!   for readers, [`follow`] stays current.
//! - The surface for host apps: [`ffi`], [`http`], [`manager`].

pub mod apply;
pub mod bytes;
pub mod error;
pub mod ffi;
pub mod follow;
pub mod http;
pub mod incremental;
pub mod io;
pub mod lock;
pub mod ltx;
pub mod manager;
pub mod push;
pub mod replica;
pub mod restore;
pub mod storage;
pub mod text;
pub mod time;
pub mod upload;
pub mod verify;
pub mod wal;
pub mod writer;

pub use error::{Error, Result};
pub use ltx::Txid;
pub use storage::StorageError;
