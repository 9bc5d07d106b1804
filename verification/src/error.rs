//! Errors of replication.

use vstd::prelude::*;
use vstd::string::*;

use crate::io::IoError;
#[allow(unused_imports)]
use crate::io::IoErrorView;
use crate::ltx;
#[allow(unused_imports)]
use crate::ltx::types::lemma_txid_roundtrip;
use crate::ltx::Txid;
use crate::storage::StorageError;
#[allow(unused_imports)]
use crate::storage::StorageErrorView;
use crate::text::push_signed;
#[allow(unused_imports)]
use crate::text::{dec_value, int_text, lemma_decimal_form, lemma_hex_text_len};
use crate::time::Duration;
#[allow(unused_imports)]
use crate::time::span_text;

verus! {

/// Errors from replication.
#[derive(Debug)]
pub enum Error {
    /// SQLite's message.
    Sqlite(String),
    Ltx(ltx::Error),
    /// The WAL reader's message.
    Wal(String),
    Storage(StorageError),
    Io(IoError),
    /// The database is not in WAL journal mode and could not be switched.
    EnableWalFailed(String),
    /// A local L0 LTX file expected by the writer is missing or corrupt.
    /// Recoverable by resetting local state (which forces a snapshot).
    LocalLtx { txid: Txid, msg: String },
    /// The local replica has diverged from the bucket (bucket wiped or
    /// reseeded at a lower TXID); a reset + full re-restore is required.
    Diverged { local: Txid, remote: Txid },
    /// The requested transaction cannot be reconstructed from the bucket —
    /// typically an empty (not-yet-seeded) bucket.
    TxNotAvailable,
    /// A conflicting lock on the replica file outlived the lock timeout, so
    /// the applier gave up instead of waiting indefinitely. The holder is
    /// another *process*, typically a reader with an open SQLite transaction
    /// against the replica.
    ///
    /// Nothing was written: the lock is taken before the first page, so the
    /// local replica and its position sidecar are exactly as they were. The
    /// sync is safe to retry, and [`Error::is_transient`] reports it as
    /// retryable.
    LockBusy {
        /// Which of SQLite's two lock ranges was contended: `"PENDING"` or
        /// `"SHARED"`.
        lock: &'static str,
        /// How long acquisition of that range was attempted before giving up.
        waited: Duration,
        /// PID of a process holding a conflicting lock, if the kernel
        /// reported one.
        holder_pid: Option<i32>,
    },
    /// The caller cancelled the operation.
    Cancelled,
    Other(String),
}

/// Result alias for this crate.
pub type Result<T> = core::result::Result<T, Error>;

/// The mathematical counterpart of [`Error`].
#[verifier::ext_equal]
pub enum ErrorView {
    Sqlite(Seq<char>),
    Ltx(ltx::error::ErrorView),
    Wal(Seq<char>),
    Storage(StorageErrorView),
    Io(IoErrorView),
    EnableWalFailed(Seq<char>),
    LocalLtx { txid: Txid, msg: Seq<char> },
    Diverged { local: Txid, remote: Txid },
    TxNotAvailable,
    /// The wait in nanoseconds.
    LockBusy { lock: Seq<char>, waited: nat, holder_pid: Option<i32> },
    Cancelled,
    Other(Seq<char>),
}

impl View for Error {
    type V = ErrorView;

    open spec fn view(&self) -> ErrorView {
        match self {
            Error::Sqlite(m) => ErrorView::Sqlite(m@),
            Error::Ltx(e) => ErrorView::Ltx(e@),
            Error::Wal(m) => ErrorView::Wal(m@),
            Error::Storage(e) => ErrorView::Storage(e@),
            Error::Io(e) => ErrorView::Io(e@),
            Error::EnableWalFailed(m) => ErrorView::EnableWalFailed(m@),
            Error::LocalLtx { txid, msg } => ErrorView::LocalLtx { txid: *txid, msg: msg@ },
            Error::Diverged { local, remote } => ErrorView::Diverged {
                local: *local,
                remote: *remote,
            },
            Error::TxNotAvailable => ErrorView::TxNotAvailable,
            Error::LockBusy { lock, waited, holder_pid } => ErrorView::LockBusy {
                lock: lock@,
                waited: waited.total(),
                holder_pid: *holder_pid,
            },
            Error::Cancelled => ErrorView::Cancelled,
            Error::Other(m) => ErrorView::Other(m@),
        }
    }
}

/// A result with its error taken by its view.
pub open spec fn outcome<T>(r: Result<T>) -> core::result::Result<T, ErrorView> {
    match r {
        Ok(v) => Ok(v),
        Err(e) => Err(e@),
    }
}

/// The text of a string's `Debug` form, in quotes and escaped.
pub uninterp spec fn quoted_text(s: Seq<char>) -> Seq<char>;

/// `str`'s `Debug` form, which depends on the string alone.
#[verifier::external_body]
pub(crate) fn quoted(s: &str) -> (r: String)
    ensures
        r@ == quoted_text(s@),
{
    format!("{s:?}")
}

/// The text of a path's `Debug` form, in quotes and escaped.
pub uninterp spec fn quoted_path_text(path: Seq<char>) -> Seq<char>;

/// `std::path::Path`'s `Debug` form, which depends on the path alone. It may
/// escape other characters than that of a `str`.
#[verifier::external_body]
pub(crate) fn quoted_path(path: &str) -> (r: String)
    ensures
        r@ == quoted_path_text(path@),
{
    format!("{:?}", std::path::Path::new(path))
}

/// The message when WAL mode is refused; `mode` is the quoted mode.
pub open spec fn enable_wal_message(mode: Seq<char>) -> Seq<char> {
    "enable wal failed, mode="@ + mode
}

/// The message of a busy lock; `waited` is the text of the wait.
pub open spec fn lock_busy_message(lock: Seq<char>, waited: Seq<char>, holder_pid: Option<i32>) -> Seq<
    char,
> {
    let head = "replica file lock busy: could not take the SQLite "@ + lock + " lock within "@ + waited;
    match holder_pid {
        Some(p) => head + " (conflicting lock held by pid "@ + int_text(p as int) + ")"@,
        None => head,
    }
}

/// The message when WAL mode is refused, from the quoted mode.
pub fn enable_wal_text(mode: &str) -> (s: String)
    ensures
        s@ == enable_wal_message(mode@),
{
    let mut s = String::from_str("enable wal failed, mode=");
    s.append(mode);
    s
}

/// The message of a busy lock, from the text of the wait.
pub fn lock_busy_text(lock: &str, waited: &str, holder_pid: Option<i32>) -> (s: String)
    ensures
        s@ == lock_busy_message(lock@, waited@, holder_pid),
{
    let mut s = String::from_str("replica file lock busy: could not take the SQLite ");
    s.append(lock);
    s.append(" lock within ");
    s.append(waited);
    match holder_pid {
        Some(p) => {
            s.append(" (conflicting lock held by pid ");
            push_signed(&mut s, p as i64);
            s.append(")");
        },
        None => {},
    }
    s
}

impl ErrorView {
    /// The message of the error.
    pub open spec fn text(self) -> Seq<char> {
        match self {
            ErrorView::Sqlite(m) => "sqlite: "@ + m,
            ErrorView::Ltx(e) => "ltx: "@ + e.text(),
            ErrorView::Wal(m) => "wal: "@ + m,
            ErrorView::Storage(e) => "storage: "@ + e.text(),
            ErrorView::Io(e) => e.message,
            ErrorView::EnableWalFailed(m) => enable_wal_message(quoted_text(m)),
            ErrorView::LocalLtx { txid, msg } => "local ltx file missing or corrupt: txid "@
                + txid.text() + ": "@ + msg,
            ErrorView::Diverged { local, remote } => "replica diverged: local txid "@ + local.text()
                + " ahead of bucket max "@ + remote.text(),
            ErrorView::TxNotAvailable => "transaction not available"@,
            ErrorView::LockBusy { lock, waited, holder_pid } => lock_busy_message(
                lock,
                span_text(waited),
                holder_pid,
            ),
            ErrorView::Cancelled => "operation cancelled"@,
            ErrorView::Other(m) => m,
        }
    }

    /// Whether retrying the same operation later can plausibly succeed.
    pub open spec fn transient(self) -> bool {
        match self {
            ErrorView::Storage(e) => e is Unavailable,
            ErrorView::Io(_) => true,
            ErrorView::LockBusy { .. } => true,
            _ => false,
        }
    }
}

/// Storage-level cancellation surfaces as [`Error::Cancelled`] so callers
/// match a single variant no matter which layer observed the token.
impl From<StorageError> for Error {
    fn from(e: StorageError) -> (r: Error) {
        match e {
            StorageError::Cancelled => Error::Cancelled,
            e => Error::Storage(e),
        }
    }
}

impl vstd::std_specs::convert::FromSpecImpl<StorageError> for Error {
    open spec fn obeys_from_spec() -> bool {
        true
    }

    open spec fn from_spec(e: StorageError) -> Error {
        if e is Cancelled {
            Error::Cancelled
        } else {
            Error::Storage(e)
        }
    }
}

impl Error {
    /// An [`Error::Other`] with the given message.
    pub fn other(msg: &str) -> (e: Error)
        ensures
            e@ == ErrorView::Other(msg@),
    {
        Error::Other(String::from_str(msg))
    }

    /// Whether retrying the same operation later can plausibly succeed:
    /// transient storage failures, local I/O hiccups, and a busy replica-file
    /// lock (the holding reader commits eventually). Divergence, integrity
    /// errors, and cancellation are never transient.
    pub fn is_transient(&self) -> (r: bool)
        ensures
            r == self@.transient(),
    {
        match self {
            Error::Storage(e) => e.is_transient(),
            Error::Io(_) => true,
            Error::LockBusy { .. } => true,
            _ => false,
        }
    }

    /// The message of the error.
    pub fn to_string(&self) -> (s: String)
        ensures
            s@ == self@.text(),
    {
        match self {
            Error::Sqlite(m) => {
                let mut s = String::from_str("sqlite: ");
                s.append(m.as_str());
                s
            },
            Error::Ltx(e) => {
                let mut s = String::from_str("ltx: ");
                s.append(e.to_string().as_str());
                s
            },
            Error::Wal(m) => {
                let mut s = String::from_str("wal: ");
                s.append(m.as_str());
                s
            },
            Error::Storage(e) => {
                let mut s = String::from_str("storage: ");
                s.append(e.to_string().as_str());
                s
            },
            Error::Io(e) => e.message.clone(),
            Error::EnableWalFailed(m) => enable_wal_text(quoted(m.as_str()).as_str()),
            Error::LocalLtx { txid, msg } => {
                let mut s = String::from_str("local ltx file missing or corrupt: txid ");
                s.append(txid.to_string().as_str());
                s.append(": ");
                s.append(msg.as_str());
                s
            },
            Error::Diverged { local, remote } => {
                let mut s = String::from_str("replica diverged: local txid ");
                s.append(local.to_string().as_str());
                s.append(" ahead of bucket max ");
                s.append(remote.to_string().as_str());
                s
            },
            Error::TxNotAvailable => String::from_str("transaction not available"),
            Error::LockBusy { lock, waited, holder_pid } => lock_busy_text(
                lock,
                waited.to_text().as_str(),
                *holder_pid,
            ),
            Error::Cancelled => String::from_str("operation cancelled"),
            Error::Other(m) => m.clone(),
        }
    }
}

/// Divergence, integrity errors, and cancellation are never transient.
pub proof fn lemma_never_transient(e: ErrorView)
    ensures
        e is Diverged || e is Ltx || e is LocalLtx || e is Cancelled || e == ErrorView::Storage(
            StorageErrorView::Cancelled,
        ) ==> !e.transient(),
{
}

/// Worth a retry are failures of the system, a busy lock and a bucket that
/// could not be reached, and nothing else. An error of the storage is carried
/// over as it is, but for a cancellation, which is the operation's own.
pub proof fn lemma_worth_a_retry(e: ErrorView, s: StorageError)
    ensures
        e.transient() <==> e is Io || e is LockBusy || (e matches ErrorView::Storage(x) && x
            is Unavailable),
        ({
            let carried = <Error as vstd::std_specs::convert::FromSpec<StorageError>>::from_spec(s);
            &&& carried@ is Cancelled <==> s is Cancelled
            &&& !(s is Cancelled) ==> carried@ == ErrorView::Storage(s@)
            &&& carried@.transient() <==> s is Unavailable
        }),
{
}

/// Messages name what they are about. A divergence names both positions, a
/// broken local file its transaction, each in the digits that read back to it;
/// and the message of what went wrong below stands at the end, whole.
pub proof fn lemma_messages_name_cause(
    local: Txid,
    remote: Txid,
    m: Seq<char>,
    ltx: crate::ltx::error::ErrorView,
    storage: StorageErrorView,
)
    ensures
        ({
            let t = ErrorView::Diverged { local, remote }.text();
            &&& t.len() >= 61
            &&& Txid::parsed(t.subrange(29, 45)) == Some(local)
            &&& Txid::parsed(t.skip(t.len() - 16)) == Some(remote)
        }),
        ({
            let t = ErrorView::LocalLtx { txid: local, msg: m }.text();
            &&& t.len() == 58 + m.len()
            &&& Txid::parsed(t.subrange(40, 56)) == Some(local)
            &&& t.skip(58) == m
        }),
        ({
            let ends = |t: Seq<char>, part: Seq<char>|
                t.len() > part.len() && t.skip(t.len() - part.len()) == part;
            &&& ends(ErrorView::Sqlite(m).text(), m)
            &&& ends(ErrorView::Wal(m).text(), m)
            &&& ends(ErrorView::Ltx(ltx).text(), ltx.text())
            &&& ends(ErrorView::Storage(storage).text(), storage.text())
            &&& ends(ErrorView::EnableWalFailed(m).text(), quoted_text(m))
        }),
{
    reveal_strlit("replica diverged: local txid ");
    reveal_strlit(" ahead of bucket max ");
    reveal_strlit("local ltx file missing or corrupt: txid ");
    reveal_strlit(": ");
    reveal_strlit("sqlite: ");
    reveal_strlit("wal: ");
    reveal_strlit("ltx: ");
    reveal_strlit("storage: ");
    reveal_strlit("enable wal failed, mode=");
    lemma_hex_text_len(local.0 as nat, 16);
    lemma_hex_text_len(remote.0 as nat, 16);
    lemma_txid_roundtrip(local, Seq::empty());
    lemma_txid_roundtrip(remote, Seq::empty());
    let d = ErrorView::Diverged { local, remote }.text();
    assert(d.subrange(29, 45) =~= local.text());
    assert(d.skip(d.len() - 16) =~= remote.text());
    let f = ErrorView::LocalLtx { txid: local, msg: m }.text();
    assert(f.subrange(40, 56) =~= local.text());
    assert(f.skip(58) =~= m);
    let (a, b) = (ErrorView::Sqlite(m).text(), ErrorView::Wal(m).text());
    assert(a.skip(a.len() - m.len()) =~= m);
    assert(b.skip(b.len() - m.len()) =~= m);
    let (x, xt) = (ErrorView::Ltx(ltx).text(), ltx.text());
    assert(x.skip(x.len() - xt.len()) =~= xt);
    let (y, yt) = (ErrorView::Storage(storage).text(), storage.text());
    assert(y.skip(y.len() - yt.len()) =~= yt);
    let (z, zt) = (ErrorView::EnableWalFailed(m).text(), quoted_text(m));
    assert(z.skip(z.len() - zt.len()) =~= zt);
}

/// The message of a busy lock tells which lock it is and who holds it: with a
/// holder, its number in decimal digits stands before the closing bracket, and
/// the rest is the message without one.
pub proof fn lemma_busy_names_holder(lock: Seq<char>, waited: Seq<char>, pid: i32)
    ensures
        ({
            let bare = lock_busy_message(lock, waited, None);
            let full = lock_busy_message(lock, waited, Some(pid));
            &&& full.take(bare.len() as int) == bare
            &&& full.last() == ')'
            &&& bare.skip(bare.len() - waited.len()) == waited
            &&& bare.subrange(50, (50 + lock.len()) as int) == lock
            &&& pid >= 0 ==> dec_value(full.subrange((bare.len() + 31) as int, full.len() - 1)) == pid
        }),
{
    reveal_strlit("replica file lock busy: could not take the SQLite ");
    reveal_strlit(" lock within ");
    reveal_strlit(" (conflicting lock held by pid ");
    reveal_strlit(")");
    let bare = lock_busy_message(lock, waited, None);
    let full = lock_busy_message(lock, waited, Some(pid));
    assert(full.take(bare.len() as int) =~= bare);
    assert(bare.skip(bare.len() - waited.len()) =~= waited);
    assert(bare.subrange(50, (50 + lock.len()) as int) =~= lock);
    if pid >= 0 {
        lemma_decimal_form(pid as nat);
        assert(full.subrange((bare.len() + 31) as int, full.len() - 1) =~= int_text(pid as int));
    }
}

} // verus!
