//! Failures of a replica bucket's storage.

use vstd::prelude::*;
use vstd::string::*;

use crate::ltx::types::format_filename;
#[allow(unused_imports)]
use crate::ltx::types::{
    filename_parsed, filename_text, lemma_filename_roundtrip, lemma_texts_by_form,
};
use crate::ltx::Txid;
use crate::text::push_decimal;
#[allow(unused_imports)]
use crate::text::{dec_text, dec_value, lemma_decimal_form};

verus! {

/// The level that holds full snapshots. Levels 1 up to it hold compacted
/// files, level 0 one file per pushed transaction.
pub const SNAPSHOT_LEVEL: u8 = 9;

/// What a storage backend reports.
#[derive(Debug)]
pub enum StorageError {
    /// The file is not in the bucket.
    NotFound { level: u8, min_txid: Txid, max_txid: Txid },
    /// The backend could not be reached. Worth a retry.
    Unavailable(String),
    /// The bucket's owner rejected the write.
    Conflict(String),
    /// Authentication is missing or was rejected.
    Unauthorized(String),
    /// The bucket accepts no writes.
    ReadOnly(String),
    /// The caller cancelled the operation.
    Cancelled,
    /// The backend does not speak the expected protocol.
    Other(String),
}

/// The mathematical counterpart of [`StorageError`].
#[verifier::ext_equal]
pub enum StorageErrorView {
    NotFound { level: u8, min_txid: Txid, max_txid: Txid },
    Unavailable(Seq<char>),
    Conflict(Seq<char>),
    Unauthorized(Seq<char>),
    ReadOnly(Seq<char>),
    Cancelled,
    Other(Seq<char>),
}

impl View for StorageError {
    type V = StorageErrorView;

    open spec fn view(&self) -> StorageErrorView {
        match self {
            StorageError::NotFound { level, min_txid, max_txid } => StorageErrorView::NotFound {
                level: *level,
                min_txid: *min_txid,
                max_txid: *max_txid,
            },
            StorageError::Unavailable(m) => StorageErrorView::Unavailable(m@),
            StorageError::Conflict(m) => StorageErrorView::Conflict(m@),
            StorageError::Unauthorized(m) => StorageErrorView::Unauthorized(m@),
            StorageError::ReadOnly(m) => StorageErrorView::ReadOnly(m@),
            StorageError::Cancelled => StorageErrorView::Cancelled,
            StorageError::Other(m) => StorageErrorView::Other(m@),
        }
    }
}

impl StorageErrorView {
    /// The message of the error.
    pub open spec fn text(self) -> Seq<char> {
        match self {
            StorageErrorView::NotFound { level, min_txid, max_txid } => "ltx file not found: level "@
                + dec_text(level as nat) + " "@ + filename_text(min_txid, max_txid),
            StorageErrorView::Unavailable(m) => m,
            StorageErrorView::Conflict(m) => m,
            StorageErrorView::Unauthorized(m) => m,
            StorageErrorView::ReadOnly(m) => m,
            StorageErrorView::Cancelled => "operation cancelled"@,
            StorageErrorView::Other(m) => m,
        }
    }
}

impl StorageError {
    /// Whether the same request can plausibly succeed later.
    pub fn is_transient(&self) -> (r: bool)
        ensures
            r == (self@ is Unavailable),
    {
        match self {
            StorageError::Unavailable(_) => true,
            _ => false,
        }
    }

    /// The message of the error.
    pub fn to_string(&self) -> (s: String)
        ensures
            s@ == self@.text(),
    {
        match self {
            StorageError::NotFound { level, min_txid, max_txid } => {
                let mut s = String::from_str("ltx file not found: level ");
                push_decimal(&mut s, *level as u64);
                s.append(" ");
                s.append(format_filename(*min_txid, *max_txid).as_str());
                s
            },
            StorageError::Unavailable(m) => m.clone(),
            StorageError::Conflict(m) => m.clone(),
            StorageError::Unauthorized(m) => m.clone(),
            StorageError::ReadOnly(m) => m.clone(),
            StorageError::Cancelled => String::from_str("operation cancelled"),
            StorageError::Other(m) => m.clone(),
        }
    }
}

/// The message for a missing file tells which one it is: the level in decimal
/// digits, then the file's name.
pub proof fn lemma_missing_file_named(level: u8, min_txid: Txid, max_txid: Txid)
    ensures
        ({
            let t = StorageErrorView::NotFound { level, min_txid, max_txid }.text();
            &&& t.len() >= 64
            &&& dec_value(t.subrange(26, t.len() - 38)) == level
            &&& filename_parsed(t.skip(t.len() - 37)) == Some((min_txid, max_txid))
        }),
{
    reveal_strlit("ltx file not found: level ");
    reveal_strlit(" ");
    let t = StorageErrorView::NotFound { level, min_txid, max_txid }.text();
    let name = filename_text(min_txid, max_txid);
    lemma_decimal_form(level as nat);
    lemma_filename_roundtrip(min_txid, max_txid, name);
    lemma_texts_by_form(name);
    assert(t.subrange(26, t.len() - 38) =~= dec_text(level as nat));
    assert(t.skip(t.len() - 37) =~= name);
}

} // verus!
