//! Input/output failures as plain values.

use vstd::prelude::*;
use vstd::string::*;

verus! {

/// The kinds of failure that this crate tells apart.
#[derive(Debug, Clone, Copy, PartialEq, Eq, Structural)]
pub enum IoErrorKind {
    NotFound,
    UnexpectedEof,
    InvalidData,
    Other,
}

/// A failed read or write: its kind and the system's message.
#[derive(Debug, Clone)]
pub struct IoError {
    pub kind: IoErrorKind,
    pub message: String,
}

/// The mathematical counterpart of [`IoError`].
#[verifier::ext_equal]
pub struct IoErrorView {
    pub kind: IoErrorKind,
    pub message: Seq<char>,
}

impl View for IoError {
    type V = IoErrorView;

    open spec fn view(&self) -> IoErrorView {
        IoErrorView { kind: self.kind, message: self.message@ }
    }
}

/// The view of an unexpected end of the input.
pub open spec fn eof_view(message: Seq<char>) -> IoErrorView {
    IoErrorView { kind: IoErrorKind::UnexpectedEof, message }
}

impl IoError {
    /// A failure of the given kind.
    pub fn new(kind: IoErrorKind, message: String) -> (e: IoError)
        ensures
            e@ == (IoErrorView { kind, message: message@ }),
    {
        IoError { kind, message }
    }

    /// An unexpected end of the input.
    pub fn unexpected_eof(message: &str) -> (e: IoError)
        ensures
            e@ == eof_view(message@),
    {
        IoError { kind: IoErrorKind::UnexpectedEof, message: String::from_str(message) }
    }
}

} // verus!
