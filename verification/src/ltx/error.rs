//! Errors of the LTX codec.

use vstd::prelude::*;
use vstd::string::*;

use crate::io::IoError;
#[allow(unused_imports)]
use crate::io::IoErrorView;

verus! {

/// What can go wrong while reading or validating LTX data.
#[derive(Debug)]
pub enum Error {
    /// The input could not be read.
    Io(IoError),
    /// The input is no LTX file.
    InvalidFile,
    /// A frame breaks one of the format's rules, named by the message.
    Invalid(String),
    /// A page's LZ4 frame could not be decoded.
    Lz4(String),
}

/// The mathematical counterpart of [`Error`].
#[verifier::ext_equal]
pub enum ErrorView {
    Io(IoErrorView),
    InvalidFile,
    Invalid(Seq<char>),
    Lz4(Seq<char>),
}

impl View for Error {
    type V = ErrorView;

    open spec fn view(&self) -> ErrorView {
        match self {
            Error::Io(e) => ErrorView::Io(e@),
            Error::InvalidFile => ErrorView::InvalidFile,
            Error::Invalid(m) => ErrorView::Invalid(m@),
            Error::Lz4(m) => ErrorView::Lz4(m@),
        }
    }
}

/// A result with its error taken by its view.
pub open spec fn outcome<T>(r: core::result::Result<T, Error>) -> core::result::Result<T, ErrorView> {
    match r {
        Ok(v) => Ok(v),
        Err(e) => Err(e@),
    }
}

impl ErrorView {
    /// The message of the error.
    pub open spec fn text(self) -> Seq<char> {
        match self {
            ErrorView::Io(e) => e.message,
            ErrorView::InvalidFile => "invalid LTX file"@,
            ErrorView::Invalid(m) => m,
            ErrorView::Lz4(m) => "lz4: "@ + m,
        }
    }
}

impl Error {
    /// An [`Error::Invalid`] with the given message.
    pub fn invalid(msg: &str) -> (e: Error)
        ensures
            e@ == ErrorView::Invalid(msg@),
    {
        Error::Invalid(String::from_str(msg))
    }

    /// The message of the error.
    pub fn to_string(&self) -> (s: String)
        ensures
            s@ == self@.text(),
    {
        match self {
            Error::Io(e) => e.message.clone(),
            Error::InvalidFile => String::from_str("invalid LTX file"),
            Error::Invalid(m) => m.clone(),
            Error::Lz4(m) => {
                let mut s = String::from_str("lz4: ");
                s.append(m.as_str());
                s
            },
        }
    }
}

} // verus!
