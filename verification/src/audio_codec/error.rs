//! The failures of the codec.

use vstd::prelude::*;
use vstd::std_specs::convert::FromSpecImpl;
use crate::io::IoError;

verus! {

/// Why the codec refused an input. Every failure is reported where it is
/// found; nothing is retried.
#[derive(Debug, Clone, PartialEq, Eq)]
pub enum Error {
    /// The byte source or sink failed.
    Io(IoError),
    /// No codec is defined for the representation and bit depth asked for.
    Conversion(String),
    /// The container does not start as it must.
    WrongHeader,
    /// The format chunk is missing or its structure is broken.
    WrongFmt,
    /// A declared value is not acceptable; the text says which.
    WrongFmtInfo(String),
    Custom(String),
}

/// An [`Error`] with its texts as character sequences.
pub enum ErrorView {
    Io(IoError),
    Conversion(Seq<char>),
    WrongHeader,
    WrongFmt,
    WrongFmtInfo(Seq<char>),
    Custom(Seq<char>),
}

impl View for Error {
    type V = ErrorView;

    open spec fn view(&self) -> ErrorView {
        match self {
            Error::Io(e) => ErrorView::Io(*e),
            Error::Conversion(s) => ErrorView::Conversion(s@),
            Error::WrongHeader => ErrorView::WrongHeader,
            Error::WrongFmt => ErrorView::WrongFmt,
            Error::WrongFmtInfo(s) => ErrorView::WrongFmtInfo(s@),
            Error::Custom(s) => ErrorView::Custom(s@),
        }
    }
}

impl From<IoError> for Error {
    fn from(value: IoError) -> (r: Self) {
        Error::Io(value)
    }
}

impl FromSpecImpl<IoError> for Error {
    open spec fn obeys_from_spec() -> bool {
        true
    }

    open spec fn from_spec(v: IoError) -> Self {
        Error::Io(v)
    }
}

/// The failure of a source that ran out of bytes.
pub open spec fn end_of_stream() -> ErrorView {
    ErrorView::Io(IoError::UnexpectedEof)
}

/// Turns the failure of a byte source or sink into a failure of the codec.
pub fn lift<T>(r: Result<T, IoError>) -> (out: Result<T, Error>)
    ensures
        r matches Ok(v) ==> out == Ok::<T, Error>(v),
        r matches Err(e) ==> out == Err::<T, Error>(Error::Io(e)),
{
    match r {
        Ok(v) => Ok(v),
        Err(e) => Err(Error::Io(e)),
    }
}

/// A rejected value, with the reason in words.
pub fn wrong_fmt_info(reason: &str) -> (e: Error)
    ensures
        e@ == ErrorView::WrongFmtInfo(reason@),
{
    Error::WrongFmtInfo(String::from_str(reason))
}

} // verus!
