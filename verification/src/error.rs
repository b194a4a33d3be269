//! Error type of the library.

use vstd::prelude::*;

verus! {

/// Errors reported by demuxers, muxers and the I/O layer.
#[derive(Debug)]
pub enum TaoError {
    /// End of input reached.
    Eof,
    /// Malformed input data.
    InvalidData(String),
    /// A feature or value the library does not handle.
    Unsupported(String),
    /// An argument that the operation cannot accept.
    InvalidArgument(String),
    /// An operation that is not implemented for this format.
    NotImplemented(String),
    /// No container format matched.
    FormatNotFound(String),
    /// The requested stream does not exist.
    StreamNotFound(String),
    /// A codec related failure.
    Codec(String),
    /// A failure of the underlying I/O backend.
    Io(String),
}

/// The kind of an error, without its message.
#[derive(Debug, Clone, Copy, PartialEq, Eq, Structural)]
pub enum ErrorKind {
    /// `TaoError::Eof`.
    Eof,
    /// `TaoError::InvalidData`.
    InvalidData,
    /// `TaoError::Unsupported`.
    Unsupported,
    /// `TaoError::InvalidArgument`.
    InvalidArgument,
    /// `TaoError::NotImplemented`.
    NotImplemented,
    /// `TaoError::FormatNotFound`.
    FormatNotFound,
    /// `TaoError::StreamNotFound`.
    StreamNotFound,
    /// `TaoError::Codec`.
    Codec,
    /// `TaoError::Io`.
    Io,
}

impl TaoError {
    /// The kind of this error.
    pub open spec fn kind(&self) -> ErrorKind {
        match self {
            TaoError::Eof => ErrorKind::Eof,
            TaoError::InvalidData(_) => ErrorKind::InvalidData,
            TaoError::Unsupported(_) => ErrorKind::Unsupported,
            TaoError::InvalidArgument(_) => ErrorKind::InvalidArgument,
            TaoError::NotImplemented(_) => ErrorKind::NotImplemented,
            TaoError::FormatNotFound(_) => ErrorKind::FormatNotFound,
            TaoError::StreamNotFound(_) => ErrorKind::StreamNotFound,
            TaoError::Codec(_) => ErrorKind::Codec,
            TaoError::Io(_) => ErrorKind::Io,
        }
    }
}

impl TaoError {
    /// The message an error carries; empty for `Eof`.
    pub open spec fn text(&self) -> Seq<char> {
        match self {
            TaoError::Eof => Seq::empty(),
            TaoError::InvalidData(m) => m@,
            TaoError::Unsupported(m) => m@,
            TaoError::InvalidArgument(m) => m@,
            TaoError::NotImplemented(m) => m@,
            TaoError::FormatNotFound(m) => m@,
            TaoError::StreamNotFound(m) => m@,
            TaoError::Codec(m) => m@,
            TaoError::Io(m) => m@,
        }
    }

    /// The message this error carries.
    pub fn message(&self) -> (r: &str)
        ensures
            r@ == self.text(),
    {
        match self {
            TaoError::Eof => {
                proof {
                    reveal_strlit("");
                }
                ""
            },
            TaoError::InvalidData(m) => m.as_str(),
            TaoError::Unsupported(m) => m.as_str(),
            TaoError::InvalidArgument(m) => m.as_str(),
            TaoError::NotImplemented(m) => m.as_str(),
            TaoError::FormatNotFound(m) => m.as_str(),
            TaoError::StreamNotFound(m) => m.as_str(),
            TaoError::Codec(m) => m.as_str(),
            TaoError::Io(m) => m.as_str(),
        }
    }
}

/// Result type used throughout the library.
pub type TaoResult<T> = Result<T, TaoError>;

/// Builds an `InvalidData` error from a message.
pub fn invalid_data(msg: &str) -> (e: TaoError)
    ensures
        e matches TaoError::InvalidData(m) && m@ == msg@,
{
    TaoError::InvalidData(String::from_str(msg))
}

/// Builds an `Unsupported` error from a message.
pub fn unsupported(msg: &str) -> (e: TaoError)
    ensures
        e matches TaoError::Unsupported(m) && m@ == msg@,
{
    TaoError::Unsupported(String::from_str(msg))
}

/// Builds a `StreamNotFound` error from a message.
pub fn stream_not_found(msg: &str) -> (e: TaoError)
    ensures
        e matches TaoError::StreamNotFound(m) && m@ == msg@,
{
    TaoError::StreamNotFound(String::from_str(msg))
}

/// Builds an `InvalidArgument` error from a message.
pub fn invalid_argument(msg: &str) -> (e: TaoError)
    ensures
        e matches TaoError::InvalidArgument(m) && m@ == msg@,
{
    TaoError::InvalidArgument(String::from_str(msg))
}

/// Builds a `NotImplemented` error from a message.
pub fn not_implemented(msg: &str) -> (e: TaoError)
    ensures
        e matches TaoError::NotImplemented(m) && m@ == msg@,
{
    TaoError::NotImplemented(String::from_str(msg))
}

/// Builds an `Io` error from a message.
pub fn io_error(msg: &str) -> (e: TaoError)
    ensures
        e matches TaoError::Io(m) && m@ == msg@,
{
    TaoError::Io(String::from_str(msg))
}

} // verus!
