use vstd::prelude::*;
use vstd::std_specs::convert::FromSpecImpl;

verus! {

/// What went wrong at a byte sink or a byte source.
#[derive(Debug, Clone, Copy, PartialEq, Eq, Structural)]
pub enum IoErrorKind {
    /// The source ended in the middle of a record.
    UnexpectedEof,
    /// The source is still open and has not delivered enough bytes yet.
    WouldBlock,
    /// The sink took only a part of what was written to it.
    WriteZero,
}

/// Every way in which a stream operation can fail.
#[derive(Debug)]
pub enum Error {
    /// The source ended cleanly, at the boundary of a record.
    RegularEof,
    /// The stream does not begin with the magic bytes.
    BadHeader,
    /// The stream was written in the format version that is carried.
    BadVersion(u16),
    /// The stream was written for the payload format whose name is carried.
    BadFormat(String),
    /// The sink or the source failed.
    StdIo(IoErrorKind),
    /// The payload codec rejected the bytes of a record.
    BincodeDecode,
    /// The payload codec could not encode a value.
    BincodeEncode,
}

/// The mathematical model of an `Error`: the same cases, with the text of a
/// format name as a sequence of characters.
pub enum ErrorView {
    RegularEof,
    BadHeader,
    BadVersion(u16),
    BadFormat(Seq<char>),
    StdIo(IoErrorKind),
    BincodeDecode,
    BincodeEncode,
}

impl View for Error {
    type V = ErrorView;

    open spec fn view(&self) -> ErrorView {
        match self {
            Error::RegularEof => ErrorView::RegularEof,
            Error::BadHeader => ErrorView::BadHeader,
            Error::BadVersion(version) => ErrorView::BadVersion(*version),
            Error::BadFormat(name) => ErrorView::BadFormat(name@),
            Error::StdIo(kind) => ErrorView::StdIo(*kind),
            Error::BincodeDecode => ErrorView::BincodeDecode,
            Error::BincodeEncode => ErrorView::BincodeEncode,
        }
    }
}

impl From<IoErrorKind> for Error {
    fn from(value: IoErrorKind) -> (error: Error) {
        Error::StdIo(value)
    }
}

impl FromSpecImpl<IoErrorKind> for Error {
    open spec fn obeys_from_spec() -> bool {
        true
    }

    open spec fn from_spec(value: IoErrorKind) -> Error {
        Error::StdIo(value)
    }
}

} // verus!
