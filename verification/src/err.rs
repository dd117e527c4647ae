//! The error type shared by the buffers and the codec.
use vstd::prelude::*;
use vstd::string::*;

verus! {

/// Error that the buffers and the codec can report.
#[derive(Debug, PartialEq)]
pub enum Error {
    /// The requested key was not found.
    KeyNotFound(String),
    /// The input format of a buffer was incorrect.
    BadFormat(String),
    /// Unable to serialize a buffer.
    SerializeError(String),
    /// A sink or the transport reported a failure.
    IO(String),
    /// Something occurred which was unexpected in the current state.
    BadState(String),
    /// The specified size is invalid, or invalid in a specific context.
    InvalidSize(String),
}

/// What an [`Error`] holds, with its text as a sequence of characters.
pub enum ErrorView {
    KeyNotFound(Seq<char>),
    BadFormat(Seq<char>),
    SerializeError(Seq<char>),
    IO(Seq<char>),
    BadState(Seq<char>),
    InvalidSize(Seq<char>),
}

impl View for Error {
    type V = ErrorView;

    open spec fn view(&self) -> ErrorView {
        match self {
            Error::KeyNotFound(s) => ErrorView::KeyNotFound(s@),
            Error::BadFormat(s) => ErrorView::BadFormat(s@),
            Error::SerializeError(s) => ErrorView::SerializeError(s@),
            Error::IO(s) => ErrorView::IO(s@),
            Error::BadState(s) => ErrorView::BadState(s@),
            Error::InvalidSize(s) => ErrorView::InvalidSize(s@),
        }
    }
}

/// The line that describes an error to a reader.
pub open spec fn error_text(e: ErrorView) -> Seq<char> {
    match e {
        ErrorView::KeyNotFound(s) => "Parameter '"@ + s + "' not found"@,
        ErrorView::BadFormat(s) => "Bad format; "@ + s,
        ErrorView::SerializeError(s) => "Unable to serialize; "@ + s,
        ErrorView::IO(s) => "I/O error; "@ + s,
        ErrorView::BadState(s) => "Encountred an unexpected/bad state: "@ + s,
        ErrorView::InvalidSize(s) => "Invalid size; "@ + s,
    }
}

impl Error {
    /// A format error with the given text.
    pub fn bad_format(msg: &str) -> (e: Error)
        ensures
            e@ == ErrorView::BadFormat(msg@),
    {
        Error::BadFormat(msg.to_string())
    }

    /// A size error with the given text.
    pub fn invalid_size(msg: &str) -> (e: Error)
        ensures
            e@ == ErrorView::InvalidSize(msg@),
    {
        Error::InvalidSize(msg.to_string())
    }

    /// The error for a key that a buffer does not hold.
    pub fn key_not_found(key: &str) -> (e: Error)
        ensures
            e@ == ErrorView::KeyNotFound(key@),
    {
        Error::KeyNotFound(key.to_string())
    }

    /// Describe the error in one line, the kind first and then its text.
    pub fn to_string(&self) -> (s: String)
        ensures
            s@ == error_text(self@),
    {
        match self {
            Error::KeyNotFound(s) => {
                let mut out = "Parameter '".to_string();
                out.append(s.as_str());
                out.append("' not found");
                out
            },
            Error::BadFormat(s) => "Bad format; ".to_string().concat(s.as_str()),
            Error::SerializeError(s) => "Unable to serialize; ".to_string().concat(s.as_str()),
            Error::IO(s) => "I/O error; ".to_string().concat(s.as_str()),
            Error::BadState(s) => "Encountred an unexpected/bad state: ".to_string().concat(
                s.as_str(),
            ),
            Error::InvalidSize(s) => "Invalid size; ".to_string().concat(s.as_str()),
        }
    }
}

} // verus!
