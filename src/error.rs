use vstd::prelude::*;

verus! {

/// Errors raised while decoding a box tree.
#[derive(Clone, Debug)]
pub enum Error {
    /// A box of one kind was required and another kind appeared.
    InvalidBoxType(),
    InvalidBox(String),
    /// Malformed size encoding, unsupported version, bad string payload.
    InvalidData(String),
    /// The bytes ran out where more were required.
    EOF(),
    FileNotFound(),
    /// A mandatory child box was absent; the message names it.
    BoxNotFound(String),
    InternalError(),
}

/// The mathematical value of an [`Error`]: its kind and message.
pub enum ErrorView {
    InvalidBoxType,
    InvalidBox(Seq<char>),
    InvalidData(Seq<char>),
    Eof,
    FileNotFound,
    BoxNotFound(Seq<char>),
    InternalError,
}

impl View for Error {
    type V = ErrorView;

    open spec fn view(&self) -> ErrorView {
        match self {
            Error::InvalidBoxType() => ErrorView::InvalidBoxType,
            Error::InvalidBox(s) => ErrorView::InvalidBox(s@),
            Error::InvalidData(s) => ErrorView::InvalidData(s@),
            Error::EOF() => ErrorView::Eof,
            Error::FileNotFound() => ErrorView::FileNotFound,
            Error::BoxNotFound(s) => ErrorView::BoxNotFound(s@),
            Error::InternalError() => ErrorView::InternalError,
        }
    }
}

/// The text that describes an error.
pub open spec fn message_of(e: ErrorView) -> Seq<char> {
    match e {
        ErrorView::InvalidBoxType => "Invalid box type"@,
        ErrorView::InvalidBox(s) => s,
        ErrorView::InvalidData(s) => s,
        ErrorView::Eof => "End of File"@,
        ErrorView::FileNotFound => "File not found"@,
        ErrorView::BoxNotFound(s) => s,
        ErrorView::InternalError => "Internal error"@,
    }
}

/// Maps a decoding result to its mathematical value.
pub open spec fn rv<T: View>(r: Result<T, Error>) -> Result<T::V, ErrorView> {
    match r {
        Ok(v) => Ok(v@),
        Err(e) => Err(e@),
    }
}

/// The error value that stands for running out of bytes.
pub open spec fn eof<T>() -> Result<T, ErrorView> {
    Err(ErrorView::Eof)
}

/// `s` followed by the sequence that `r` holds, or the error of `r`.
pub open spec fn prepend<T>(s: Seq<T>, r: Result<Seq<T>, ErrorView>) -> Result<Seq<T>, ErrorView> {
    match r {
        Ok(t) => Ok(s + t),
        Err(e) => Err(e),
    }
}

impl Error {
    pub fn to_string(&self) -> (r: String)
        ensures
            r@ == message_of(self@),
    {
        match self {
            Error::InvalidBox(s) => s.clone(),
            Error::InvalidData(s) => s.clone(),
            Error::EOF() => "End of File".to_owned(),
            Error::InvalidBoxType() => "Invalid box type".to_owned(),
            Error::FileNotFound() => "File not found".to_owned(),
            Error::BoxNotFound(s) => s.clone(),
            Error::InternalError() => "Internal error".to_owned(),
        }
    }

    /// Whether the error is the end-of-data signal.
    pub fn is_eof(&self) -> (r: bool)
        ensures
            r <==> self@ == ErrorView::Eof,
    {
        match self {
            Error::EOF() => true,
            _ => false,
        }
    }
}

} // verus!
