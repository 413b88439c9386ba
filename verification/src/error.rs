//! What can go wrong between building a request and reading its response.

use vstd::prelude::*;

verus! {

/// The error of `url::Url::parse`, carried as it is.
#[verifier::external_type_specification]
#[verifier::external_body]
pub struct ExParseError(url::ParseError);

/// A length that has to fit the transport's 32-bit counts.
#[derive(Clone, Copy, Debug, PartialEq, Eq, Structural)]
pub enum Limit {
    /// The encoded header block.
    Headers,
    /// The caller's read buffer.
    Buffer,
}

/// Why an open or a read failed.
#[derive(Debug, PartialEq, Eq)]
pub enum Error {
    /// The URL is not an absolute URL.
    Url(url::ParseError),
    /// The URL's scheme is neither `http` nor `https`; holds the scheme.
    Scheme(String),
    /// A header name or value has a character outside ISO 8859-1; holds
    /// that name or value.
    Encoding(String),
    /// A length is over what a 32-bit count can hold.
    Overflow(Limit),
    /// The operating system refused a call; holds its error code.
    Os(i32),
}

/// An [`Error`] with its strings as sequences of characters.
pub ghost enum ErrorView {
    Url(url::ParseError),
    Scheme(Seq<char>),
    Encoding(Seq<char>),
    Overflow(Limit),
    Os(i32),
}

impl View for Error {
    type V = ErrorView;

    open spec fn view(&self) -> ErrorView {
        match *self {
            Error::Url(e) => ErrorView::Url(e),
            Error::Scheme(s) => ErrorView::Scheme(s@),
            Error::Encoding(s) => ErrorView::Encoding(s@),
            Error::Overflow(l) => ErrorView::Overflow(l),
            Error::Os(code) => ErrorView::Os(code),
        }
    }
}

} // verus!
