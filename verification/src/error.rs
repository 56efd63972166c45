//! The errors of the library.
use crate::server::url::error::{UrlError, UrlErrorView};
use vstd::prelude::*;

verus! {

/// What can go wrong while a configuration is loaded or a request is
/// answered.
#[derive(Debug, Clone, PartialEq, Eq)]
pub enum Error {
    /// A syntax error in a route pattern or in a response template.
    Url(UrlError),
    /// Any other failure, by its message.
    Msg(String),
}

/// An `Error` with its strings as sequences of characters.
pub enum ErrorView {
    Url(UrlErrorView),
    Msg(Seq<char>),
}

impl View for Error {
    type V = ErrorView;

    open spec fn view(&self) -> ErrorView {
        match self {
            Error::Url(e) => ErrorView::Url(e@),
            Error::Msg(text) => ErrorView::Msg(text@),
        }
    }
}

impl ErrorView {
    /// The message that describes the error to the operator.
    pub open spec fn message(self) -> Seq<char> {
        match self {
            ErrorView::Url(e) => e.message(),
            ErrorView::Msg(text) => text,
        }
    }
}

impl Error {
    /// The message that describes the error to the operator.
    pub fn to_string(&self) -> (s: String)
        ensures
            s@ == self@.message(),
    {
        match self {
            Error::Url(e) => e.to_string(),
            Error::Msg(text) => text.clone(),
        }
    }
}

} // verus!
