//! What can end a survey.

use vstd::prelude::*;

verus! {

/// Why a package could not be looked up. Each of these ends the whole
/// survey; a page that the server does not have, or that holds no rows, is
/// no error.
#[derive(Debug, PartialEq, Eq)]
pub enum Error {
    /// The request got no answer: no address, no connection, no reply in
    /// time. The text is what the transport said.
    Transport(String),
    /// The server answered with this status, which is neither a success
    /// nor "not found".
    Http(u16),
    /// The base address cannot take path segments.
    NotABase,
    /// The query that finds the rows does not compile. The text is what
    /// the compiler of queries said.
    Selector(String),
}

/// An [`Error`] with its texts as sequences of characters.
pub enum ErrorView {
    Transport(Seq<char>),
    Http(u16),
    NotABase,
    Selector(Seq<char>),
}

impl DeepView for Error {
    type V = ErrorView;

    open spec fn deep_view(&self) -> ErrorView {
        match self {
            Error::Transport(cause) => ErrorView::Transport(cause@),
            Error::Http(status) => ErrorView::Http(*status),
            Error::NotABase => ErrorView::NotABase,
            Error::Selector(message) => ErrorView::Selector(message@),
        }
    }
}

} // verus!
