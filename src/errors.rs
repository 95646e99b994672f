use vstd::prelude::*;

verus! {

/// Everything that can go wrong in the client.
#[derive(Debug)]
pub enum ConsulXError {
    /// The first word of a line is no known command; holds that word.
    UnknownCommand(String),
    /// A required argument is absent; holds its name.
    MissingArgument(&'static str),
    /// The store answered with a status that is neither success nor "not found".
    Http(u16),
    /// A payload that had to be JSON was not; holds the decoder's message.
    Json(String),
    /// The request could not be made or its answer not be read.
    Transport(String),
    /// A local file or process operation failed.
    Io(String),
}

/// The model of an error: its kind and, in place of strings, their characters.
pub enum ErrorView {
    UnknownCommand(Seq<char>),
    MissingArgument(Seq<char>),
    Http(u16),
    Json(Seq<char>),
    Transport(Seq<char>),
    Io(Seq<char>),
}

impl View for ConsulXError {
    type V = ErrorView;

    open spec fn view(&self) -> ErrorView {
        match self {
            ConsulXError::UnknownCommand(s) => ErrorView::UnknownCommand(s@),
            ConsulXError::MissingArgument(s) => ErrorView::MissingArgument(s@),
            ConsulXError::Http(c) => ErrorView::Http(*c),
            ConsulXError::Json(s) => ErrorView::Json(s@),
            ConsulXError::Transport(s) => ErrorView::Transport(s@),
            ConsulXError::Io(s) => ErrorView::Io(s@),
        }
    }
}

} // verus!
