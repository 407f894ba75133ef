//! What can go wrong around a round without stopping the others.

use vstd::prelude::*;
use vstd::string::*;

verus! {

/// A failure that the coordinator reports to its driver. None of them ends
/// the coordinator: each concerns one message or one round.
#[derive(Debug, PartialEq, Eq)]
pub enum Error {
    /// The transport failed.
    Network(String),
    /// A share could not be produced.
    Signing(String),
    /// The consumer of the randomness is gone.
    Consumer(String),
}

/// An error, with its text as a sequence of characters.
pub enum ErrorView {
    Network(Seq<char>),
    Signing(Seq<char>),
    Consumer(Seq<char>),
}

impl View for Error {
    type V = ErrorView;

    open spec fn view(&self) -> ErrorView {
        match self {
            Error::Network(text) => ErrorView::Network(text@),
            Error::Signing(text) => ErrorView::Signing(text@),
            Error::Consumer(text) => ErrorView::Consumer(text@),
        }
    }
}

/// The text of the error that is reported when the randomness of a round
/// could not be handed over.
pub open spec fn consumer_gone() -> Seq<char> {
    "problem with sending new randomness to the block proposer"@
}

impl Clone for Error {
    fn clone(&self) -> (e: Error)
        ensures
            e@ == self@,
    {
        match self {
            Error::Network(text) => Error::Network(text.clone()),
            Error::Signing(text) => Error::Signing(text.clone()),
            Error::Consumer(text) => Error::Consumer(text.clone()),
        }
    }
}

impl Error {
    /// The error for a round whose randomness nobody took.
    pub fn undelivered() -> (e: Error)
        ensures
            e@ == ErrorView::Consumer(consumer_gone()),
    {
        Error::Consumer(
            String::from_str("problem with sending new randomness to the block proposer"),
        )
    }

    /// The text of the error.
    pub fn text(&self) -> (s: &str)
        ensures
            s@ == match self@ {
                ErrorView::Network(text) => text,
                ErrorView::Signing(text) => text,
                ErrorView::Consumer(text) => text,
            },
    {
        match self {
            Error::Network(text) => text.as_str(),
            Error::Signing(text) => text.as_str(),
            Error::Consumer(text) => text.as_str(),
        }
    }
}

} // verus!
