//! The errors of the node.
use vstd::prelude::*;
use crate::text::joined;

verus! {

/// What went wrong, with a message for the reader.
#[derive(Debug, PartialEq, Eq)]
pub enum Error {
    /// The transport or the overlay failed: composing it, binding, dialing,
    /// subscribing or publishing.
    Swarm(String),
    /// The configuration is malformed or lacks something required.
    Config(String),
    /// The profile data is invalid.
    Data(String),
    /// The keypair could not be decoded or generated.
    Keypair(String),
    /// The event bus was closed when an event was to be sent.
    Transmission(String),
}

/// An [`Error`] as mathematics.
pub enum ErrorView {
    Swarm(Seq<char>),
    Config(Seq<char>),
    Data(Seq<char>),
    Keypair(Seq<char>),
    Transmission(Seq<char>),
}

impl View for Error {
    type V = ErrorView;

    open spec fn view(&self) -> ErrorView {
        match self {
            Error::Swarm(m) => ErrorView::Swarm(m@),
            Error::Config(m) => ErrorView::Config(m@),
            Error::Data(m) => ErrorView::Data(m@),
            Error::Keypair(m) => ErrorView::Keypair(m@),
            Error::Transmission(m) => ErrorView::Transmission(m@),
        }
    }
}

impl ErrorView {
    /// The sentence that introduces an error of this kind.
    pub open spec fn prefix(self) -> Seq<char> {
        match self {
            ErrorView::Swarm(_) => "Swarm error: "@,
            ErrorView::Config(_) => "Config error: "@,
            ErrorView::Data(_) => "Invalid profile: "@,
            ErrorView::Keypair(_) => "Keypair error: "@,
            ErrorView::Transmission(_) => "Transmission error: "@,
        }
    }

    /// The message that the error carries.
    pub open spec fn message(self) -> Seq<char> {
        match self {
            ErrorView::Swarm(m) => m,
            ErrorView::Config(m) => m,
            ErrorView::Data(m) => m,
            ErrorView::Keypair(m) => m,
            ErrorView::Transmission(m) => m,
        }
    }

    /// The error as one line of text.
    pub open spec fn text(self) -> Seq<char> {
        self.prefix() + self.message()
    }
}

impl Clone for Error {
    fn clone(&self) -> (copy: Self)
        ensures
            copy@ == self@,
    {
        match self {
            Error::Swarm(m) => Error::Swarm(m.clone()),
            Error::Config(m) => Error::Config(m.clone()),
            Error::Data(m) => Error::Data(m.clone()),
            Error::Keypair(m) => Error::Keypair(m.clone()),
            Error::Transmission(m) => Error::Transmission(m.clone()),
        }
    }
}

impl Error {
    /// The error as one line of text: its kind, then its message.
    pub fn to_string(&self) -> (line: String)
        ensures
            line@ == self@.text(),
    {
        match self {
            Error::Swarm(m) => joined("Swarm error: ", m.as_str()),
            Error::Config(m) => joined("Config error: ", m.as_str()),
            Error::Data(m) => joined("Invalid profile: ", m.as_str()),
            Error::Keypair(m) => joined("Keypair error: ", m.as_str()),
            Error::Transmission(m) => joined("Transmission error: ", m.as_str()),
        }
    }
}

} // verus!
