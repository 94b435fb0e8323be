//! The failures this library reports, each with the message shown to the user.

use vstd::prelude::*;
use vstd::string::StringExecFns;

verus! {

/// Everything that can go wrong between building a request and showing its logged response.
#[derive(Debug, Clone, PartialEq, Eq)]
pub enum Error {
    /// An envelope or its payload could not be written or read.
    Serialization { src: String },
    /// The method is not one of the known HTTP verbs.
    InvalidMethod { src: String },
    /// The address is not an absolute URL.
    InvalidUrl { src: String },
    /// A header name or value is not well-formed.
    InvalidHeader { src: String },
    /// The network call itself failed.
    Transport { src: String },
    /// The channel to the background context failed, also on the retry.
    RelayTransport { src: String },
    /// The background context answered with a failure of its own.
    RelayApplication { message: String },
    /// The body's bytes are not text in the declared character set, nor in UTF-8.
    Decoding { src: String },
    /// The declared content type is not a textual one.
    NoTextBody,
    /// The local time could not be determined.
    ClockUnavailable { src: String },
    /// The log could not be written to the store.
    Persistence { src: String },
    /// No log entry has the identifier asked for.
    NotFound,
}

/// The mathematical content of an [`Error`].
pub ghost enum ErrorView {
    Serialization { src: Seq<char> },
    InvalidMethod { src: Seq<char> },
    InvalidUrl { src: Seq<char> },
    InvalidHeader { src: Seq<char> },
    Transport { src: Seq<char> },
    RelayTransport { src: Seq<char> },
    RelayApplication { message: Seq<char> },
    Decoding { src: Seq<char> },
    NoTextBody,
    ClockUnavailable { src: Seq<char> },
    Persistence { src: Seq<char> },
    NotFound,
}

impl View for Error {
    type V = ErrorView;

    open spec fn view(&self) -> ErrorView {
        match self {
            Error::Serialization { src } => ErrorView::Serialization { src: src@ },
            Error::InvalidMethod { src } => ErrorView::InvalidMethod { src: src@ },
            Error::InvalidUrl { src } => ErrorView::InvalidUrl { src: src@ },
            Error::InvalidHeader { src } => ErrorView::InvalidHeader { src: src@ },
            Error::Transport { src } => ErrorView::Transport { src: src@ },
            Error::RelayTransport { src } => ErrorView::RelayTransport { src: src@ },
            Error::RelayApplication { message } => ErrorView::RelayApplication {
                message: message@,
            },
            Error::Decoding { src } => ErrorView::Decoding { src: src@ },
            Error::NoTextBody => ErrorView::NoTextBody,
            Error::ClockUnavailable { src } => ErrorView::ClockUnavailable { src: src@ },
            Error::Persistence { src } => ErrorView::Persistence { src: src@ },
            Error::NotFound => ErrorView::NotFound,
        }
    }
}

impl ErrorView {
    /// The text shown for this failure.
    pub open spec fn message(self) -> Seq<char> {
        match self {
            ErrorView::Serialization { src } => src,
            ErrorView::InvalidMethod { src } => src,
            ErrorView::InvalidUrl { src } => "Invalid url: "@ + src,
            ErrorView::InvalidHeader { src } => src,
            ErrorView::Transport { src } => "Failed to send: "@ + src,
            ErrorView::RelayTransport { src } => "Failed to send: "@ + src,
            ErrorView::RelayApplication { message } => "Failed to send: "@ + message,
            ErrorView::Decoding { src } => "Failed to decoding: "@ + src,
            ErrorView::NoTextBody => "No text body"@,
            ErrorView::ClockUnavailable { src } => src,
            ErrorView::Persistence { src } => "Failed to persist: "@ + src,
            ErrorView::NotFound => "Not found"@,
        }
    }
}

fn prefixed(prefix: &str, rest: &String) -> (out: String)
    ensures
        out@ == prefix@ + rest@,
{
    String::from_str(prefix).concat(rest.as_str())
}

impl Error {
    /// The text shown for this failure.
    pub fn message(&self) -> (text: String)
        ensures
            text@ == self@.message(),
    {
        match self {
            Error::Serialization { src } => src.clone(),
            Error::InvalidMethod { src } => src.clone(),
            Error::InvalidUrl { src } => prefixed("Invalid url: ", src),
            Error::InvalidHeader { src } => src.clone(),
            Error::Transport { src } => prefixed("Failed to send: ", src),
            Error::RelayTransport { src } => prefixed("Failed to send: ", src),
            Error::RelayApplication { message } => prefixed("Failed to send: ", message),
            Error::Decoding { src } => prefixed("Failed to decoding: ", src),
            Error::NoTextBody => String::from_str("No text body"),
            Error::ClockUnavailable { src } => src.clone(),
            Error::Persistence { src } => prefixed("Failed to persist: ", src),
            Error::NotFound => String::from_str("Not found"),
        }
    }
}

} // verus!
