//! The envelope that crosses between the two contexts.

use vstd::prelude::*;
use vstd::string::StringExecFns;
use crate::error::{Error, ErrorView};
use crate::text::str_eq;

verus! {

/// An operation or its outcome, with a payload in serialized form.
#[derive(Debug, Clone, PartialEq, Eq)]
pub struct Message {
    /// Names the operation, or marks a failure.
    pub code: String,
    /// The payload of the operation, or the failure's text.
    pub value: String,
}

/// The mathematical content of a [`Message`].
pub ghost struct MessageView {
    pub code: Seq<char>,
    pub value: Seq<char>,
}

impl View for Message {
    type V = MessageView;

    open spec fn view(&self) -> MessageView {
        MessageView { code: self.code@, value: self.value@ }
    }
}

/// The code of the one operation: send an HTTP request.
pub open spec fn http_send_code() -> Seq<char> {
    "http_send"@
}

/// The code that marks a failure.
pub open spec fn error_code() -> Seq<char> {
    "error"@
}

impl MessageView {
    /// Whether the envelope reports a failure.
    pub open spec fn is_error(self) -> bool {
        self.code == error_code()
    }

    /// What an envelope yields to the one who awaited it: its payload, or the failure it
    /// reports. A failure's text is never handed on as a payload.
    pub open spec fn outcome(self) -> Result<Seq<char>, ErrorView> {
        if self.is_error() {
            Err(ErrorView::RelayApplication { message: self.value })
        } else {
            Ok(self.value)
        }
    }
}

impl Default for Message {
    fn default() -> (m: Message)
        ensures
            m@.code == Seq::<char>::empty(),
            m@.value == Seq::<char>::empty(),
    {
        Message { code: String::new(), value: String::new() }
    }
}

impl Message {
    /// An envelope for `operation` with the given payload.
    pub fn new(operation: String, payload: String) -> (m: Message)
        ensures
            m@.code == operation@,
            m@.value == payload@,
    {
        Message { code: operation, value: payload }
    }

    /// An envelope that asks for, or answers, the sending of an HTTP request.
    pub fn http_send(payload: String) -> (m: Message)
        ensures
            m@.code == http_send_code(),
            m@.value == payload@,
    {
        Message { code: String::from_str("http_send"), value: payload }
    }

    /// An envelope that reports a failure by its text.
    pub fn failure(text: String) -> (m: Message)
        ensures
            m@.code == error_code(),
            m@.value == text@,
            m@.is_error(),
    {
        Message { code: String::from_str("error"), value: text }
    }

    /// An envelope that reports `error` by the text shown for it.
    pub fn from_error(error: &Error) -> (m: Message)
        ensures
            m@.code == error_code(),
            m@.value == error@.message(),
    {
        Message::failure(error.message())
    }

    /// Whether the envelope reports a failure.
    pub fn is_error(&self) -> (r: bool)
        ensures
            r == self@.is_error(),
    {
        str_eq(self.code.as_str(), "error")
    }

    /// A copy of the envelope.
    pub fn duplicate(&self) -> (m: Message)
        ensures
            m@ == self@,
    {
        Message { code: self.code.clone(), value: self.value.clone() }
    }

    /// Opens the envelope: the payload, or the failure that the envelope reports.
    pub fn into_outcome(self) -> (r: Result<String, Error>)
        ensures
            match r {
                Ok(payload) => self@.outcome() == Ok::<Seq<char>, ErrorView>(payload@),
                Err(e) => self@.outcome() == Err::<Seq<char>, ErrorView>(e@),
            },
    {
        if self.is_error() {
            Err(Error::RelayApplication { message: self.value })
        } else {
            Ok(self.value)
        }
    }
}

} // verus!
