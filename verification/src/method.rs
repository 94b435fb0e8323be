//! The HTTP verbs a request may use.

use vstd::prelude::*;
use vstd::string::StringExecFns;
use crate::error::{Error, ErrorView};
use crate::text::str_eq;

verus! {

/// A known HTTP verb.
#[derive(Debug, Clone, Copy, PartialEq, Eq, Structural)]
pub enum Method {
    Connect,
    Delete,
    Get,
    Head,
    Options,
    Patch,
    Post,
    Put,
    Trace,
}

/// The verb that `text` names, if it names one: the match is exact and case-sensitive.
pub open spec fn known_method(text: Seq<char>) -> Option<Method> {
    if text == "CONNECT"@ {
        Some(Method::Connect)
    } else if text == "DELETE"@ {
        Some(Method::Delete)
    } else if text == "GET"@ {
        Some(Method::Get)
    } else if text == "HEAD"@ {
        Some(Method::Head)
    } else if text == "OPTIONS"@ {
        Some(Method::Options)
    } else if text == "PATCH"@ {
        Some(Method::Patch)
    } else if text == "POST"@ {
        Some(Method::Post)
    } else if text == "PUT"@ {
        Some(Method::Put)
    } else if text == "TRACE"@ {
        Some(Method::Trace)
    } else {
        None
    }
}

/// What is reported for a method that is no known verb.
pub open spec fn invalid_method() -> ErrorView {
    ErrorView::InvalidMethod { src: "invalid HTTP method"@ }
}

impl Method {
    /// The verb as it is written on the wire.
    pub open spec fn name(self) -> Seq<char> {
        match self {
            Method::Connect => "CONNECT"@,
            Method::Delete => "DELETE"@,
            Method::Get => "GET"@,
            Method::Head => "HEAD"@,
            Method::Options => "OPTIONS"@,
            Method::Patch => "PATCH"@,
            Method::Post => "POST"@,
            Method::Put => "PUT"@,
            Method::Trace => "TRACE"@,
        }
    }

    /// Whether a request with this verb carries a body of its own.
    pub open spec fn spec_has_body(self) -> bool {
        self == Method::Patch || self == Method::Post || self == Method::Put
    }

    /// Reads a verb; anything but the nine known names is refused.
    pub fn parse(text: &str) -> (r: Result<Method, Error>)
        ensures
            match r {
                Ok(m) => known_method(text@) == Some(m),
                Err(e) => known_method(text@) is None && e@ == invalid_method(),
            },
    {
        if str_eq(text, "CONNECT") {
            Ok(Method::Connect)
        } else if str_eq(text, "DELETE") {
            Ok(Method::Delete)
        } else if str_eq(text, "GET") {
            Ok(Method::Get)
        } else if str_eq(text, "HEAD") {
            Ok(Method::Head)
        } else if str_eq(text, "OPTIONS") {
            Ok(Method::Options)
        } else if str_eq(text, "PATCH") {
            Ok(Method::Patch)
        } else if str_eq(text, "POST") {
            Ok(Method::Post)
        } else if str_eq(text, "PUT") {
            Ok(Method::Put)
        } else if str_eq(text, "TRACE") {
            Ok(Method::Trace)
        } else {
            Err(Error::InvalidMethod { src: String::from_str("invalid HTTP method") })
        }
    }

    /// The verb as it is written on the wire.
    pub fn as_str(&self) -> (text: &'static str)
        ensures
            text@ == self.name(),
    {
        match self {
            Method::Connect => "CONNECT",
            Method::Delete => "DELETE",
            Method::Get => "GET",
            Method::Head => "HEAD",
            Method::Options => "OPTIONS",
            Method::Patch => "PATCH",
            Method::Post => "POST",
            Method::Put => "PUT",
            Method::Trace => "TRACE",
        }
    }

    /// Whether a request with this verb carries a body of its own.
    pub fn has_body(&self) -> (r: bool)
        ensures
            r == self.spec_has_body(),
    {
        match self {
            Method::Patch | Method::Post | Method::Put => true,
            _ => false,
        }
    }
}

/// Every verb is read back from its own name.
pub proof fn lemma_name_parses(m: Method)
    ensures
        known_method(m.name()) == Some(m),
{
    reveal_strlit("CONNECT");
    reveal_strlit("DELETE");
    reveal_strlit("GET");
    reveal_strlit("HEAD");
    reveal_strlit("OPTIONS");
    reveal_strlit("PATCH");
    reveal_strlit("POST");
    reveal_strlit("PUT");
    reveal_strlit("TRACE");
    assert("CONNECT"@[0] == 'C');
    assert("DELETE"@[0] == 'D');
    assert("GET"@[0] == 'G');
    assert("HEAD"@[0] == 'H');
    assert("OPTIONS"@[0] == 'O');
    assert("PATCH"@[1] == 'A');
    assert("POST"@[1] == 'O');
    assert("PUT"@[1] == 'U');
    assert("TRACE"@[0] == 'T');
}

} // verus!
