//! A response in the form in which it is shown: headers as text, a status that is always
//! a valid one, and the body as text where it is text.

use vstd::prelude::*;
use crate::body::{
    body_text, content_type_of, content_type_view, shown_body, ContentType, ContentTypeView, Shown,
};
use crate::error::Error;
use crate::header::{as_map, distinct_names, find, has_name, index_of_name, lemma_entry_is_mapped};
use crate::response::{show_value, shown_value};
use crate::text::header_value_byte;

verus! {

/// A response as it is shown.
#[derive(Debug, Clone, PartialEq, Eq)]
pub struct Response {
    /// When the request was sent, in seconds since the Unix epoch.
    pub done_date: i64,
    /// The status: a number from 100 to 999.
    pub status: u16,
    /// Name and shown value of each header. No name occurs twice.
    pub header: Vec<(String, String)>,
    pub body: Vec<u8>,
    /// How long the network call took, in milliseconds.
    pub elapsed_time: i32,
}

/// How a status is marked when shown.
#[derive(Debug, Clone, Copy, PartialEq, Eq, Structural)]
pub enum StatusClass {
    /// 200 to 299.
    Success,
    /// 400 to 599.
    Failure,
    /// Anything else.
    Notice,
}

/// The status that is shown for the number received: the number itself where it is a
/// status code at all, and 200 otherwise.
pub open spec fn shown_status(status: u16) -> u16 {
    if 100 <= status && status <= 999 {
        status
    } else {
        200
    }
}

/// How the status `status` is marked.
pub open spec fn status_class(status: u16) -> StatusClass {
    if 200 <= status && status < 300 {
        StatusClass::Success
    } else if 400 <= status && status < 600 {
        StatusClass::Failure
    } else {
        StatusClass::Notice
    }
}

/// How the status `status` is marked.
pub fn classify(status: u16) -> (class: StatusClass)
    ensures
        class == status_class(status),
{
    if 200 <= status && status < 300 {
        StatusClass::Success
    } else if 400 <= status && status < 600 {
        StatusClass::Failure
    } else {
        StatusClass::Notice
    }
}

/// The reason phrase that `http` knows for the status `status`; nothing for a number that
/// is no status code, or one without a phrase.
pub uninterp spec fn reason_phrase(status: u16) -> Option<Seq<char>>;

/// The text that `time` writes for the moment `seconds` after the Unix epoch, in UTC and
/// after the format description `format`; nothing where the description is not valid or
/// the moment is out of the range of dates.
pub uninterp spec fn time_text(seconds: i64, format: Seq<char>) -> Option<Seq<char>>;

/// `http::StatusCode::from_u16` and `canonical_reason` of the status read. The contract
/// names the outcome by `reason_phrase`.
#[verifier::external_body]
fn canonical_reason(status: u16) -> (reason: Option<String>)
    ensures
        match reason {
            Some(text) => reason_phrase(status) == Some(text@),
            None => reason_phrase(status) is None,
        },
{
    http::StatusCode::from_u16(status).ok()?.canonical_reason().map(|text| text.to_string())
}

/// `time::OffsetDateTime::from_unix_timestamp` and `format` of the moment read, after the
/// description that `time::format_description::parse_borrowed` reads from `format`. The
/// contract names the outcome by `time_text`.
#[verifier::external_body]
fn format_time(seconds: i64, format: &str) -> (text: Option<String>)
    ensures
        match text {
            Some(t) => time_text(seconds, format@) == Some(t@),
            None => time_text(seconds, format@) is None,
        },
{
    let items = time::format_description::parse_borrowed::<1>(format).ok()?;
    time::OffsetDateTime::from_unix_timestamp(seconds).ok()?.format(&items).ok()
}

/// The reason shown beside the status: the phrase that is known for it, or nothing.
pub fn reason(status: u16) -> (text: String)
    ensures
        text@ == match reason_phrase(status) {
            Some(phrase) => phrase,
            None => Seq::empty(),
        },
{
    match canonical_reason(status) {
        Some(text) => text,
        None => String::new(),
    }
}

/// The time of day at which a request was sent, as it is shown.
pub fn shown_time(done_date: i64) -> (text: Option<String>)
    ensures
        match text {
            Some(t) => time_text(done_date, "[hour]:[minute]:[second]"@) == Some(t@),
            None => time_text(done_date, "[hour]:[minute]:[second]"@) is None,
        },
{
    format_time(done_date, "[hour]:[minute]:[second]")
}

/// The day on which a request was sent, as it is shown.
pub fn shown_date(done_date: i64) -> (text: Option<String>)
    ensures
        match text {
            Some(t) => time_text(done_date, "[year]-[month]-[day]"@) == Some(t@),
            None => time_text(done_date, "[year]-[month]-[day]"@) is None,
        },
{
    format_time(done_date, "[year]-[month]-[day]")
}

/// Day and time at which a request was sent, as they are shown in the log.
pub fn shown_date_time(done_date: i64) -> (text: Option<String>)
    ensures
        match text {
            Some(t) => time_text(done_date, "[year]-[month]-[day] [hour]:[minute]:[second]"@)
                == Some(t@),
            None => time_text(done_date, "[year]-[month]-[day] [hour]:[minute]:[second]"@)
                is None,
        },
{
    format_time(done_date, "[year]-[month]-[day] [hour]:[minute]:[second]")
}

/// Every byte of every header value may stand in a header value.
pub open spec fn values_well_formed(header: Seq<(String, Vec<u8>)>) -> bool {
    forall|i: int, k: int|
        0 <= i < header.len() && 0 <= k < header[i].1@.len() ==> header_value_byte(
            #[trigger] header[i].1@[k],
        )
}

/// The media type that the `content-type` header among `header` declares, if there is
/// such a header and it declares one.
pub open spec fn declared_type(header: Map<Seq<char>, Seq<char>>) -> Option<ContentTypeView> {
    if header.dom().contains("content-type"@) {
        content_type_of(header["content-type"@])
    } else {
        None
    }
}

impl Response {
    /// No header name occurs twice.
    pub open spec fn wf(&self) -> bool {
        distinct_names(self.header@)
    }

    /// The headers as a mapping from names to shown values.
    pub open spec fn header_map(&self) -> Map<Seq<char>, Seq<char>> {
        as_map(self.header@)
    }

    /// The form in which `val` is shown: each header value as text, and a status that is
    /// no status code replaced by 200.
    pub fn from(val: crate::response::Response) -> (r: Response)
        requires
            val.wf(),
            values_well_formed(val.header@),
        ensures
            r.wf(),
            r.done_date == val.done_date,
            r.status == shown_status(val.status),
            r.body@ == val.body@,
            r.elapsed_time == val.elapsed_time,
            r.header@.len() == val.header@.len(),
            forall|i: int|
                0 <= i < r.header@.len() ==> r.header@[i].0@ == val.header@[i].0@
                    && r.header@[i].1@ == shown_value(val.header@[i].1@),
            r.header_map().dom() == val@.header.dom(),
            forall|name: Seq<char>|
                val@.header.dom().contains(name) ==> #[trigger] r.header_map()[name]
                    == shown_value(val@.header[name]),
    {
        let mut header: Vec<(String, String)> = Vec::new();
        let mut i: usize = 0;
        while i < val.header.len()
            invariant
                i <= val.header@.len(),
                values_well_formed(val.header@),
                header@.len() == i,
                forall|k: int|
                    0 <= k < i ==> header@[k].0@ == val.header@[k].0@ && header@[k].1@
                        == shown_value(val.header@[k].1@),
            decreases val.header@.len() - i,
        {
            assert forall|k: int| 0 <= k < val.header@[i as int].1@.len() implies header_value_byte(
                #[trigger] val.header@[i as int].1@[k],
            ) by {}
            let name = val.header[i].0.clone();
            let value = show_value(&val.header[i].1);
            header.push((name, value));
            i += 1;
        }
        let status = if 100 <= val.status && val.status <= 999 {
            val.status
        } else {
            200
        };
        let r = Response {
            done_date: val.done_date,
            status,
            header,
            body: val.body,
            elapsed_time: val.elapsed_time,
        };
        proof {
            assert forall|a: int, b: int| 0 <= a < b < r.header@.len() implies r.header@[a].0@
                != r.header@[b].0@ by {
                assert(val.header@[a].0@ != val.header@[b].0@);
            }
            assert forall|name: Seq<char>| has_name(r.header@, name) <==> has_name(
                val.header@,
                name,
            ) by {
                if has_name(r.header@, name) {
                    let k = index_of_name(r.header@, name);
                    assert(val.header@[k].0@ == name);
                }
                if has_name(val.header@, name) {
                    let k = index_of_name(val.header@, name);
                    assert(r.header@[k].0@ == name);
                }
            }
            assert(r.header_map().dom() =~= val@.header.dom());
            assert forall|name: Seq<char>|
                val@.header.dom().contains(name) implies #[trigger] r.header_map()[name]
                == shown_value(val@.header[name]) by {
                let k = index_of_name(val.header@, name);
                lemma_entry_is_mapped(val.header@, k);
                lemma_entry_is_mapped(r.header@, k);
            }
        }
        r
    }

    /// The media type that the `content-type` header declares, if there is such a header
    /// and it declares one.
    pub fn content_type(&self) -> (r: Option<ContentType>)
        requires
            self.wf(),
        ensures
            content_type_view(r) == declared_type(self.header_map()),
    {
        match find(&self.header, "content-type") {
            Some(i) => {
                proof {
                    lemma_entry_is_mapped(self.header@, i as int);
                }
                ContentType::parse(self.header[i].1.as_str())
            },
            None => None,
        }
    }

    /// The body as the text that is shown for it.
    pub fn text(self) -> (r: Result<String, Error>)
        requires
            self.wf(),
        ensures
            match r {
                Ok(text) => shown_body(self.body@, declared_type(self.header_map()))
                    == Shown::Text(text@),
                Err(e) => match shown_body(self.body@, declared_type(self.header_map())) {
                    Shown::Text(_) => false,
                    Shown::NoText => e@ is NoTextBody,
                    Shown::Undecodable => e@ is Decoding,
                },
            },
    {
        let content_type = self.content_type();
        body_text(self.body, content_type)
    }
}

} // verus!
