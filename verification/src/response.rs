//! The response to a request, as it is handed on and logged.

use vstd::prelude::*;
use vstd::string::StringExecFns;
use crate::header::{as_map, distinct_names, find, lemma_entry_is_mapped, merged, plain, upsert};
use crate::text::{
    copy_bytes, header_value_byte, latin, lemma_ascii_is_utf8, string_from_utf8, visible_byte,
};

verus! {

/// An HTTP response with the time at which its request was sent.
#[derive(Debug, Clone, PartialEq, Eq)]
pub struct Response {
    /// When the request was sent, in seconds since the Unix epoch.
    pub done_date: i64,
    pub status: u16,
    /// Name and raw value of each header. No name occurs twice.
    pub header: Vec<(String, Vec<u8>)>,
    pub body: Vec<u8>,
    /// How long the network call took, in milliseconds.
    pub elapsed_time: i32,
}

/// The mathematical content of a [`Response`].
pub ghost struct ResponseView {
    pub done_date: i64,
    pub status: u16,
    pub header: Map<Seq<char>, Seq<u8>>,
    pub body: Seq<u8>,
    pub elapsed_time: i32,
}

impl View for Response {
    type V = ResponseView;

    open spec fn view(&self) -> ResponseView {
        ResponseView {
            done_date: self.done_date,
            status: self.status,
            header: as_map(self.header@),
            body: self.body@,
            elapsed_time: self.elapsed_time,
        }
    }
}

/// What is shown in place of a header value that is not plain visible text.
pub open spec fn not_visible() -> Seq<char> {
    "no visible"@
}

/// A header value as it is shown: its own text where every byte is a printable ASCII
/// character or a tab, and a fixed notice otherwise.
pub open spec fn shown_value(value: Seq<u8>) -> Seq<char> {
    if forall|i: int| 0 <= i < value.len() ==> visible_byte(#[trigger] value[i]) {
        latin(value)
    } else {
        not_visible()
    }
}

/// A header value as it is shown.
pub fn show_value(value: &Vec<u8>) -> (text: String)
    requires
        forall|i: int| 0 <= i < value@.len() ==> header_value_byte(#[trigger] value@[i]),
    ensures
        text@ == shown_value(value@),
{
    let mut i: usize = 0;
    while i < value.len()
        invariant
            i <= value@.len(),
            forall|k: int| 0 <= k < i ==> visible_byte(#[trigger] value@[k]),
        decreases value@.len() - i,
    {
        let b = value[i];
        if !((32 <= b && b < 127) || b == 9) {
            return String::from_str("no visible");
        }
        i += 1;
    }
    proof {
        lemma_ascii_is_utf8(value@);
    }
    match string_from_utf8(copy_bytes(value)) {
        Ok(text) => text,
        Err(_) => String::from_str("no visible"),
    }
}

impl Response {
    /// No header name occurs twice.
    pub open spec fn wf(&self) -> bool {
        distinct_names(self.header@)
    }

    /// Builds a response from the header fields as they arrived. Of several fields with one
    /// name the last one counts.
    pub fn new(
        done_date: i64,
        status: u16,
        fields: Vec<(String, Vec<u8>)>,
        body: Vec<u8>,
        elapsed_time: i32,
    ) -> (r: Response)
        ensures
            r.wf(),
            r.done_date == done_date,
            r.status == status,
            r.body@ == body@,
            r.elapsed_time == elapsed_time,
            r@.header == merged(plain(fields@)),
    {
        let mut header: Vec<(String, Vec<u8>)> = Vec::new();
        let mut i: usize = 0;
        assert(as_map(header@) =~= merged(plain(fields@).take(0)));
        while i < fields.len()
            invariant
                i <= fields@.len(),
                distinct_names(header@),
                as_map(header@) == merged(plain(fields@).take(i as int)),
            decreases fields@.len() - i,
        {
            let ghost all = plain(fields@);
            assert(all.take(i + 1).drop_last() == all.take(i as int));
            assert(all.take(i + 1).last() == (fields@[i as int].0@, fields@[i as int].1@));
            let name = fields[i].0.clone();
            let value = copy_bytes(&fields[i].1);
            upsert(&mut header, name, value);
            i += 1;
        }
        assert(plain(fields@).take(i as int) == plain(fields@));
        Response { done_date, status, header, body, elapsed_time }
    }

    /// The raw value of the header `name`, if the response has one.
    pub fn header_value(&self, name: &str) -> (value: Option<&Vec<u8>>)
        requires
            self.wf(),
        ensures
            match value {
                Some(v) => self@.header.dom().contains(name@) && self@.header[name@] == v@,
                None => !self@.header.dom().contains(name@),
            },
    {
        match find(&self.header, name) {
            Some(i) => {
                proof {
                    lemma_entry_is_mapped(self.header@, i as int);
                }
                Some(&self.header[i].1)
            },
            None => None,
        }
    }
}

} // verus!
