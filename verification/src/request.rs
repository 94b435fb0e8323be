//! The request a user builds: a method, an address, headers and a body.

use vstd::prelude::*;
use crate::header::{as_map, distinct_names, has_name, lemma_entry_is_mapped, plain, upsert};

verus! {

/// An HTTP request as the user entered it. Nothing but the header names is checked here:
/// method and address are validated when the request is sent.
#[derive(Debug, Clone, PartialEq, Eq)]
pub struct Request {
    pub method: String,
    pub uri: String,
    /// Name and value of each header. No name occurs twice.
    pub header: Vec<(String, String)>,
    pub body: Vec<u8>,
}

/// The mathematical content of a [`Request`].
pub ghost struct RequestView {
    pub method: Seq<char>,
    pub uri: Seq<char>,
    pub header: Map<Seq<char>, Seq<char>>,
    pub body: Seq<u8>,
}

impl View for Request {
    type V = RequestView;

    open spec fn view(&self) -> RequestView {
        RequestView {
            method: self.method@,
            uri: self.uri@,
            header: as_map(self.header@),
            body: self.body@,
        }
    }
}

/// The headers that a table of rows stands for: rows are taken in order, a row without a
/// name is dropped, and a later row replaces an earlier one of the same name.
pub open spec fn collected(rows: Seq<(Seq<char>, Seq<char>)>) -> Map<Seq<char>, Seq<char>>
    decreases rows.len(),
{
    if rows.len() == 0 {
        Map::empty()
    } else {
        let before = collected(rows.drop_last());
        if rows.last().0.len() == 0 {
            before
        } else {
            before.insert(rows.last().0, rows.last().1)
        }
    }
}

/// A name is among the collected headers exactly if it is not empty and some row carries it.
pub proof fn lemma_collected_names(rows: Seq<(Seq<char>, Seq<char>)>, name: Seq<char>)
    ensures
        collected(rows).dom().contains(name) <==> (name.len() > 0 && exists|i: int|
            0 <= i < rows.len() && #[trigger] rows[i].0 == name),
    decreases rows.len(),
{
    if rows.len() > 0 {
        let before = rows.drop_last();
        lemma_collected_names(before, name);
        if collected(rows).dom().contains(name) {
            if collected(before).dom().contains(name) {
                let i = choose|i: int| 0 <= i < before.len() && #[trigger] before[i].0 == name;
                assert(rows[i].0 == name);
            } else {
                assert(rows[rows.len() - 1].0 == name);
            }
        }
        if name.len() > 0 && exists|i: int| 0 <= i < rows.len() && #[trigger] rows[i].0 == name {
            let i = choose|i: int| 0 <= i < rows.len() && #[trigger] rows[i].0 == name;
            if i < before.len() {
                assert(before[i].0 == name);
            }
        }
    }
}

/// The value collected for a name is that of the last row which carries the name.
pub proof fn lemma_collected_value(rows: Seq<(Seq<char>, Seq<char>)>, i: int)
    requires
        0 <= i < rows.len(),
        rows[i].0.len() > 0,
        forall|j: int| i < j < rows.len() ==> rows[j].0 != rows[i].0,
    ensures
        collected(rows).dom().contains(rows[i].0),
        collected(rows)[rows[i].0] == rows[i].1,
    decreases rows.len(),
{
    if i < rows.len() - 1 {
        let before = rows.drop_last();
        assert(before[i] == rows[i]);
        assert forall|j: int| i < j < before.len() implies before[j].0 != before[i].0 by {
            assert(before[j] == rows[j]);
        }
        lemma_collected_value(before, i);
    }
}

impl Request {
    /// No header name occurs twice.
    pub open spec fn wf(&self) -> bool {
        distinct_names(self.header@)
    }

    /// No header name is empty.
    pub open spec fn all_named(&self) -> bool {
        forall|i: int| 0 <= i < self.header@.len() ==> self.header@[i].0@.len() > 0
    }

    /// Builds a request from the rows of a header table. Rows without a name are dropped;
    /// of several rows with one name the last one counts.
    pub fn new(method: String, uri: String, headers: Vec<(String, String)>, body: Vec<u8>) -> (r:
        Request)
        ensures
            r.wf(),
            r.all_named(),
            r.method@ == method@,
            r.uri@ == uri@,
            r.body@ == body@,
            r@.header == collected(plain(headers@)),
            !r@.header.dom().contains(Seq::<char>::empty()),
            forall|name: Seq<char>|
                r@.header.dom().contains(name) <==> (name.len() > 0 && has_name(headers@, name)),
    {
        let mut header: Vec<(String, String)> = Vec::new();
        let mut i: usize = 0;
        assert(as_map(header@) =~= collected(plain(headers@).take(0)));
        while i < headers.len()
            invariant
                i <= headers@.len(),
                distinct_names(header@),
                forall|k: int| 0 <= k < header@.len() ==> header@[k].0@.len() > 0,
                as_map(header@) == collected(plain(headers@).take(i as int)),
            decreases headers@.len() - i,
        {
            let ghost rows = plain(headers@);
            assert(rows.take(i + 1).drop_last() == rows.take(i as int));
            assert(rows.take(i + 1).last() == (headers@[i as int].0@, headers@[i as int].1@));
            if !headers[i].0.as_str().is_empty() {
                let name = headers[i].0.clone();
                let value = headers[i].1.clone();
                upsert(&mut header, name, value);
            }
            i += 1;
        }
        assert(plain(headers@).take(i as int) == plain(headers@));
        let r = Request { method, uri, header, body };
        proof {
            assert forall|name: Seq<char>|
                r@.header.dom().contains(name) <==> (name.len() > 0 && has_name(
                    headers@,
                    name,
                )) by {
                let rows = plain(headers@);
                lemma_collected_names(rows, name);
                if has_name(headers@, name) {
                    let k = choose|k: int|
                        0 <= k < headers@.len() && #[trigger] headers@[k].0@ == name;
                    assert(rows[k].0 == name);
                }
                if exists|k: int| 0 <= k < rows.len() && #[trigger] rows[k].0 == name {
                    let k = choose|k: int| 0 <= k < rows.len() && #[trigger] rows[k].0 == name;
                    assert(headers@[k].0@ == name);
                }
            }
        }
        r
    }

    /// The value of the header `name`, if the request has one.
    pub fn header_value(&self, name: &str) -> (value: Option<&String>)
        requires
            self.wf(),
        ensures
            match value {
                Some(v) => self@.header.dom().contains(name@) && self@.header[name@] == v@,
                None => !self@.header.dom().contains(name@),
            },
    {
        match crate::header::find(&self.header, name) {
            Some(i) => {
                proof {
                    lemma_entry_is_mapped(self.header@, i as int);
                }
                Some(&self.header[i].1)
            },
            None => None,
        }
    }
}

} // verus!
