//! The entry form: what is typed for a request, the completions offered while typing, and
//! the request that is built on submission.

use vstd::prelude::*;
use vstd::string::{StrSliceExecFns, StringExecFns};
use crate::header::plain;
use crate::log::LogContent;
use crate::request::{collected, Request};
use crate::text::{chars_of, str_eq, string_from_utf8};

verus! {

/// The content of a list of texts.
pub open spec fn texts(list: Seq<String>) -> Seq<Seq<char>> {
    Seq::new(list.len(), |i: int| list[i]@)
}

/// Whether `text` begins with `prefix`.
pub open spec fn has_prefix(prefix: Seq<char>, text: Seq<char>) -> bool {
    prefix.len() <= text.len() && text.subrange(0, prefix.len() as int) == prefix
}

/// Whether `text` begins with `prefix`.
pub fn starts_with(text: &str, prefix: &str) -> (r: bool)
    ensures
        r == has_prefix(prefix@, text@),
{
    let t = chars_of(text);
    let p = chars_of(prefix);
    if p.len() > t.len() {
        return false;
    }
    let mut i: usize = 0;
    while i < p.len()
        invariant
            i <= p@.len(),
            t@ == text@,
            p@ == prefix@,
            p@.len() <= t@.len(),
            forall|k: int| 0 <= k < i ==> t@[k] == p@[k],
        decreases p@.len() - i,
    {
        if t[i] != p[i] {
            assert(t@.subrange(0, p@.len() as int)[i as int] != p@[i as int]);
            return false;
        }
        i += 1;
    }
    assert(t@.subrange(0, p@.len() as int) =~= p@);
    true
}

/// The address that stands in the form once the field is left: an entry that does not
/// begin with `http` gets `http://` put in front, an empty entry stays empty.
pub open spec fn completed_uri(input: Seq<char>) -> Seq<char> {
    if input.len() > 0 && !has_prefix("http"@, input) {
        "http://"@ + input
    } else {
        input
    }
}

/// The address that stands in the form once the field is left.
pub fn complete_uri(input: &str) -> (uri: String)
    ensures
        uri@ == completed_uri(input@),
{
    if !input.is_empty() && !starts_with(input, "http") {
        String::from_str("http://").concat(input)
    } else {
        String::from_str(input)
    }
}

/// `text` in lower case, as std's `str::to_lowercase` gives it.
pub uninterp spec fn lowercase(text: Seq<char>) -> Seq<char>;

/// `str::to_lowercase` of std, whose result `lowercase` names.
#[verifier::external_body]
fn to_lowercase(text: &str) -> (lower: String)
    ensures
        lower@ == lowercase(text@),
{
    text.to_lowercase()
}

/// The header names that are offered for completion.
pub open spec fn known_headers() -> Seq<Seq<char>> {
    seq![
        "accept"@,
        "accept-charset"@,
        "accept-encoding"@,
        "accept-language"@,
        "accept-ranges"@,
        "access-control-allow-credentials"@,
        "access-control-allow-headers"@,
        "access-control-allow-methods"@,
        "access-control-allow-origin"@,
        "access-control-expose-headers"@,
        "access-control-max-age"@,
        "access-control-request-headers"@,
        "access-control-request-method"@,
        "age"@,
        "allow"@,
        "alt-svc"@,
        "authorization"@,
        "cache-control"@,
        "cache-status"@,
        "cdn-cache-control"@,
        "connection"@,
        "content-disposition"@,
        "content-encoding"@,
        "content-language"@,
        "content-length"@,
        "content-location"@,
        "content-range"@,
        "content-security-policy"@,
        "content-security-policy-report-only"@,
        "content-type"@,
        "cookie"@,
        "date"@,
        "dnt"@,
        "etag"@,
        "expect"@,
        "expires"@,
        "forwarded"@,
        "from"@,
        "host"@,
        "if-match"@,
        "if-modified-since"@,
        "if-none-match"@,
        "if-range"@,
        "if-unmodified-since"@,
        "last-modified"@,
        "link"@,
        "location"@,
        "max-forwards"@,
        "origin"@,
        "pragma"@,
        "proxy-authenticate"@,
        "proxy-authorization"@,
        "public-key-pins"@,
        "public-key-pins-report-only"@,
        "range"@,
        "referer"@,
        "referrer-policy"@,
        "refresh"@,
        "retry-after"@,
        "sec-websocket-accept"@,
        "sec-websocket-extensions"@,
        "sec-websocket-key"@,
        "sec-websocket-protocol"@,
        "sec-websocket-version"@,
        "server"@,
        "set-cookie"@,
        "strict-transport-security"@,
        "te"@,
        "trailer"@,
        "transfer-encoding"@,
        "upgrade"@,
        "upgrade-insecure-requests"@,
        "user-agent"@,
        "vary"@,
        "via"@,
        "warning"@,
        "www-authenticate"@,
        "x-content-type-options"@,
        "x-dns-prefetch-control"@,
        "x-frame-options"@,
        "x-xss-protection"@,
    ]
}

/// Those of `names` that begin with `prefix`, in their order.
pub open spec fn beginning_with(names: Seq<Seq<char>>, prefix: Seq<char>) -> Seq<Seq<char>>
    decreases names.len(),
{
    if names.len() == 0 {
        Seq::empty()
    } else {
        let before = beginning_with(names.drop_last(), prefix);
        if has_prefix(prefix, names.last()) {
            before.push(names.last())
        } else {
            before
        }
    }
}

/// The completions offered for what was typed as a header name: the known names that
/// begin with it, in lower case; and before them the entry itself, unless it is empty or
/// one of them.
pub open spec fn header_completions(input: Seq<char>) -> Seq<Seq<char>> {
    let typed = lowercase(input);
    let found = beginning_with(known_headers(), typed);
    if typed.len() > 0 && !found.contains(typed) {
        seq![typed] + found
    } else {
        found
    }
}

/// The header names that are offered for completion.
fn headers() -> (names: Vec<&'static str>)
    ensures
        names@.len() == known_headers().len(),
        forall|i: int| 0 <= i < names@.len() ==> names@[i]@ == known_headers()[i],
{
    let names = vec![
        "accept",
        "accept-charset",
        "accept-encoding",
        "accept-language",
        "accept-ranges",
        "access-control-allow-credentials",
        "access-control-allow-headers",
        "access-control-allow-methods",
        "access-control-allow-origin",
        "access-control-expose-headers",
        "access-control-max-age",
        "access-control-request-headers",
        "access-control-request-method",
        "age",
        "allow",
        "alt-svc",
        "authorization",
        "cache-control",
        "cache-status",
        "cdn-cache-control",
        "connection",
        "content-disposition",
        "content-encoding",
        "content-language",
        "content-length",
        "content-location",
        "content-range",
        "content-security-policy",
        "content-security-policy-report-only",
        "content-type",
        "cookie",
        "date",
        "dnt",
        "etag",
        "expect",
        "expires",
        "forwarded",
        "from",
        "host",
        "if-match",
        "if-modified-since",
        "if-none-match",
        "if-range",
        "if-unmodified-since",
        "last-modified",
        "link",
        "location",
        "max-forwards",
        "origin",
        "pragma",
        "proxy-authenticate",
        "proxy-authorization",
        "public-key-pins",
        "public-key-pins-report-only",
        "range",
        "referer",
        "referrer-policy",
        "refresh",
        "retry-after",
        "sec-websocket-accept",
        "sec-websocket-extensions",
        "sec-websocket-key",
        "sec-websocket-protocol",
        "sec-websocket-version",
        "server",
        "set-cookie",
        "strict-transport-security",
        "te",
        "trailer",
        "transfer-encoding",
        "upgrade",
        "upgrade-insecure-requests",
        "user-agent",
        "vary",
        "via",
        "warning",
        "www-authenticate",
        "x-content-type-options",
        "x-dns-prefetch-control",
        "x-frame-options",
        "x-xss-protection",
    ];
    names
}

/// The completions offered for what was typed as a header name.
pub fn header_options(input: &str) -> (options: Vec<String>)
    ensures
        texts(options@) == header_completions(input@),
{
    let typed = to_lowercase(input);
    let names = headers();
    let ghost known = known_headers();
    let mut found: Vec<String> = Vec::new();
    let mut listed = false;
    let mut i: usize = 0;
    assert(known.take(0) =~= Seq::empty());
    assert(texts(found@) =~= Seq::empty());
    while i < names.len()
        invariant
            i <= names@.len(),
            known == known_headers(),
            names@.len() == known.len(),
            forall|k: int| 0 <= k < names@.len() ==> names@[k]@ == known[k],
            texts(found@) == beginning_with(known.take(i as int), typed@),
            listed == texts(found@).contains(typed@),
        decreases names@.len() - i,
    {
        proof {
            assert(known.take(i + 1).drop_last() =~= known.take(i as int));
            assert(known.take(i + 1).last() == known[i as int]);
        }
        if starts_with(names[i], typed.as_str()) {
            let ghost before = texts(found@);
            if str_eq(names[i], typed.as_str()) {
                listed = true;
            }
            found.push(String::from_str(names[i]));
            assert(texts(found@) =~= before.push(names@[i as int]@));
            proof {
                let after = texts(found@);
                if before.contains(typed@) {
                    let k = choose|k: int| 0 <= k < before.len() && before[k] == typed@;
                    assert(after[k] == typed@);
                }
                if names@[i as int]@ == typed@ {
                    assert(after[after.len() - 1] == typed@);
                }
                if after.contains(typed@) {
                    let k = choose|k: int| 0 <= k < after.len() && after[k] == typed@;
                    if k < before.len() {
                        assert(before[k] == typed@);
                    }
                }
            }
        }
        i += 1;
    }
    assert(known.take(i as int) =~= known);
    if !typed.as_str().is_empty() && !listed {
        let ghost before = texts(found@);
        found.insert(0, typed);
        assert(texts(found@) =~= seq![typed@] + before);
    }
    found
}

/// What stands in the entry form.
#[derive(Debug, Clone, PartialEq, Eq)]
pub struct Form {
    pub method: String,
    pub uri: String,
    /// The rows of the header table. The last row is the one in which a new header is
    /// entered.
    pub rows: Vec<(String, String)>,
    pub body: String,
}

/// The text shown for the body of a logged request: the body where it is UTF-8, and
/// nothing otherwise.
pub open spec fn body_shown(body: Seq<u8>) -> Seq<char> {
    if vstd::utf8::valid_utf8(body) {
        vstd::utf8::decode_utf8(body)
    } else {
        Seq::empty()
    }
}

impl Form {
    /// The form as it first appears: the method `GET` and one empty row for a header.
    pub fn new() -> (form: Form)
        ensures
            form.method@ == "GET"@,
            form.uri@.len() == 0,
            form.body@.len() == 0,
            plain(form.rows@) == seq![(Seq::<char>::empty(), Seq::<char>::empty())],
    {
        let mut rows: Vec<(String, String)> = Vec::new();
        rows.push((String::new(), String::new()));
        let form = Form {
            method: String::from_str("GET"),
            uri: String::new(),
            rows,
            body: String::new(),
        };
        assert(plain(form.rows@) =~= seq![(Seq::<char>::empty(), Seq::<char>::empty())]);
        form
    }

    /// The form filled from an entry of the log: its request, with one more, empty row for
    /// a further header.
    pub fn from_log(content: &LogContent) -> (form: Form)
        ensures
            form.method@ == content.request.method@,
            form.uri@ == content.request.uri@,
            form.body@ == body_shown(content.request.body@),
            plain(form.rows@) == plain(content.request.header@).push(
                (Seq::<char>::empty(), Seq::<char>::empty()),
            ),
    {
        let mut rows: Vec<(String, String)> = Vec::new();
        let header = &content.request.header;
        let mut i: usize = 0;
        while i < header.len()
            invariant
                i <= header@.len(),
                rows@.len() == i,
                forall|k: int|
                    0 <= k < i ==> rows@[k].0@ == header@[k].0@ && rows@[k].1@ == header@[k].1@,
            decreases header@.len() - i,
        {
            rows.push((header[i].0.clone(), header[i].1.clone()));
            i += 1;
        }
        rows.push((String::new(), String::new()));
        let body = match string_from_utf8(crate::text::copy_bytes(&content.request.body)) {
            Ok(text) => text,
            Err(_) => String::new(),
        };
        let form = Form {
            method: content.request.method.clone(),
            uri: content.request.uri.clone(),
            rows,
            body,
        };
        assert(plain(form.rows@) =~= plain(content.request.header@).push(
            (Seq::<char>::empty(), Seq::<char>::empty()),
        ));
        form
    }

    /// Whether a body may be entered: only for the methods `PATCH`, `POST` and `PUT`.
    pub fn body_editable(&self) -> (r: bool)
        ensures
            r == (self.method@ == "PATCH"@ || self.method@ == "POST"@ || self.method@ == "PUT"@),
    {
        let method = self.method.as_str();
        str_eq(method, "PATCH") || str_eq(method, "POST") || str_eq(method, "PUT")
    }

    /// A header name was chosen in row `index`. Where that is the last row, a new empty
    /// row follows it.
    pub fn name_chosen(&mut self, index: usize, name: String)
        requires
            index < old(self).rows@.len(),
        ensures
            final(self).method == old(self).method,
            final(self).uri == old(self).uri,
            final(self).body == old(self).body,
            index + 1 < old(self).rows@.len() ==> plain(final(self).rows@) == plain(
                old(self).rows@,
            ).update(index as int, (name@, old(self).rows@[index as int].1@)),
            index + 1 == old(self).rows@.len() ==> plain(final(self).rows@) == plain(
                old(self).rows@,
            ).update(index as int, (name@, old(self).rows@[index as int].1@)).push(
                (Seq::<char>::empty(), Seq::<char>::empty()),
            ),
    {
        let ghost before = plain(self.rows@);
        let last = index == self.rows.len() - 1;
        let value = self.rows[index].1.clone();
        self.rows.set(index, (name, value));
        assert(plain(self.rows@) =~= before.update(index as int, (name@, value@)));
        if last {
            let ghost updated = plain(self.rows@);
            self.rows.push((String::new(), String::new()));
            assert(plain(self.rows@) =~= updated.push(
                (Seq::<char>::empty(), Seq::<char>::empty()),
            ));
        }
    }

    /// A header value was entered in row `index`.
    pub fn value_entered(&mut self, index: usize, value: String)
        requires
            index < old(self).rows@.len(),
        ensures
            final(self).method == old(self).method,
            final(self).uri == old(self).uri,
            final(self).body == old(self).body,
            plain(final(self).rows@) == plain(old(self).rows@).update(
                index as int,
                (old(self).rows@[index as int].0@, value@),
            ),
    {
        let ghost before = plain(self.rows@);
        let name = self.rows[index].0.clone();
        self.rows.set(index, (name, value));
        assert(plain(self.rows@) =~= before.update(index as int, (name@, value@)));
    }

    /// Row `index` was removed.
    pub fn row_removed(&mut self, index: usize)
        requires
            index < old(self).rows@.len(),
        ensures
            final(self).method == old(self).method,
            final(self).uri == old(self).uri,
            final(self).body == old(self).body,
            plain(final(self).rows@) == plain(old(self).rows@).remove(index as int),
    {
        let ghost before = plain(self.rows@);
        let _ = self.rows.remove(index);
        assert(plain(self.rows@) =~= before.remove(index as int));
    }

    /// The request that is sent when the form is submitted: rows without a header name
    /// are left out, and the body goes as the bytes of its text.
    pub fn submit(&self) -> (request: Request)
        ensures
            request.wf(),
            request.all_named(),
            request.method@ == self.method@,
            request.uri@ == self.uri@,
            request.body@ == vstd::utf8::encode_utf8(self.body@),
            request@.header == collected(plain(self.rows@)),
    {
        let mut rows: Vec<(String, String)> = Vec::new();
        let mut i: usize = 0;
        while i < self.rows.len()
            invariant
                i <= self.rows@.len(),
                rows@.len() == i,
                forall|k: int|
                    0 <= k < i ==> rows@[k].0@ == self.rows@[k].0@ && rows@[k].1@
                        == self.rows@[k].1@,
            decreases self.rows@.len() - i,
        {
            rows.push((self.rows[i].0.clone(), self.rows[i].1.clone()));
            i += 1;
        }
        assert(plain(rows@) =~= plain(self.rows@));
        Request::new(
            self.method.clone(),
            self.uri.clone(),
            rows,
            self.body.as_str().as_bytes_vec(),
        )
    }
}

} // verus!
