//! From the bytes of a response body and its declared content type to the text shown.

use vstd::prelude::*;
use crate::charset::{charset_named, decode, decode_in, decoded, Charset};
use crate::error::Error;
use crate::text::{chars_of, str_eq};

verus! {

/// A media type, with the character set it declares.
#[derive(Debug, Clone, PartialEq, Eq)]
pub struct ContentType {
    /// The type before the slash, in lower case.
    pub basetype: String,
    /// The type after the slash, in lower case.
    pub subtype: String,
    /// The value of the `charset` parameter, if there is one.
    pub charset: Option<String>,
}

/// The mathematical content of a [`ContentType`].
pub ghost struct ContentTypeView {
    pub basetype: Seq<char>,
    pub subtype: Seq<char>,
    pub charset: Option<Seq<char>>,
}

impl View for ContentType {
    type V = ContentTypeView;

    open spec fn view(&self) -> ContentTypeView {
        ContentTypeView {
            basetype: self.basetype@,
            subtype: self.subtype@,
            charset: match self.charset {
                Some(c) => Some(c@),
                None => None,
            },
        }
    }
}

/// What `http_types` reads from `text` as a media type: the type, the subtype and the value
/// of the parameter `param`; nothing where `text` is no media type.
pub uninterp spec fn mime_parsed(text: Seq<char>, param: Seq<char>) -> Option<
    (Seq<char>, Seq<char>, Option<Seq<char>>),
>;

/// What `serde_json` gives when it reads `bytes` as a JSON value and writes that value
/// again with indentation; nothing where `bytes` are no JSON.
pub uninterp spec fn json_reformatted(bytes: Seq<u8>) -> Option<Seq<u8>>;

/// `http_types::Mime`'s `from_str`, then `basetype`, `subtype` and `param` of the media
/// type read. The contract names the three by `mime_parsed`. `param` panics on a name that
/// is not ASCII, so such a name is left out.
#[verifier::external_body]
fn parse_mime(text: &str, param: &str) -> (parts: Option<(String, String, Option<String>)>)
    requires
        vstd::utf8::is_ascii_chars(param@),
    ensures
        match parts {
            Some(p) => mime_parsed(text@, param@) == Some(
                (
                    p.0@,
                    p.1@,
                    match p.2 {
                        Some(v) => Some(v@),
                        None => None,
                    },
                ),
            ),
            None => mime_parsed(text@, param@) is None,
        },
{
    let mime = text.parse::<http_types::Mime>().ok()?;
    let value = mime.param(param).map(|v| v.as_str().to_string());
    Some((mime.basetype().to_string(), mime.subtype().to_string(), value))
}

/// `serde_json::from_slice` into a `serde_json::Value`, then `serde_json::to_vec_pretty` of
/// that value. The contract names the outcome by `json_reformatted`.
#[verifier::external_body]
fn reformat_json(bytes: &[u8]) -> (pretty: Option<Vec<u8>>)
    ensures
        match pretty {
            Some(p) => json_reformatted(bytes@) == Some(p@),
            None => json_reformatted(bytes@) is None,
        },
{
    let value = serde_json::from_slice::<serde_json::Value>(bytes).ok()?;
    serde_json::to_vec_pretty(&value).ok()
}

/// The media type that `text` declares, if it declares one.
pub open spec fn content_type_of(text: Seq<char>) -> Option<ContentTypeView> {
    match mime_parsed(text, "charset"@) {
        Some(parts) => Some(
            ContentTypeView { basetype: parts.0, subtype: parts.1, charset: parts.2 },
        ),
        None => None,
    }
}

/// The `len` characters of `hay` from position `at` on.
pub open spec fn window(hay: Seq<char>, at: int, len: nat) -> Seq<char> {
    hay.subrange(at, at + len)
}

/// Whether `needle` occurs in `hay` as a run of adjacent characters.
pub open spec fn occurs_in(needle: Seq<char>, hay: Seq<char>) -> bool {
    exists|i: int|
        0 <= i && i + needle.len() <= hay.len() && #[trigger] window(hay, i, needle.len())
            == needle
}

/// Whether a body of this media type is shown as text: every `text` type is, the subtypes
/// `json`, `x-www-form-urlencoded`, `markdown` and `rtf` are, and every subtype with `xml`
/// in its name.
pub open spec fn textual(content_type: ContentTypeView) -> bool {
    ||| content_type.basetype == "text"@
    ||| content_type.subtype == "json"@
    ||| content_type.subtype == "x-www-form-urlencoded"@
    ||| content_type.subtype == "markdown"@
    ||| content_type.subtype == "rtf"@
    ||| occurs_in("xml"@, content_type.subtype)
}

/// The bytes that are decoded for a body of the given subtype: JSON is written anew with
/// indentation, unless it cannot be read, and everything else is taken as it is.
pub open spec fn prepared(subtype: Seq<char>, body: Seq<u8>) -> Seq<u8> {
    if subtype == "json"@ {
        match json_reformatted(body) {
            Some(pretty) => pretty,
            None => body,
        }
    } else {
        body
    }
}

/// The character set in which a body of this media type is read: the declared one, and
/// UTF-8 where none is declared.
pub open spec fn declared_charset(content_type: ContentTypeView) -> Charset {
    match content_type.charset {
        Some(label) => charset_named(label),
        None => Charset::Utf8,
    }
}

/// What becomes of a body that is to be shown.
pub ghost enum Shown {
    /// The body reads as this text.
    Text(Seq<char>),
    /// The media type is not a textual one: the body is not read at all.
    NoText,
    /// The body is text by its media type, but its bytes could not be decoded.
    Undecodable,
}

/// What becomes of the bytes `bytes` read in `charset`.
pub open spec fn shown_in(charset: Charset, bytes: Seq<u8>) -> Shown {
    match decoded(charset, bytes) {
        Some(text) => Shown::Text(text),
        None => Shown::Undecodable,
    }
}

/// What is shown for a body. For a media type that is not textual nothing is read;
/// otherwise the prepared bytes are decoded in the declared character set. Without a media
/// type the body is read as UTF-8.
pub open spec fn shown_body(body: Seq<u8>, content_type: Option<ContentTypeView>) -> Shown {
    match content_type {
        None => shown_in(Charset::Utf8, body),
        Some(ct) => if textual(ct) {
            shown_in(declared_charset(ct), prepared(ct.subtype, body))
        } else {
            Shown::NoText
        },
    }
}

/// Whether `needle` occurs in `hay`.
pub fn contains(hay: &str, needle: &str) -> (found: bool)
    ensures
        found == occurs_in(needle@, hay@),
{
    let h = chars_of(hay);
    let n = chars_of(needle);
    if n.len() > h.len() {
        return false;
    }
    let last = h.len() - n.len();
    let mut i: usize = 0;
    while i <= last
        invariant
            h@ == hay@,
            n@ == needle@,
            i <= last + 1,
            h@.len() <= usize::MAX,
            last == h@.len() - n@.len(),
            forall|k: int| 0 <= k < i ==> #[trigger] window(h@, k, n@.len()) != n@,
        decreases last + 1 - i,
    {
        let mut j: usize = 0;
        while j < n.len() && h[i + j] == n[j]
            invariant
                j <= n@.len(),
                i <= last,
                h@.len() <= usize::MAX,
                last == h@.len() - n@.len(),
                forall|k: int| 0 <= k < j ==> h@[i + k] == n@[k],
            decreases n@.len() - j,
        {
            j += 1;
        }
        if j == n.len() {
            assert(window(h@, i as int, n@.len()) =~= n@);
            return true;
        }
        assert(window(h@, i as int, n@.len())[j as int] != n@[j as int]);
        i += 1;
    }
    false
}

impl ContentType {
    /// Reads a media type from the value of a `content-type` header.
    pub fn parse(text: &str) -> (r: Option<ContentType>)
        ensures
            match r {
                Some(ct) => content_type_of(text@) == Some(ct@),
                None => content_type_of(text@) is None,
            },
    {
        proof {
            reveal_strlit("charset");
        }
        match parse_mime(text, "charset") {
            Some(parts) => Some(
                ContentType { basetype: parts.0, subtype: parts.1, charset: parts.2 },
            ),
            None => None,
        }
    }

    /// Whether a body of this media type is shown as text.
    pub fn is_textual(&self) -> (r: bool)
        ensures
            r == textual(self@),
    {
        let sub = self.subtype.as_str();
        str_eq(self.basetype.as_str(), "text") || str_eq(sub, "json") || str_eq(
            sub,
            "x-www-form-urlencoded",
        ) || str_eq(sub, "markdown") || str_eq(sub, "rtf") || contains(sub, "xml")
    }
}

/// The text to show for the body of a response, given the media type that its
/// `content-type` header declares, if it declares one.
pub fn body_text(body: Vec<u8>, content_type: Option<ContentType>) -> (r: Result<String, Error>)
    ensures
        match r {
            Ok(text) => shown_body(body@, content_type_view(content_type)) == Shown::Text(text@),
            Err(e) => match shown_body(body@, content_type_view(content_type)) {
                Shown::Text(_) => false,
                Shown::NoText => e@ is NoTextBody,
                Shown::Undecodable => e@ is Decoding,
            },
        },
        content_type is None ==> match r {
            Ok(text) => vstd::utf8::valid_utf8(body@) && text@ == vstd::utf8::decode_utf8(body@),
            Err(_) => !vstd::utf8::valid_utf8(body@),
        },
{
    match content_type {
        None => decode_in(body, Charset::Utf8),
        Some(ct) => {
            if !ct.is_textual() {
                return Err(Error::NoTextBody);
            }
            let bytes = if str_eq(ct.subtype.as_str(), "json") {
                match reformat_json(body.as_slice()) {
                    Some(pretty) => pretty,
                    None => body,
                }
            } else {
                body
            };
            match ct.charset {
                Some(label) => decode(bytes, label.as_str()),
                None => decode_in(bytes, Charset::Utf8),
            }
        },
    }
}

/// The content of an optional media type.
pub open spec fn content_type_view(content_type: Option<ContentType>) -> Option<ContentTypeView> {
    match content_type {
        Some(ct) => Some(ct@),
        None => None,
    }
}

} // verus!
