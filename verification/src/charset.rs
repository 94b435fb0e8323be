//! The character sets in which a response body may be written, and their decoding.

use vstd::prelude::*;
use encoding::Encoding;
use crate::error::Error;
use crate::text::{ascii_lower, chars_of, latin, string_from_utf8, to_ascii_lower};

verus! {

/// A supported character set.
#[derive(Debug, Clone, Copy, PartialEq, Eq, Structural)]
pub enum Charset {
    Ascii,
    Gb18030,
    Gbk,
    Iso8859_1,
    Utf8,
}

/// `text` with every ASCII capital letter in lower case.
pub open spec fn lowered(text: Seq<char>) -> Seq<char> {
    Seq::new(text.len(), |i: int| ascii_lower(text[i]))
}

/// The character set that a label names, whatever the case of its letters. A label that
/// names none of the supported sets stands for UTF-8.
pub open spec fn charset_named(label: Seq<char>) -> Charset {
    if lowered(label) == "ascii"@ {
        Charset::Ascii
    } else if lowered(label) == "gb18030"@ {
        Charset::Gb18030
    } else if lowered(label) == "gbk"@ {
        Charset::Gbk
    } else if lowered(label) == "iso-8859-1"@ {
        Charset::Iso8859_1
    } else {
        Charset::Utf8
    }
}

/// The text that `encoding` reads from `bytes` as GBK, where all of them are valid GBK.
pub uninterp spec fn gbk_text(bytes: Seq<u8>) -> Option<Seq<char>>;

/// The text that `encoding` reads from `bytes` as GB 18030, where all of them are valid.
pub uninterp spec fn gb18030_text(bytes: Seq<u8>) -> Option<Seq<char>>;

/// The text that `encoding` reads from `bytes` as UTF-8, where all of them are valid.
pub uninterp spec fn utf8_text(bytes: Seq<u8>) -> Option<Seq<char>>;

/// The text that `bytes` are in 7-bit ASCII: every byte must be below 128.
pub open spec fn ascii_text(bytes: Seq<u8>) -> Option<Seq<char>> {
    if forall|i: int| 0 <= i < bytes.len() ==> #[trigger] bytes[i] < 128 {
        Some(latin(bytes))
    } else {
        None
    }
}

/// The text that `bytes` are in `charset`, read strictly: nothing where a byte does not fit.
pub open spec fn strict_text(charset: Charset, bytes: Seq<u8>) -> Option<Seq<char>> {
    match charset {
        Charset::Ascii => ascii_text(bytes),
        Charset::Gb18030 => gb18030_text(bytes),
        Charset::Gbk => gbk_text(bytes),
        Charset::Iso8859_1 => Some(latin(bytes)),
        Charset::Utf8 => utf8_text(bytes),
    }
}

/// What decoding yields: the strict reading in `charset`; where there is none, the bytes
/// read as UTF-8; and a failure where they are not UTF-8 either.
pub open spec fn decoded(charset: Charset, bytes: Seq<u8>) -> Option<Seq<char>> {
    match strict_text(charset, bytes) {
        Some(text) => Some(text),
        None => if vstd::utf8::valid_utf8(bytes) {
            Some(vstd::utf8::decode_utf8(bytes))
        } else {
            None
        },
    }
}

/// `decode` of `encoding::all::ASCII` with the strict trap: it fails at the first byte of
/// 128 or more, and otherwise gives each byte as the character of the same number.
#[verifier::external_body]
fn decode_ascii(bytes: &[u8]) -> (text: Option<String>)
    ensures
        match text {
            Some(s) => ascii_text(bytes@) == Some(s@),
            None => ascii_text(bytes@) is None,
        },
{
    encoding::all::ASCII.decode(bytes, encoding::DecoderTrap::Strict).ok()
}

/// `decode` of `encoding::all::ISO_8859_1` with the strict trap: it never fails, and gives
/// each byte as the character of the same number.
#[verifier::external_body]
fn decode_iso_8859_1(bytes: &[u8]) -> (text: Option<String>)
    ensures
        text is Some,
        text matches Some(s) ==> s@ == latin(bytes@),
{
    encoding::all::ISO_8859_1.decode(bytes, encoding::DecoderTrap::Strict).ok()
}

/// `decode` of `encoding::all::GBK` with the strict trap, whose result `gbk_text` names.
#[verifier::external_body]
fn decode_gbk(bytes: &[u8]) -> (text: Option<String>)
    ensures
        match text {
            Some(s) => gbk_text(bytes@) == Some(s@),
            None => gbk_text(bytes@) is None,
        },
{
    encoding::all::GBK.decode(bytes, encoding::DecoderTrap::Strict).ok()
}

/// `decode` of `encoding::all::GB18030` with the strict trap, whose result `gb18030_text`
/// names.
#[verifier::external_body]
fn decode_gb18030(bytes: &[u8]) -> (text: Option<String>)
    ensures
        match text {
            Some(s) => gb18030_text(bytes@) == Some(s@),
            None => gb18030_text(bytes@) is None,
        },
{
    encoding::all::GB18030.decode(bytes, encoding::DecoderTrap::Strict).ok()
}

/// `decode` of `encoding::all::UTF_8` with the strict trap, whose result `utf8_text` names.
/// What it decodes it hands on byte for byte, so the text it gives is written in UTF-8 as
/// the bytes it was given.
#[verifier::external_body]
fn decode_utf_8(bytes: &[u8]) -> (text: Option<String>)
    ensures
        match text {
            Some(s) => utf8_text(bytes@) == Some(s@),
            None => utf8_text(bytes@) is None,
        },
        text matches Some(s) ==> vstd::utf8::encode_utf8(s@) == bytes@,
{
    encoding::all::UTF_8.decode(bytes, encoding::DecoderTrap::Strict).ok()
}

/// Whether `label`, with its capitals lowered, reads `name`.
fn names(label: &Vec<char>, name: &str) -> (same: bool)
    ensures
        same == (lowered(label@) == name@),
{
    let wanted = chars_of(name);
    if label.len() != wanted.len() {
        return false;
    }
    let mut i: usize = 0;
    while i < label.len()
        invariant
            i <= label@.len(),
            wanted@ == name@,
            label@.len() == wanted@.len(),
            forall|k: int| 0 <= k < i ==> lowered(label@)[k] == wanted@[k],
        decreases label@.len() - i,
    {
        if to_ascii_lower(label[i]) != wanted[i] {
            assert(lowered(label@)[i as int] != wanted@[i as int]);
            return false;
        }
        i += 1;
    }
    assert(lowered(label@) =~= wanted@);
    true
}

impl Charset {
    /// The character set that `label` names, whatever the case of its letters; UTF-8 for a
    /// label that names none.
    pub fn from_label(label: &str) -> (charset: Charset)
        ensures
            charset == charset_named(label@),
    {
        let label = chars_of(label);
        if names(&label, "ascii") {
            Charset::Ascii
        } else if names(&label, "gb18030") {
            Charset::Gb18030
        } else if names(&label, "gbk") {
            Charset::Gbk
        } else if names(&label, "iso-8859-1") {
            Charset::Iso8859_1
        } else {
            Charset::Utf8
        }
    }

    /// Reads `bytes` strictly in this character set: no byte is replaced or skipped.
    pub fn decode_strict(&self, bytes: &Vec<u8>) -> (text: Option<String>)
        ensures
            match text {
                Some(s) => strict_text(*self, bytes@) == Some(s@),
                None => strict_text(*self, bytes@) is None,
            },
            *self == Charset::Utf8 ==> (text matches Some(s) ==> vstd::utf8::valid_utf8(bytes@)
                && s@ == vstd::utf8::decode_utf8(bytes@)),
    {

        match self {
            Charset::Ascii => decode_ascii(bytes.as_slice()),
            Charset::Gb18030 => decode_gb18030(bytes.as_slice()),
            Charset::Gbk => decode_gbk(bytes.as_slice()),
            Charset::Iso8859_1 => decode_iso_8859_1(bytes.as_slice()),
            Charset::Utf8 => {
                let text = decode_utf_8(bytes.as_slice());
                proof {
                    if text is Some {
                        vstd::utf8::encode_utf8_valid_utf8(text->0@);
                        vstd::utf8::encode_utf8_decode_utf8(text->0@);
                    }
                }
                text
            },
        }
    }
}

/// Turns the bytes of a body into text. They are read strictly in `charset`; where that
/// fails they are read as UTF-8; where that fails too, the decoding has failed. In UTF-8
/// itself, therefore, exactly the bodies that are valid UTF-8 are decoded.
pub fn decode_in(text: Vec<u8>, charset: Charset) -> (r: Result<String, Error>)
    ensures
        match r {
            Ok(s) => decoded(charset, text@) == Some(s@),
            Err(e) => decoded(charset, text@) is None && e@ is Decoding,
        },
        charset == Charset::Utf8 ==> match r {
            Ok(s) => vstd::utf8::valid_utf8(text@) && s@ == vstd::utf8::decode_utf8(text@),
            Err(_) => !vstd::utf8::valid_utf8(text@),
        },
{
    match charset.decode_strict(&text) {
        Some(s) => Ok(s),
        None => match string_from_utf8(text) {
            Ok(s) => Ok(s),
            Err(src) => Err(Error::Decoding { src }),
        },
    }
}

/// Turns the bytes of a body into text, in the character set that the label `charset` names.
pub fn decode(text: Vec<u8>, charset: &str) -> (r: Result<String, Error>)
    ensures
        match r {
            Ok(s) => decoded(charset_named(charset@), text@) == Some(s@),
            Err(e) => decoded(charset_named(charset@), text@) is None && e@ is Decoding,
        },
        charset_named(charset@) == Charset::Utf8 ==> match r {
            Ok(s) => vstd::utf8::valid_utf8(text@) && s@ == vstd::utf8::decode_utf8(text@),
            Err(_) => !vstd::utf8::valid_utf8(text@),
        },
{
    decode_in(text, Charset::from_label(charset))
}

} // verus!
