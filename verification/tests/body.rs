use encoding::{EncoderTrap, Encoding};
use httptool::body::{body_text, contains, ContentType};
use httptool::charset::{decode, decode_in, Charset};
use httptool::error::Error;

fn content_type(text: &str) -> Option<ContentType> {
    ContentType::parse(text)
}

fn is_decoding_error(r: Result<String, Error>) -> bool {
    matches!(r, Err(Error::Decoding { .. }))
}

#[test]
fn json_body_is_pretty_printed() {
    let shown = body_text(b"{\"a\":1}".to_vec(), content_type("application/json"));
    assert_eq!(shown, Ok("{\n  \"a\": 1\n}".to_string()));
}

#[test]
fn nested_json_body_is_indented_by_two_spaces() {
    let shown = body_text(b"{\"b\":[1,true],\"a\":null}".to_vec(), content_type("application/json"));
    assert_eq!(
        shown,
        Ok("{\n  \"a\": null,\n  \"b\": [\n    1,\n    true\n  ]\n}".to_string())
    );
}

#[test]
fn image_body_is_no_text() {
    let shown = body_text(vec![0x89, b'P', b'N', b'G'], content_type("image/png"));
    assert_eq!(shown, Err(Error::NoTextBody));
}

#[test]
fn binary_body_is_no_text_even_if_it_reads_as_text() {
    let shown = body_text(b"plain".to_vec(), content_type("application/octet-stream"));
    assert_eq!(shown, Err(Error::NoTextBody));
}

#[test]
fn broken_json_is_shown_as_it_is() {
    let shown = body_text(b"{\"a\":".to_vec(), content_type("application/json"));
    assert_eq!(shown, Ok("{\"a\":".to_string()));
}

#[test]
fn body_without_content_type_is_read_as_utf8() {
    assert_eq!(body_text("héllo".as_bytes().to_vec(), None), Ok("héllo".to_string()));
    assert!(is_decoding_error(body_text(vec![0xff, 0xfe], None)));
}

#[test]
fn json_without_content_type_is_not_reformatted() {
    assert_eq!(body_text(b"{\"a\":1}".to_vec(), None), Ok("{\"a\":1}".to_string()));
}

#[test]
fn textual_types_are_recognised() {
    for text in [
        "text/plain",
        "text/html",
        "application/json",
        "application/x-www-form-urlencoded",
        "text/markdown",
        "application/markdown",
        "application/rtf",
        "application/xml",
        "application/xhtml+xml",
        "image/svg+xml",
        "application/atom+xml; charset=utf-8",
    ] {
        let parsed = content_type(text).expect(text);
        assert!(parsed.is_textual(), "{}", text);
    }
    for text in ["image/png", "application/pdf", "application/octet-stream", "audio/mpeg", "application/x-json"] {
        let parsed = content_type(text).expect(text);
        assert!(!parsed.is_textual(), "{}", text);
    }
}

#[test]
fn content_type_is_parsed_into_its_parts() {
    assert_eq!(
        content_type("Application/JSON; Charset=GB18030"),
        Some(ContentType {
            basetype: "application".to_string(),
            subtype: "json".to_string(),
            charset: Some("GB18030".to_string()),
        })
    );
    assert_eq!(
        content_type("text/html;charset=utf-8"),
        Some(ContentType {
            basetype: "text".to_string(),
            subtype: "html".to_string(),
            charset: Some("utf-8".to_string()),
        })
    );
    assert_eq!(
        content_type("text/plain"),
        Some(ContentType {
            basetype: "text".to_string(),
            subtype: "plain".to_string(),
            charset: None,
        })
    );
    assert_eq!(content_type("nonsense"), None);
    assert_eq!(content_type(""), None);
}

#[test]
fn gbk_body_is_decoded() {
    let text = "你好，世界";
    let bytes = encoding::all::GBK.encode(text, EncoderTrap::Strict).unwrap();
    assert_eq!(&bytes[..4], &[0xc4, 0xe3, 0xba, 0xc3]);
    assert_eq!(decode(bytes.clone(), "gbk"), Ok(text.to_string()));
    assert_eq!(
        body_text(bytes, content_type("text/plain; charset=gbk")),
        Ok(text.to_string())
    );
}

#[test]
fn malformed_gbk_falls_back_to_utf8() {
    let utf8 = "é".as_bytes().to_vec();
    assert_eq!(utf8, vec![0xc3, 0xa9]);
    assert_eq!(decode(vec![0x41, 0xff], "gbk").is_err(), true);
    assert_eq!(decode("a€".as_bytes().to_vec(), "ascii"), Ok("a€".to_string()));
    assert_eq!(decode("€".as_bytes().to_vec(), "gbk"), Ok("€".to_string()));
    assert!(is_decoding_error(decode(vec![0x81], "gbk")));
    assert!(is_decoding_error(decode(vec![0xff, 0xff], "gbk")));
    assert!(is_decoding_error(body_text(
        vec![0xff, 0xff],
        content_type("text/plain; charset=gbk")
    )));
}

#[test]
fn gb18030_body_is_decoded() {
    let text = "汉字 ☃ 𠀀";
    let bytes = encoding::all::GB18030.encode(text, EncoderTrap::Strict).unwrap();
    assert_eq!(decode(bytes.clone(), "gb18030"), Ok(text.to_string()));
    assert_eq!(decode(bytes, "GB18030"), Ok(text.to_string()));
}

#[test]
fn latin1_body_is_decoded() {
    assert_eq!(decode(vec![0x63, 0x61, 0x66, 0xe9], "iso-8859-1"), Ok("café".to_string()));
    assert_eq!(decode(vec![0xff, 0x00, 0x80], "ISO-8859-1"), Ok("ÿ\u{0}\u{80}".to_string()));
}

#[test]
fn ascii_body_is_decoded() {
    assert_eq!(decode(b"plain".to_vec(), "ascii"), Ok("plain".to_string()));
    assert_eq!(decode(b"plain".to_vec(), "ASCII"), Ok("plain".to_string()));
    assert!(is_decoding_error(decode(vec![0x61, 0xe9], "ascii")));
}

#[test]
fn utf8_body_is_decoded() {
    assert_eq!(decode("日本語".as_bytes().to_vec(), "utf-8"), Ok("日本語".to_string()));
    assert!(is_decoding_error(decode(vec![0xe6, 0x97], "utf-8")));
    assert!(is_decoding_error(decode(vec![0xc0, 0xaf], "utf-8")));
}

#[test]
fn unknown_charset_is_read_as_utf8() {
    assert_eq!(decode("日本語".as_bytes().to_vec(), "shift_jis"), Ok("日本語".to_string()));
    assert_eq!(decode("ok".as_bytes().to_vec(), ""), Ok("ok".to_string()));
    assert!(is_decoding_error(decode(vec![0xe9], "latin1")));
}

#[test]
fn charset_labels_ignore_case() {
    assert_eq!(Charset::from_label("ascii"), Charset::Ascii);
    assert_eq!(Charset::from_label("Ascii"), Charset::Ascii);
    assert_eq!(Charset::from_label("gb18030"), Charset::Gb18030);
    assert_eq!(Charset::from_label("GB18030"), Charset::Gb18030);
    assert_eq!(Charset::from_label("gbk"), Charset::Gbk);
    assert_eq!(Charset::from_label("GbK"), Charset::Gbk);
    assert_eq!(Charset::from_label("iso-8859-1"), Charset::Iso8859_1);
    assert_eq!(Charset::from_label("ISO-8859-1"), Charset::Iso8859_1);
    assert_eq!(Charset::from_label("utf-8"), Charset::Utf8);
    assert_eq!(Charset::from_label("UTF-8"), Charset::Utf8);
    assert_eq!(Charset::from_label("utf8"), Charset::Utf8);
    assert_eq!(Charset::from_label("gbk "), Charset::Utf8);
    assert_eq!(Charset::from_label("iso_8859_1"), Charset::Utf8);
    assert_eq!(Charset::from_label(""), Charset::Utf8);
}

#[test]
fn strict_decoding_does_not_fall_back() {
    assert_eq!(Charset::Ascii.decode_strict(&"é".as_bytes().to_vec()), None);
    assert_eq!(Charset::Gbk.decode_strict(&vec![0xff]), None);
    assert_eq!(Charset::Utf8.decode_strict(&vec![0xff]), None);
    assert_eq!(Charset::Iso8859_1.decode_strict(&vec![0xe9]), Some("é".to_string()));
    assert_eq!(decode_in(vec![0xe9], Charset::Iso8859_1), Ok("é".to_string()));
}

#[test]
fn declared_charset_is_used_for_the_body() {
    assert_eq!(
        body_text(vec![0x63, 0x61, 0x66, 0xe9], content_type("text/plain; charset=ISO-8859-1")),
        Ok("café".to_string())
    );
    let bytes = encoding::all::GB18030.encode("{\"名\":\"值\"}", EncoderTrap::Strict).unwrap();
    assert_eq!(
        body_text(bytes.clone(), content_type("application/json; charset=gb18030")),
        Ok("{\"名\":\"值\"}".to_string())
    );
    assert_eq!(
        body_text(bytes, content_type("text/plain; charset=gb18030")),
        Ok("{\"名\":\"值\"}".to_string())
    );
}

#[test]
fn substring_search_finds_runs() {
    assert!(contains("svg+xml", "xml"));
    assert!(contains("xml", "xml"));
    assert!(contains("xmlish", "xml"));
    assert!(contains("abc", ""));
    assert!(contains("", ""));
    assert!(!contains("xm", "xml"));
    assert!(!contains("x-m-l", "xml"));
    assert!(!contains("", "xml"));
    assert!(contains("aab", "ab"));
}
