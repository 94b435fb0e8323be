use httptool::display::{classify, Response, StatusClass};
use httptool::error::Error;
use httptool::response::show_value;

fn wire(status: u16, fields: Vec<(&str, &[u8])>, body: &[u8]) -> httptool::response::Response {
    httptool::response::Response::new(
        1_700_000_000,
        status,
        fields.into_iter().map(|(n, v)| (n.to_string(), v.to_vec())).collect(),
        body.to_vec(),
        42,
    )
}

#[test]
fn header_values_are_shown_as_text() {
    let shown = Response::from(wire(
        200,
        vec![("content-type", b"text/html"), ("x-tab", b"a\tb"), ("x-raw", &[0x63, 0xe9])],
        b"<p>",
    ));
    assert_eq!(
        shown.header,
        vec![
            ("content-type".to_string(), "text/html".to_string()),
            ("x-tab".to_string(), "a\tb".to_string()),
            ("x-raw".to_string(), "no visible".to_string()),
        ]
    );
    assert_eq!(shown.done_date, 1_700_000_000);
    assert_eq!(shown.elapsed_time, 42);
    assert_eq!(shown.body, b"<p>".to_vec());
}

#[test]
fn a_value_is_visible_if_every_byte_is() {
    assert_eq!(show_value(&b"plain ~ text".to_vec()), "plain ~ text");
    assert_eq!(show_value(&vec![]), "");
    assert_eq!(show_value(&vec![b'a', 0x80]), "no visible");
    assert_eq!(show_value(&vec![0xff]), "no visible");
}

#[test]
fn a_number_that_is_no_status_is_shown_as_200() {
    assert_eq!(Response::from(wire(99, vec![], b"")).status, 200);
    assert_eq!(Response::from(wire(0, vec![], b"")).status, 200);
    assert_eq!(Response::from(wire(1000, vec![], b"")).status, 200);
    assert_eq!(Response::from(wire(100, vec![], b"")).status, 100);
    assert_eq!(Response::from(wire(999, vec![], b"")).status, 999);
    assert_eq!(Response::from(wire(404, vec![], b"")).status, 404);
}

#[test]
fn statuses_are_marked() {
    assert_eq!(classify(200), StatusClass::Success);
    assert_eq!(classify(299), StatusClass::Success);
    assert_eq!(classify(400), StatusClass::Failure);
    assert_eq!(classify(404), StatusClass::Failure);
    assert_eq!(classify(500), StatusClass::Failure);
    assert_eq!(classify(599), StatusClass::Failure);
    assert_eq!(classify(100), StatusClass::Notice);
    assert_eq!(classify(199), StatusClass::Notice);
    assert_eq!(classify(300), StatusClass::Notice);
    assert_eq!(classify(399), StatusClass::Notice);
    assert_eq!(classify(600), StatusClass::Notice);
}

#[test]
fn the_body_is_shown_by_its_content_type() {
    let shown = Response::from(wire(200, vec![("content-type", b"application/json")], b"[1]"));
    assert_eq!(
        shown.content_type().map(|ct| (ct.basetype, ct.subtype, ct.charset)),
        Some(("application".to_string(), "json".to_string(), None))
    );
    assert_eq!(shown.text(), Ok("[\n  1\n]".to_string()));

    let shown = Response::from(wire(200, vec![("content-type", b"image/png")], b"[1]"));
    assert_eq!(shown.text(), Err(Error::NoTextBody));

    let shown = Response::from(wire(200, vec![("content-type", b"text/plain; charset=gbk")], &[0xc4, 0xe3]));
    assert_eq!(shown.text(), Ok("你".to_string()));
}

#[test]
fn a_missing_or_unreadable_content_type_means_utf8() {
    let shown = Response::from(wire(200, vec![], "é".as_bytes()));
    assert_eq!(shown.content_type(), None);
    assert_eq!(shown.text(), Ok("é".to_string()));

    let shown = Response::from(wire(200, vec![("content-type", b"nonsense")], b"{\"a\":1}"));
    assert_eq!(shown.content_type(), None);
    assert_eq!(shown.text(), Ok("{\"a\":1}".to_string()));

    let shown = Response::from(wire(200, vec![("content-type", &[0x80])], b"ok"));
    assert_eq!(shown.content_type(), None);
    assert_eq!(shown.text(), Ok("ok".to_string()));

    let shown = Response::from(wire(200, vec![("Content-Type", b"image/png")], b"ok"));
    assert_eq!(shown.content_type(), None);
}

#[test]
fn the_reason_of_a_status_is_shown() {
    assert_eq!(httptool::display::reason(200), "OK");
    assert_eq!(httptool::display::reason(404), "Not Found");
    assert_eq!(httptool::display::reason(500), "Internal Server Error");
    assert_eq!(httptool::display::reason(418), "I'm a teapot");
    assert_eq!(httptool::display::reason(299), "");
    assert_eq!(httptool::display::reason(999), "");
    assert_eq!(httptool::display::reason(99), "");
    assert_eq!(httptool::display::reason(0), "");
    assert_eq!(httptool::display::reason(1000), "");
}

#[test]
fn the_time_of_a_request_is_shown_in_utc() {
    let done_date = 1_700_000_000;
    assert_eq!(httptool::display::shown_time(done_date), Some("22:13:20".to_string()));
    assert_eq!(httptool::display::shown_date(done_date), Some("2023-11-14".to_string()));
    assert_eq!(
        httptool::display::shown_date_time(done_date),
        Some("2023-11-14 22:13:20".to_string())
    );
    assert_eq!(httptool::display::shown_date_time(0), Some("1970-01-01 00:00:00".to_string()));
    assert_eq!(httptool::display::shown_date_time(-1), Some("1969-12-31 23:59:59".to_string()));
    assert_eq!(httptool::display::shown_date_time(i64::MAX), None);
    assert_eq!(httptool::display::shown_date_time(i64::MIN), None);
}
