use httptool::codec::{
    decode_request, decode_response, encode_message, encode_request, encode_response, open_reply,
    outcome_of, read_message, read_response, reply, route, same_request, same_response,
};
use httptool::relay::Outcome;
use httptool::error::Error;
use httptool::json::Json;
use httptool::message::Message;
use httptool::request::Request;
use httptool::response::Response;

fn sample_request() -> Request {
    Request::new(
        "POST".to_string(),
        "https://example.com/items?x=1".to_string(),
        vec![
            ("content-type".to_string(), "application/json".to_string()),
            ("".to_string(), "dropped".to_string()),
            ("x-token".to_string(), "abc \"quoted\"".to_string()),
        ],
        b"{\"k\":[1,2]}\n".to_vec(),
    )
}

fn sample_response() -> Response {
    Response::new(
        1_700_000_000,
        201,
        vec![
            ("content-type".to_string(), b"text/plain; charset=gbk".to_vec()),
            ("x-raw".to_string(), vec![0x80, 0xff, 0x20]),
        ],
        vec![0xc4, 0xe3, 0xba, 0xc3, 0x00, 0xff],
        -3,
    )
}

fn headers_sorted(mut request: Request) -> Request {
    request.header.sort();
    request
}

fn fields_sorted(mut response: Response) -> Response {
    response.header.sort();
    response
}

#[test]
fn request_envelope_has_operation_and_json_payload() {
    let request = Request::new(
        "GET".to_string(),
        "http://a/".to_string(),
        vec![("A".to_string(), "b".to_string())],
        vec![1, 2],
    );
    let message = Message::try_from(request).unwrap();
    assert_eq!(message.code, "http_send");
    assert_eq!(
        message.value,
        "{\"body\":[1,2],\"header\":{\"A\":\"b\"},\"method\":\"GET\",\"uri\":\"http://a/\"}"
    );
}

#[test]
fn empty_header_name_is_not_sent() {
    let request = Request::new(
        "GET".to_string(),
        "http://a/".to_string(),
        vec![("".to_string(), "x".to_string()), ("A".to_string(), "b".to_string())],
        vec![],
    );
    let message = Message::try_from(request).unwrap();
    let sent = route(&message).unwrap();
    assert_eq!(sent.header, vec![("A".to_string(), "b".to_string())]);
}

#[test]
fn request_round_trip() {
    let request = sample_request();
    let message = Message::try_from(request.clone()).unwrap();
    assert_eq!(route(&message).map(headers_sorted), Ok(headers_sorted(request)));
}

#[test]
fn request_round_trip_on_the_document() {
    let request = sample_request();
    assert_eq!(decode_request(&encode_request(&request)), Ok(request));
    let bare = Request::new("".to_string(), "".to_string(), vec![], vec![]);
    assert_eq!(decode_request(&encode_request(&bare)), Ok(bare));
}

#[test]
fn response_round_trip() {
    let response = sample_response();
    let message = Message::from(response.clone());
    assert_eq!(message.code, "http_send");
    assert_eq!(open_reply(message).map(fields_sorted), Ok(fields_sorted(response.clone())));
    assert_eq!(decode_response(&encode_response(&response)), Ok(response));
}

#[test]
fn response_envelope_has_json_payload() {
    let response = Response::new(7, 200, vec![("a".to_string(), vec![1])], vec![2, 3], 15);
    let message = Message::from(response);
    assert_eq!(
        message,
        Message {
            code: "http_send".to_string(),
            value: "{\"body\":[2,3],\"done_date\":7,\"elapsed_time\":15,\"header\":{\"a\":[1]},\"status\":200}"
                .to_string(),
        }
    );
}

#[test]
fn request_in_the_declared_field_order_is_read() {
    let message = Message::http_send(
        "{\"method\":\"GET\",\"uri\":\"http://a/\",\"header\":{\"b\":\"2\",\"a\":\"1\"},\"body\":[104,105],\"extra\":null}"
            .to_string(),
    );
    assert_eq!(
        route(&message),
        Ok(Request {
            method: "GET".to_string(),
            uri: "http://a/".to_string(),
            header: vec![("a".to_string(), "1".to_string()), ("b".to_string(), "2".to_string())],
            body: b"hi".to_vec(),
        })
    );
}

#[test]
fn malformed_request_payload_is_a_serialization_error() {
    for payload in [
        "",
        "{",
        "null",
        "[]",
        "{}",
        "{\"method\":\"GET\",\"uri\":\"http://a/\",\"header\":{}}",
        "{\"method\":1,\"uri\":\"http://a/\",\"header\":{},\"body\":[]}",
        "{\"method\":\"GET\",\"uri\":null,\"header\":{},\"body\":[]}",
        "{\"method\":\"GET\",\"uri\":\"http://a/\",\"header\":[],\"body\":[]}",
        "{\"method\":\"GET\",\"uri\":\"http://a/\",\"header\":{\"a\":1},\"body\":[]}",
        "{\"method\":\"GET\",\"uri\":\"http://a/\",\"header\":{},\"body\":\"text\"}",
        "{\"method\":\"GET\",\"uri\":\"http://a/\",\"header\":{},\"body\":[256]}",
        "{\"method\":\"GET\",\"uri\":\"http://a/\",\"header\":{},\"body\":[-1]}",
        "{\"method\":\"GET\",\"uri\":\"http://a/\",\"header\":{},\"body\":[1.0]}",
    ] {
        let message = Message::http_send(payload.to_string());
        assert!(matches!(route(&message), Err(Error::Serialization { .. })), "{}", payload);
    }
}

#[test]
fn malformed_response_payload_is_a_serialization_error() {
    for payload in [
        "",
        "{}",
        "{\"done_date\":1,\"status\":200,\"header\":{},\"body\":[]}",
        "{\"done_date\":1,\"status\":65536,\"header\":{},\"body\":[],\"elapsed_time\":1}",
        "{\"done_date\":1,\"status\":-1,\"header\":{},\"body\":[],\"elapsed_time\":1}",
        "{\"done_date\":1,\"status\":200,\"header\":{},\"body\":[],\"elapsed_time\":2147483648}",
        "{\"done_date\":9223372036854775808,\"status\":200,\"header\":{},\"body\":[],\"elapsed_time\":1}",
        "{\"done_date\":1,\"status\":200,\"header\":{\"a\":\"text\"},\"body\":[],\"elapsed_time\":1}",
        "{\"done_date\":1,\"status\":200,\"header\":{\"a\":[300]},\"body\":[],\"elapsed_time\":1}",
        "{\"done_date\":\"1\",\"status\":200,\"header\":{},\"body\":[],\"elapsed_time\":1}",
    ] {
        assert!(matches!(read_response(payload), Err(Error::Serialization { .. })), "{}", payload);
    }
}

#[test]
fn edge_values_of_a_response_are_read() {
    let payload = "{\"done_date\":-9223372036854775808,\"status\":65535,\"header\":{},\"body\":[],\"elapsed_time\":-2147483648}";
    assert_eq!(
        read_response(payload),
        Ok(Response {
            done_date: i64::MIN,
            status: u16::MAX,
            header: vec![],
            body: vec![],
            elapsed_time: i32::MIN,
        })
    );
}

#[test]
fn an_error_reply_is_never_read_as_a_response() {
    let valid = Message::from(sample_response()).value;
    let message = Message { code: "error".to_string(), value: valid.clone() };
    assert_eq!(open_reply(message), Err(Error::RelayApplication { message: valid }));
    let message = Message::failure("Invalid url: empty host".to_string());
    assert_eq!(
        open_reply(message),
        Err(Error::RelayApplication { message: "Invalid url: empty host".to_string() })
    );
}

#[test]
fn the_background_answers_with_the_response_or_the_failure() {
    let response = sample_response();
    assert_eq!(reply(Ok(response.clone())), Message::from(response));
    assert_eq!(
        reply(Err(Error::InvalidUrl { src: "empty host".to_string() })),
        Message { code: "error".to_string(), value: "Invalid url: empty host".to_string() }
    );
    assert_eq!(
        reply(Err(Error::Transport { src: "connection refused".to_string() })),
        Message {
            code: "error".to_string(),
            value: "Failed to send: connection refused".to_string(),
        }
    );
}

#[test]
fn documents_of_request_and_response_have_the_expected_members() {
    let json = encode_request(&Request::new(
        "GET".to_string(),
        "u".to_string(),
        vec![("h".to_string(), "v".to_string())],
        vec![9],
    ));
    assert_eq!(
        json,
        Json::Object(vec![
            ("method".to_string(), Json::Text("GET".to_string())),
            ("uri".to_string(), Json::Text("u".to_string())),
            (
                "header".to_string(),
                Json::Object(vec![("h".to_string(), Json::Text("v".to_string()))])
            ),
            ("body".to_string(), Json::List(vec![Json::Number(Some(9))])),
        ])
    );
    let json = encode_response(&Response::new(1, 2, vec![("h".to_string(), vec![3])], vec![4], 5));
    assert_eq!(
        json,
        Json::Object(vec![
            ("done_date".to_string(), Json::Number(Some(1))),
            ("status".to_string(), Json::Number(Some(2))),
            (
                "header".to_string(),
                Json::Object(vec![("h".to_string(), Json::List(vec![Json::Number(Some(3))]))])
            ),
            ("body".to_string(), Json::List(vec![Json::Number(Some(4))])),
            ("elapsed_time".to_string(), Json::Number(Some(5))),
        ])
    );
}

#[test]
fn a_request_that_cannot_be_represented_is_not_sent() {
    let twice = Request {
        method: "GET".to_string(),
        uri: "http://a/".to_string(),
        header: vec![("a".to_string(), "1".to_string()), ("a".to_string(), "2".to_string())],
        body: vec![],
    };
    assert!(matches!(Message::try_from(twice), Err(Error::Serialization { .. })));
}

#[test]
fn requests_are_compared_by_content() {
    let a = Request {
        method: "GET".to_string(),
        uri: "http://a/".to_string(),
        header: vec![("x".to_string(), "1".to_string()), ("y".to_string(), "2".to_string())],
        body: vec![1],
    };
    let mut b = a.clone();
    b.header.reverse();
    assert!(same_request(&a, &b));
    let mut c = a.clone();
    c.header[0].1 = "other".to_string();
    assert!(!same_request(&a, &c));
    let mut d = a.clone();
    d.header.pop();
    assert!(!same_request(&a, &d));
    assert!(!same_request(&d, &a));
    let mut e = a.clone();
    e.body = vec![2];
    assert!(!same_request(&a, &e));
    let mut f = a.clone();
    f.uri = "http://b/".to_string();
    assert!(!same_request(&a, &f));
    let mut g = a.clone();
    g.method = "PUT".to_string();
    assert!(!same_request(&a, &g));
}

#[test]
fn responses_are_compared_by_content() {
    let a = sample_response();
    let mut b = a.clone();
    b.header.reverse();
    assert!(same_response(&a, &b));
    let mut c = a.clone();
    c.status = 500;
    assert!(!same_response(&a, &c));
    let mut d = a.clone();
    d.header[1].1 = vec![];
    assert!(!same_response(&a, &d));
    let mut e = a.clone();
    e.elapsed_time = 0;
    assert!(!same_response(&a, &e));
    let mut f = a.clone();
    f.done_date = 0;
    assert!(!same_response(&a, &f));
}

#[test]
fn envelopes_are_read_from_json() {
    let m = Message { code: "http_send".to_string(), value: "{\"a\":1}".to_string() };
    let text = encode_message(&m).write().unwrap();
    assert_eq!(text, "{\"code\":\"http_send\",\"value\":\"{\\\"a\\\":1}\"}");
    assert_eq!(read_message(&text), Ok(m.clone()));
    assert_eq!(outcome_of(Ok(text)), Outcome::Replied(m));
    assert!(matches!(read_message("{\"code\":\"x\"}"), Err(Error::Serialization { .. })));
    assert!(matches!(read_message("{\"code\":1,\"value\":\"v\"}"), Err(Error::Serialization { .. })));
    assert!(matches!(read_message("true"), Err(Error::Serialization { .. })));
    assert!(matches!(outcome_of(Ok("undefined".to_string())), Outcome::Unreadable { .. }));
    assert!(matches!(outcome_of(Ok("{}".to_string())), Outcome::Unreadable { .. }));
    assert_eq!(
        outcome_of(Err("receiving end does not exist".to_string())),
        Outcome::TransportFailed { src: "receiving end does not exist".to_string() }
    );
}
