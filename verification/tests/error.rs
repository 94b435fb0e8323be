use httptool::error::Error;
use httptool::message::Message;

fn s(text: &str) -> String {
    text.to_string()
}

#[test]
fn each_failure_has_its_message() {
    assert_eq!(Error::Serialization { src: s("eof") }.message(), "eof");
    assert_eq!(Error::InvalidMethod { src: s("invalid HTTP method") }.message(), "invalid HTTP method");
    assert_eq!(Error::InvalidUrl { src: s("empty host") }.message(), "Invalid url: empty host");
    assert_eq!(Error::InvalidHeader { src: s("bad") }.message(), "bad");
    assert_eq!(Error::Transport { src: s("refused") }.message(), "Failed to send: refused");
    assert_eq!(Error::RelayTransport { src: s("closed") }.message(), "Failed to send: closed");
    assert_eq!(Error::RelayApplication { message: s("boom") }.message(), "Failed to send: boom");
    assert_eq!(Error::Decoding { src: s("x") }.message(), "Failed to decoding: x");
    assert_eq!(Error::NoTextBody.message(), "No text body");
    assert_eq!(Error::ClockUnavailable { src: s("no offset") }.message(), "no offset");
    assert_eq!(Error::Persistence { src: s("quota") }.message(), "Failed to persist: quota");
    assert_eq!(Error::NotFound.message(), "Not found");
}

#[test]
fn a_failure_travels_as_an_error_envelope() {
    let m = Message::from_error(&Error::InvalidUrl { src: s("relative URL without a base") });
    assert_eq!(m.code, "error");
    assert_eq!(m.value, "Invalid url: relative URL without a base");
    assert!(m.is_error());
}

#[test]
fn envelopes_are_built_and_opened() {
    let m = Message::new(s("http_send"), s("{}"));
    assert_eq!(m, Message { code: s("http_send"), value: s("{}") });
    assert!(!m.is_error());
    assert_eq!(m.duplicate(), m);
    assert_eq!(m.into_outcome(), Ok(s("{}")));
    assert_eq!(Message::http_send(s("p")), Message { code: s("http_send"), value: s("p") });
    let failed = Message::failure(s("went wrong"));
    assert_eq!(failed, Message { code: s("error"), value: s("went wrong") });
    assert_eq!(
        failed.into_outcome(),
        Err(Error::RelayApplication { message: s("went wrong") })
    );
    assert_eq!(Message::default(), Message { code: s(""), value: s("") });
}
