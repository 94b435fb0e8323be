//! What is decided around the network call: whether a request may be sent at all, and what
//! response is handed on once the call has returned.
//!
//! The call itself and the reading of the clock are left to the caller.

use vstd::prelude::*;
use crate::error::{Error, ErrorView};
use crate::method::{invalid_method, known_method, Method};
use crate::header::{merged, plain};
use crate::request::Request;
use crate::response::Response;
use crate::text::header_value_byte;

verus! {

/// Why `url` refuses to read `uri` as an absolute URL, in its own words; nothing where it
/// reads one.
pub uninterp spec fn url_refusal(uri: Seq<char>) -> Option<Seq<char>>;

/// Whether `b` may stand in the name of a header: a letter, a digit, or one of
/// ``! # $ % & ' * + - . ^ _ ` | ~``.
pub open spec fn header_name_byte(b: u8) -> bool {
    ||| b == 33
    ||| (35 <= b && b <= 39)
    ||| b == 42
    ||| b == 43
    ||| b == 45
    ||| b == 46
    ||| (48 <= b && b <= 57)
    ||| (65 <= b && b <= 90)
    ||| (94 <= b && b <= 122)
    ||| b == 124
    ||| b == 126
}

/// Whether `name` may be the name of a header: it has from 1 to 65535 bytes, and each of
/// them may stand in a name.
pub open spec fn header_name_accepted(name: Seq<char>) -> bool {
    let bytes = vstd::utf8::encode_utf8(name);
    &&& 1 <= bytes.len() <= 65535
    &&& forall|i: int| 0 <= i < bytes.len() ==> header_name_byte(#[trigger] bytes[i])
}

/// Whether `value` may be the value of a header: none of its bytes is a control character,
/// the tab excepted.
pub open spec fn header_value_accepted(value: Seq<char>) -> bool {
    forall|i: int|
        0 <= i < vstd::utf8::encode_utf8(value).len() ==> header_value_byte(
            #[trigger] vstd::utf8::encode_utf8(value)[i],
        )
}

/// What is reported for a header name that is not accepted.
pub open spec fn invalid_header_name() -> ErrorView {
    ErrorView::InvalidHeader { src: "invalid HTTP header name"@ }
}

/// What is reported for a header value that is not accepted.
pub open spec fn invalid_header_value() -> ErrorView {
    ErrorView::InvalidHeader { src: "failed to parse header value"@ }
}

/// `url::Url`'s `from_str`: whether `uri` parses as an absolute URL. The contract names the
/// outcome by `url_refusal`: the text of the parse error, or nothing on success.
#[verifier::external_body]
fn refuse_url(uri: &str) -> (refusal: Option<String>)
    ensures
        match refusal {
            Some(text) => url_refusal(uri@) == Some(text@),
            None => url_refusal(uri@) is None,
        },
{
    uri.parse::<url::Url>().err().map(|e| e.to_string())
}

/// `http::HeaderName`'s `from_str`: it takes a name of 1 to 65535 bytes of which each is a
/// letter, a digit or one of ``! # $ % & ' * + - . ^ _ ` | ~``. The error of `http` always
/// reads the same.
#[verifier::external_body]
fn refuse_header_name(name: &str) -> (refusal: Option<String>)
    ensures
        refusal is None <==> header_name_accepted(name@),
        refusal matches Some(text) ==> text@ == "invalid HTTP header name"@,
{
    name.parse::<http::HeaderName>().err().map(|e| e.to_string())
}

/// `http::HeaderValue::from_str`: it takes a text exactly if each of its bytes is 32 or
/// more and not 127, or is a tab. The error of `http` always reads the same.
#[verifier::external_body]
fn refuse_header_value(value: &str) -> (refusal: Option<String>)
    ensures
        refusal is None <==> header_value_accepted(value@),
        refusal matches Some(text) ==> text@ == "failed to parse header value"@,
{
    http::HeaderValue::from_str(value).err().map(|e| e.to_string())
}

/// The first fault among the headers, taken in order and the name before the value.
pub open spec fn header_fault(header: Seq<(Seq<char>, Seq<char>)>) -> Option<ErrorView>
    decreases header.len(),
{
    if header.len() == 0 {
        None
    } else if !header_name_accepted(header[0].0) {
        Some(invalid_header_name())
    } else if !header_value_accepted(header[0].1) {
        Some(invalid_header_value())
    } else {
        header_fault(header.drop_first())
    }
}

/// What the validation of a request yields: its method, or the first fault found. The
/// method is looked at first, then the address, then the headers.
pub open spec fn validated(
    method: Seq<char>,
    uri: Seq<char>,
    header: Seq<(Seq<char>, Seq<char>)>,
) -> Result<Method, ErrorView> {
    match known_method(method) {
        None => Err(invalid_method()),
        Some(m) => match url_refusal(uri) {
            Some(text) => Err(ErrorView::InvalidUrl { src: text }),
            None => match header_fault(header) {
                Some(e) => Err(e),
                None => Ok(m),
            },
        },
    }
}

/// Says whether `request` may be sent, and with which method. Nothing is sent here.
pub fn validate(request: &Request) -> (r: Result<Method, Error>)
    ensures
        match r {
            Ok(m) => validated(request.method@, request.uri@, plain(request.header@)) == Ok::<
                Method,
                ErrorView,
            >(m),
            Err(e) => validated(request.method@, request.uri@, plain(request.header@)) == Err::<
                Method,
                ErrorView,
            >(e@),
        },
{
    let method = match Method::parse(request.method.as_str()) {
        Ok(m) => m,
        Err(e) => {
            return Err(e);
        },
    };
    if let Some(text) = refuse_url(request.uri.as_str()) {
        return Err(Error::InvalidUrl { src: text });
    }
    let ghost header = plain(request.header@);
    let mut i: usize = 0;
    assert(header.skip(0) == header);
    while i < request.header.len()
        invariant
            i <= request.header@.len(),
            header == plain(request.header@),
            header_fault(header) == header_fault(header.skip(i as int)),
            known_method(request.method@) == Some(method),
            url_refusal(request.uri@) is None,
        decreases request.header@.len() - i,
    {
        proof {
            let rest = header.skip(i as int);
            assert(rest[0] == header[i as int]);
            assert(rest.drop_first() == header.skip(i + 1));
        }
        if let Some(text) = refuse_header_name(request.header[i].0.as_str()) {
            return Err(Error::InvalidHeader { src: text });
        }
        if let Some(text) = refuse_header_value(request.header[i].1.as_str()) {
            return Err(Error::InvalidHeader { src: text });
        }
        i += 1;
    }
    Ok(method)
}

/// A reading of the clock: seconds since the Unix epoch and the nanoseconds into the second.
#[derive(Debug, Clone, Copy, PartialEq, Eq, Structural)]
pub struct Timestamp {
    pub seconds: i64,
    pub nanos: u32,
}

impl Timestamp {
    /// The reading in nanoseconds since the Unix epoch.
    pub open spec fn total_nanos(self) -> int {
        self.seconds * 1_000_000_000 + self.nanos
    }
}

/// The whole milliseconds from `started` to `finished`: the difference is cut off towards
/// zero, not rounded.
pub open spec fn whole_millis(started: Timestamp, finished: Timestamp) -> int {
    let nanos = finished.total_nanos() - started.total_nanos();
    if nanos >= 0 {
        nanos / 1_000_000
    } else {
        -((-nanos) / 1_000_000)
    }
}

/// The whole milliseconds from `started` to `finished`, in 32 bits: a span that does not
/// fit is cut to its low 32 bits.
pub fn elapsed_millis(started: Timestamp, finished: Timestamp) -> (millis: i32)
    ensures
        millis == whole_millis(started, finished) as i32,
        i32::MIN <= whole_millis(started, finished) <= i32::MAX ==> millis == whole_millis(
            started,
            finished,
        ),
{
    let from: i128 = started.seconds as i128 * 1_000_000_000 + started.nanos as i128;
    let to: i128 = finished.seconds as i128 * 1_000_000_000 + finished.nanos as i128;
    let nanos: i128 = to - from;
    let millis: i128 = if nanos >= 0 {
        nanos / 1_000_000
    } else {
        -((-nanos) / 1_000_000)
    };
    #[verifier::truncate]
    (millis as i32)
}

/// The response handed on for a call that returned: it carries the time at which the call
/// started and the time it took, and of several header fields with one name the last.
pub fn finish(
    started: Timestamp,
    finished: Timestamp,
    status: u16,
    fields: Vec<(String, Vec<u8>)>,
    body: Vec<u8>,
) -> (response: Response)
    ensures
        response.wf(),
        response.done_date == started.seconds,
        response.status == status,
        response.elapsed_time == whole_millis(started, finished) as i32,
        response@.header == merged(plain(fields@)),
        response.body@ == body@,
{
    let elapsed = elapsed_millis(started, finished);
    Response::new(started.seconds, status, fields, body, elapsed)
}

/// Status and header fields of a response whose body has not arrived yet.
#[derive(Debug, Clone, PartialEq, Eq)]
pub struct Head {
    pub status: u16,
    pub fields: Vec<(String, Vec<u8>)>,
}

/// Where the sending of a request stands.
#[derive(Debug, Clone, PartialEq, Eq)]
pub enum Stage {
    /// The clock is being read before the call.
    Starting,
    /// The network call is under way; it began at `started`.
    Calling { started: Timestamp },
    /// The head of the response arrived and the clock is being read again.
    Stopping { started: Timestamp, head: Head },
    /// The body of the response is being received.
    Receiving { started: Timestamp, finished: Timestamp, head: Head },
    /// The sending is over: a response or a failure was handed out.
    Over,
}

/// What happened outside since the last step.
#[derive(Debug, PartialEq, Eq)]
pub enum Event {
    /// The clock was read, or could not be.
    Clock(Result<Timestamp, String>),
    /// The network call returned the head of a response, or failed.
    Called(Result<Head, String>),
    /// The body was received, or the transfer failed.
    Body(Result<Vec<u8>, String>),
}

/// What is to be done outside next.
#[derive(Debug, Clone, PartialEq, Eq)]
pub enum Step {
    /// Read the local clock and report the reading.
    ReadClock,
    /// Issue the network call, once, and report the head of the response.
    Call,
    /// Receive the body of the response and report it.
    ReadBody,
    /// The sending succeeded with this response.
    Done(Response),
    /// The sending failed.
    Fail(Error),
    /// The event does not belong to the stage that the sending is in; it is dropped.
    Ignore,
}

/// The failure reported when the clock cannot be read.
pub open spec fn clock_unavailable(src: Seq<char>) -> ErrorView {
    ErrorView::ClockUnavailable { src }
}

/// The failure reported when the network fails.
pub open spec fn transport_failed(src: Seq<char>) -> ErrorView {
    ErrorView::Transport { src }
}

/// Whether `event` is the one that the stage `stage` waits for.
pub open spec fn awaited(stage: Stage, event: Event) -> bool {
    match stage {
        Stage::Starting => event is Clock,
        Stage::Calling { .. } => event is Called,
        Stage::Stopping { .. } => event is Clock,
        Stage::Receiving { .. } => event is Body,
        Stage::Over => false,
    }
}

/// The stage that follows `stage` on `event`. Every failure ends the sending: nothing is
/// tried again.
pub open spec fn next_stage(stage: Stage, event: Event) -> Stage {
    match (stage, event) {
        (Stage::Starting, Event::Clock(Ok(started))) => Stage::Calling { started },
        (Stage::Calling { started }, Event::Called(Ok(head))) => Stage::Stopping { started, head },
        (Stage::Stopping { started, head }, Event::Clock(Ok(finished))) => Stage::Receiving {
            started,
            finished,
            head,
        },
        _ => if awaited(stage, event) {
            Stage::Over
        } else {
            stage
        },
    }
}

/// Whether the step `step` is the one that follows `stage` on `event`.
pub open spec fn is_next_step(stage: Stage, event: Event, step: Step) -> bool {
    match (stage, event) {
        (Stage::Starting, Event::Clock(Ok(_))) => step is Call,
        (Stage::Starting, Event::Clock(Err(src))) => step matches Step::Fail(e) && e@
            == clock_unavailable(src@),
        (Stage::Calling { .. }, Event::Called(Ok(_))) => step is ReadClock,
        (Stage::Calling { .. }, Event::Called(Err(src))) => step matches Step::Fail(e) && e@
            == transport_failed(src@),
        (Stage::Stopping { .. }, Event::Clock(Ok(_))) => step is ReadBody,
        (Stage::Stopping { .. }, Event::Clock(Err(src))) => step matches Step::Fail(e) && e@
            == clock_unavailable(src@),
        (Stage::Receiving { started, finished, head }, Event::Body(Ok(body))) => step matches Step::Done(
            response,
        ) && {
            &&& response.wf()
            &&& response.done_date == started.seconds
            &&& response.status == head.status
            &&& response.elapsed_time == whole_millis(started, finished) as i32
            &&& response@.header == merged(plain(head.fields@))
            &&& response.body@ == body@
        },
        (Stage::Receiving { .. }, Event::Body(Err(src))) => step matches Step::Fail(e) && e@
            == transport_failed(src@),
        _ => step is Ignore,
    }
}

/// The sending of one request that passed validation.
#[derive(Debug, Clone, PartialEq, Eq)]
pub struct Exchange {
    pub method: Method,
    pub stage: Stage,
}

impl Exchange {
    /// Begins the sending of `request`: it is validated, and where it passes, the first
    /// thing to do is to read the clock.
    pub fn begin(request: &Request) -> (r: Result<Exchange, Error>)
        ensures
            match r {
                Ok(exchange) => exchange.stage == Stage::Starting && validated(
                    request.method@,
                    request.uri@,
                    plain(request.header@),
                ) == Ok::<Method, ErrorView>(exchange.method),
                Err(e) => validated(request.method@, request.uri@, plain(request.header@))
                    == Err::<Method, ErrorView>(e@),
            },
    {
        match validate(request) {
            Ok(method) => Ok(Exchange { method, stage: Stage::Starting }),
            Err(e) => Err(e),
        }
    }

    /// Takes what happened outside and says what is to be done next.
    pub fn on_event(&mut self, event: Event) -> (step: Step)
        ensures
            final(self).method == old(self).method,
            final(self).stage == next_stage(old(self).stage, event),
            is_next_step(old(self).stage, event, step),
    {
        let mut stage = Stage::Over;
        std::mem::swap(&mut self.stage, &mut stage);
        match (stage, event) {
            (Stage::Starting, Event::Clock(Ok(started))) => {
                self.stage = Stage::Calling { started };
                Step::Call
            },
            (Stage::Starting, Event::Clock(Err(src))) => Step::Fail(
                Error::ClockUnavailable { src },
            ),
            (Stage::Calling { started }, Event::Called(Ok(head))) => {
                self.stage = Stage::Stopping { started, head };
                Step::ReadClock
            },
            (Stage::Calling { started }, Event::Called(Err(src))) => Step::Fail(
                Error::Transport { src },
            ),
            (Stage::Stopping { started, head }, Event::Clock(Ok(finished))) => {
                self.stage = Stage::Receiving { started, finished, head };
                Step::ReadBody
            },
            (Stage::Stopping { started, head }, Event::Clock(Err(src))) => Step::Fail(
                Error::ClockUnavailable { src },
            ),
            (Stage::Receiving { started, finished, head }, Event::Body(Ok(body))) => Step::Done(
                finish(started, finished, head.status, head.fields, body),
            ),
            (Stage::Receiving { started, finished, head }, Event::Body(Err(src))) => Step::Fail(
                Error::Transport { src },
            ),
            (stage, _) => {
                self.stage = stage;
                Step::Ignore
            },
        }
    }
}

/// The stage reached from `stage` when the events are reported one after another.
pub open spec fn stage_after(stage: Stage, events: Seq<Event>) -> Stage
    decreases events.len(),
{
    if events.len() == 0 {
        stage
    } else {
        next_stage(stage_after(stage, events.drop_last()), events.last())
    }
}

/// How many times the network call is asked for, from `stage` on, while the events are
/// reported one after another.
pub open spec fn calls_asked(stage: Stage, events: Seq<Event>) -> nat
    decreases events.len(),
{
    if events.len() == 0 {
        0
    } else {
        let before = events.drop_last();
        let asked: nat = if stage_after(stage, before) is Starting && events.last() matches Event::Clock(
            Ok(_),
        ) {
            1
        } else {
            0
        };
        calls_asked(stage, before) + asked
    }
}

/// A sending never returns to its first stage.
pub proof fn lemma_starting_is_left_for_good(stage: Stage, events: Seq<Event>)
    requires
        !(stage is Starting),
    ensures
        !(stage_after(stage, events) is Starting),
        calls_asked(stage, events) == 0,
    decreases events.len(),
{
    if events.len() > 0 {
        lemma_starting_is_left_for_good(stage, events.drop_last());
    }
}

/// Whatever is reported, the network call is asked for at most once: a failure of the
/// network is never followed by another attempt.
pub proof fn lemma_at_most_one_call(events: Seq<Event>)
    ensures
        calls_asked(Stage::Starting, events) <= 1,
        stage_after(Stage::Starting, events) is Starting ==> calls_asked(Stage::Starting, events)
            == 0,
    decreases events.len(),
{
    if events.len() > 0 {
        lemma_at_most_one_call(events.drop_last());
    }
}

} // verus!
