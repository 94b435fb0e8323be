//! The wire form of requests and responses: which JSON document stands for each, and how
//! the envelope carries it.

use vstd::prelude::*;
use vstd::string::StringExecFns;
use crate::error::{Error, ErrorView};
use crate::header::{
    as_map, distinct_names, lemma_merged_of_distinct, merged, plain, same_mapping, upsert,
};
use crate::text::bytes_eq;
use crate::json::{
    bytes_json, lemma_bytes_round_trip, lemma_member_place, lemma_view_unfolds, members_view,
    parsed, written, Json, JsonValue, MAX_DEPTH,
};
use crate::message::{error_code, http_send_code, Message, MessageView};
use crate::relay::{Outcome, OutcomeView};
use crate::request::{Request, RequestView};
use crate::response::{Response, ResponseView};

verus! {

/// The object whose members are the given texts under the given names.
pub open spec fn texts_json(rows: Seq<(Seq<char>, Seq<char>)>) -> JsonValue {
    JsonValue::Object(Seq::new(rows.len(), |i: int| (rows[i].0, JsonValue::Text(rows[i].1))))
}

/// The names and texts that the members hold, where every member is a text.
pub open spec fn texts_of(members: Seq<(Seq<char>, JsonValue)>) -> Option<
    Seq<(Seq<char>, Seq<char>)>,
>
    decreases members.len(),
{
    if members.len() == 0 {
        Some(Seq::empty())
    } else {
        match (texts_of(members.drop_last()), members.last().1) {
            (Some(rows), JsonValue::Text(s)) => Some(rows.push((members.last().0, s))),
            _ => None,
        }
    }
}

/// The document that stands for a request.
pub open spec fn request_json(
    method: Seq<char>,
    uri: Seq<char>,
    header: Seq<(Seq<char>, Seq<char>)>,
    body: Seq<u8>,
) -> JsonValue {
    JsonValue::Object(
        seq![
            ("method"@, JsonValue::Text(method)),
            ("uri"@, JsonValue::Text(uri)),
            ("header"@, texts_json(header)),
            ("body"@, bytes_json(body)),
        ],
    )
}

/// The request that a document stands for: an object with the texts `method` and `uri`,
/// an object of texts `header` and a list of bytes `body`. Other members are passed over.
pub open spec fn request_of(value: JsonValue) -> Option<RequestView> {
    match (
        value.text_member("method"@),
        value.text_member("uri"@),
        value.member("header"@),
        value.bytes_member("body"@),
    ) {
        (Some(method), Some(uri), Some(JsonValue::Object(members)), Some(body)) => match texts_of(
            members,
        ) {
            Some(rows) => Some(RequestView { method, uri, header: merged(rows), body }),
            None => None,
        },
        _ => None,
    }
}

/// The request that the JSON text `text` stands for.
pub open spec fn request_read(text: Seq<char>) -> Option<RequestView> {
    match parsed(text, MAX_DEPTH as nat) {
        Some(value) => request_of(value),
        None => None,
    }
}

/// Texts are read back from the object that holds them.
pub proof fn lemma_texts_round_trip(rows: Seq<(Seq<char>, Seq<char>)>)
    ensures
        texts_of(texts_json(rows)->Object_0) == Some(rows),
    decreases rows.len(),
{
    let members = texts_json(rows)->Object_0;
    if rows.len() > 0 {
        lemma_texts_round_trip(rows.drop_last());
        assert(members.drop_last() =~= texts_json(rows.drop_last())->Object_0);
        assert(rows.drop_last().push(rows.last()) =~= rows);
    }
}

/// The names under which the parts of a request are written differ from one another.
proof fn lemma_request_names()
    ensures
        "method"@ != "uri"@,
        "method"@ != "header"@,
        "method"@ != "body"@,
        "uri"@ != "header"@,
        "uri"@ != "body"@,
        "header"@ != "body"@,
{
    reveal_strlit("method");
    reveal_strlit("uri");
    reveal_strlit("header");
    reveal_strlit("body");
    assert("method"@.len() == 6 && "uri"@.len() == 3 && "header"@.len() == 6 && "body"@.len() == 4);
    assert("method"@[0] == 'm' && "header"@[0] == 'h');
}

/// What is read from the document of a request is that request: every request whose
/// header names differ comes back from its wire form as it went in.
pub proof fn lemma_request_round_trip(request: Request)
    requires
        request.wf(),
    ensures
        request_of(
            request_json(request.method@, request.uri@, plain(request.header@), request.body@),
        ) == Some(request@),
{
    let header = plain(request.header@);
    let value = request_json(request.method@, request.uri@, header, request.body@);
    let members = value->Object_0;
    lemma_request_names();
    lemma_member_place(members, "method"@, 0);
    lemma_member_place(members, "uri"@, 1);
    lemma_member_place(members, "header"@, 2);
    lemma_member_place(members, "body"@, 3);
    lemma_texts_round_trip(header);
    lemma_bytes_round_trip(request.body@);
    lemma_merged_of_distinct(request.header@);
}

/// The object whose members are the given texts under the given names.
fn encode_texts(rows: &Vec<(String, String)>) -> (json: Json)
    ensures
        json@ == texts_json(plain(rows@)),
{
    let mut members: Vec<(String, Json)> = Vec::new();
    let mut i: usize = 0;
    while i < rows.len()
        invariant
            i <= rows@.len(),
            members@.len() == i,
            forall|k: int|
                0 <= k < i ==> members@[k].0@ == rows@[k].0@ && members@[k].1@ == JsonValue::Text(
                    rows@[k].1@,
                ),
        decreases rows@.len() - i,
    {
        members.push((rows[i].0.clone(), Json::Text(rows[i].1.clone())));
        i += 1;
    }
    let json = Json::Object(members);
    proof {
        lemma_view_unfolds(json);
        assert(members_view(members@) =~= texts_json(plain(rows@))->Object_0);
    }
    json
}

/// The header list that the members of an object hold, where every member is a text.
fn decode_texts(json: &Json) -> (r: Option<Vec<(String, String)>>)
    ensures
        match r {
            Some(list) => json@ matches JsonValue::Object(members) && distinct_names(list@)
                && match texts_of(members) {
                Some(rows) => as_map(list@) == merged(rows),
                None => false,
            },
            None => !(json@ matches JsonValue::Object(members) && texts_of(members) is Some),
        },
{
    proof {
        lemma_view_unfolds(*json);
    }
    match json {
        Json::Object(members) => {
            let ghost all = members_view(members@);
            let mut list: Vec<(String, String)> = Vec::new();
            let mut i: usize = 0;
            assert(all.take(0) =~= Seq::empty());
            assert(as_map(list@) =~= merged(Seq::<(Seq<char>, Seq<char>)>::empty()));
            while i < members.len()
                invariant
                    i <= members@.len(),
                    all == members_view(members@),
                    json@ == JsonValue::Object(all),
                    distinct_names(list@),
                    texts_of(all.take(i as int)) is Some,
                    as_map(list@) == merged(texts_of(all.take(i as int))->0),
                decreases members@.len() - i,
            {
                proof {
                    assert(all.take(i + 1).drop_last() =~= all.take(i as int));
                    assert(all.take(i + 1).last() == (
                        members@[i as int].0@,
                        members@[i as int].1@,
                    ));
                }
                match &members[i].1 {
                    Json::Text(s) => {
                        let ghost rows = texts_of(all.take(i + 1))->0;
                        assert(rows.drop_last() =~= texts_of(all.take(i as int))->0);
                        upsert(&mut list, members[i].0.clone(), s.clone());
                    },
                    _ => {
                        proof {
                            lemma_texts_of_fails(all, i as int);
                        }
                        return None;
                    },
                }
                i += 1;
            }
            assert(all.take(i as int) =~= all);
            Some(list)
        },
        _ => None,
    }
}

/// Members of which one is no text are not all texts.
proof fn lemma_texts_of_fails(members: Seq<(Seq<char>, JsonValue)>, at: int)
    requires
        0 <= at < members.len(),
        !(members[at].1 is Text),
    ensures
        texts_of(members) is None,
    decreases members.len(),
{
    if at < members.len() - 1 {
        lemma_texts_of_fails(members.drop_last(), at);
    }
}

/// What is reported for a document that does not have the expected shape: a failure to
/// serialize whose text says `what` is wrong.
fn misshapen(what: &str) -> (e: Error)
    ensures
        e@ == (ErrorView::Serialization { src: what@ }),
{
    Error::Serialization { src: String::from_str(what) }
}

/// The document that stands for `request`.
pub fn encode_request(request: &Request) -> (json: Json)
    ensures
        json@ == request_json(
            request.method@,
            request.uri@,
            plain(request.header@),
            request.body@,
        ),
{
    let mut members: Vec<(String, Json)> = Vec::new();
    members.push((String::from_str("method"), Json::from_text(&request.method)));
    members.push((String::from_str("uri"), Json::from_text(&request.uri)));
    members.push((String::from_str("header"), encode_texts(&request.header)));
    members.push((String::from_str("body"), Json::from_bytes(&request.body)));
    let json = Json::Object(members);
    proof {
        lemma_view_unfolds(json);
        assert(members_view(members@) =~= request_json(
            request.method@,
            request.uri@,
            plain(request.header@),
            request.body@,
        )->Object_0);
    }
    json
}

/// The request that `json` stands for.
pub fn decode_request(json: &Json) -> (r: Result<Request, Error>)
    ensures
        match r {
            Ok(request) => request.wf() && request_of(json@) == Some(request@),
            Err(e) => request_of(json@) is None && e@ is Serialization,
        },
{
    let method = match json.text_member("method") {
        Some(s) => s,
        None => {
            return Err(misshapen("invalid request: method"));
        },
    };
    let uri = match json.text_member("uri") {
        Some(s) => s,
        None => {
            return Err(misshapen("invalid request: uri"));
        },
    };
    let header = match json.member("header") {
        Some(v) => match decode_texts(v) {
            Some(list) => list,
            None => {
                return Err(misshapen("invalid request: header"));
            },
        },
        None => {
            return Err(misshapen("invalid request: header"));
        },
    };
    let body = match json.bytes_member("body") {
        Some(bytes) => bytes,
        None => {
            return Err(misshapen("invalid request: body"));
        },
    };
    Ok(Request { method, uri, header, body })
}

/// The object whose members are the given byte strings under the given names.
pub open spec fn blobs_json(fields: Seq<(Seq<char>, Seq<u8>)>) -> JsonValue {
    JsonValue::Object(Seq::new(fields.len(), |i: int| (fields[i].0, bytes_json(fields[i].1))))
}

/// The names and byte strings that the members hold, where every member is a list of bytes.
pub open spec fn blobs_of(members: Seq<(Seq<char>, JsonValue)>) -> Option<
    Seq<(Seq<char>, Seq<u8>)>,
>
    decreases members.len(),
{
    if members.len() == 0 {
        Some(Seq::empty())
    } else {
        match (blobs_of(members.drop_last()), members.last().1.as_bytes()) {
            (Some(fields), Some(bytes)) => Some(fields.push((members.last().0, bytes))),
            _ => None,
        }
    }
}

/// The document that stands for a response.
pub open spec fn response_json(
    done_date: i64,
    status: u16,
    header: Seq<(Seq<char>, Seq<u8>)>,
    body: Seq<u8>,
    elapsed_time: i32,
) -> JsonValue {
    JsonValue::Object(
        seq![
            ("done_date"@, JsonValue::Number(Some(done_date as int))),
            ("status"@, JsonValue::Number(Some(status as int))),
            ("header"@, blobs_json(header)),
            ("body"@, bytes_json(body)),
            ("elapsed_time"@, JsonValue::Number(Some(elapsed_time as int))),
        ],
    )
}

/// The response that a document stands for: an object with the numbers `done_date`,
/// `status` and `elapsed_time`, each within the range of its field, an object of lists of
/// bytes `header` and a list of bytes `body`. Other members are passed over.
pub open spec fn response_of(value: JsonValue) -> Option<ResponseView> {
    match (
        value.integer_member("done_date"@, i64::MIN as int, i64::MAX as int),
        value.integer_member("status"@, 0, u16::MAX as int),
        value.member("header"@),
        value.bytes_member("body"@),
        value.integer_member("elapsed_time"@, i32::MIN as int, i32::MAX as int),
    ) {
        (
            Some(done_date),
            Some(status),
            Some(JsonValue::Object(members)),
            Some(body),
            Some(elapsed_time),
        ) => match blobs_of(members) {
            Some(fields) => Some(
                ResponseView {
                    done_date: done_date as i64,
                    status: status as u16,
                    header: merged(fields),
                    body,
                    elapsed_time: elapsed_time as i32,
                },
            ),
            None => None,
        },
        _ => None,
    }
}

/// The response that the JSON text `text` stands for.
pub open spec fn response_read(text: Seq<char>) -> Option<ResponseView> {
    match parsed(text, MAX_DEPTH as nat) {
        Some(value) => response_of(value),
        None => None,
    }
}

/// Byte strings are read back from the object that holds them.
pub proof fn lemma_blobs_round_trip(fields: Seq<(Seq<char>, Seq<u8>)>)
    ensures
        blobs_of(blobs_json(fields)->Object_0) == Some(fields),
    decreases fields.len(),
{
    let members = blobs_json(fields)->Object_0;
    if fields.len() > 0 {
        lemma_blobs_round_trip(fields.drop_last());
        lemma_bytes_round_trip(fields.last().1);
        assert(members.drop_last() =~= blobs_json(fields.drop_last())->Object_0);
        assert(fields.drop_last().push(fields.last()) =~= fields);
    }
}

/// The names under which the parts of a response are written differ from one another.
proof fn lemma_response_names()
    ensures
        "done_date"@ != "status"@,
        "done_date"@ != "header"@,
        "done_date"@ != "body"@,
        "done_date"@ != "elapsed_time"@,
        "status"@ != "header"@,
        "status"@ != "body"@,
        "status"@ != "elapsed_time"@,
        "header"@ != "body"@,
        "header"@ != "elapsed_time"@,
        "body"@ != "elapsed_time"@,
{
    reveal_strlit("done_date");
    reveal_strlit("status");
    reveal_strlit("header");
    reveal_strlit("body");
    reveal_strlit("elapsed_time");
    assert("done_date"@.len() == 9 && "status"@.len() == 6 && "header"@.len() == 6 && "body"@.len()
        == 4 && "elapsed_time"@.len() == 12);
    assert("status"@[0] == 's' && "header"@[0] == 'h');
}

/// What is read from the document of a response is that response.
pub proof fn lemma_response_round_trip(response: Response)
    requires
        response.wf(),
    ensures
        response_of(
            response_json(
                response.done_date,
                response.status,
                plain(response.header@),
                response.body@,
                response.elapsed_time,
            ),
        ) == Some(response@),
{
    let header = plain(response.header@);
    let value = response_json(
        response.done_date,
        response.status,
        header,
        response.body@,
        response.elapsed_time,
    );
    let members = value->Object_0;
    lemma_response_names();
    lemma_member_place(members, "done_date"@, 0);
    lemma_member_place(members, "status"@, 1);
    lemma_member_place(members, "header"@, 2);
    lemma_member_place(members, "body"@, 3);
    lemma_member_place(members, "elapsed_time"@, 4);
    lemma_blobs_round_trip(header);
    lemma_bytes_round_trip(response.body@);
    lemma_merged_of_distinct(response.header@);
}

/// The object whose members are the given byte strings under the given names.
fn encode_blobs(fields: &Vec<(String, Vec<u8>)>) -> (json: Json)
    ensures
        json@ == blobs_json(plain(fields@)),
{
    let mut members: Vec<(String, Json)> = Vec::new();
    let mut i: usize = 0;
    while i < fields.len()
        invariant
            i <= fields@.len(),
            members@.len() == i,
            forall|k: int|
                0 <= k < i ==> members@[k].0@ == fields@[k].0@ && members@[k].1@ == bytes_json(
                    fields@[k].1@,
                ),
        decreases fields@.len() - i,
    {
        members.push((fields[i].0.clone(), Json::from_bytes(&fields[i].1)));
        i += 1;
    }
    let json = Json::Object(members);
    proof {
        lemma_view_unfolds(json);
        assert(members_view(members@) =~= blobs_json(plain(fields@))->Object_0);
    }
    json
}

/// The header list that the members of an object hold, where every member is a list of bytes.
fn decode_blobs(json: &Json) -> (r: Option<Vec<(String, Vec<u8>)>>)
    ensures
        match r {
            Some(list) => json@ matches JsonValue::Object(members) && distinct_names(list@)
                && match blobs_of(members) {
                Some(fields) => as_map(list@) == merged(fields),
                None => false,
            },
            None => !(json@ matches JsonValue::Object(members) && blobs_of(members) is Some),
        },
{
    proof {
        lemma_view_unfolds(*json);
    }
    match json {
        Json::Object(members) => {
            let ghost all = members_view(members@);
            let mut list: Vec<(String, Vec<u8>)> = Vec::new();
            let mut i: usize = 0;
            assert(all.take(0) =~= Seq::empty());
            assert(as_map(list@) =~= merged(Seq::<(Seq<char>, Seq<u8>)>::empty()));
            while i < members.len()
                invariant
                    i <= members@.len(),
                    all == members_view(members@),
                    json@ == JsonValue::Object(all),
                    distinct_names(list@),
                    blobs_of(all.take(i as int)) is Some,
                    as_map(list@) == merged(blobs_of(all.take(i as int))->0),
                decreases members@.len() - i,
            {
                proof {
                    assert(all.take(i + 1).drop_last() =~= all.take(i as int));
                    assert(all.take(i + 1).last() == (
                        members@[i as int].0@,
                        members@[i as int].1@,
                    ));
                }
                match members[i].1.as_bytes() {
                    Some(bytes) => {
                        let ghost fields = blobs_of(all.take(i + 1))->0;
                        assert(fields.drop_last() =~= blobs_of(all.take(i as int))->0);
                        upsert(&mut list, members[i].0.clone(), bytes);
                    },
                    None => {
                        proof {
                            lemma_blobs_of_fails(all, i as int);
                        }
                        return None;
                    },
                }
                i += 1;
            }
            assert(all.take(i as int) =~= all);
            Some(list)
        },
        _ => None,
    }
}

/// Members of which one is no list of bytes are not all lists of bytes.
proof fn lemma_blobs_of_fails(members: Seq<(Seq<char>, JsonValue)>, at: int)
    requires
        0 <= at < members.len(),
        members[at].1.as_bytes() is None,
    ensures
        blobs_of(members) is None,
    decreases members.len(),
{
    if at < members.len() - 1 {
        lemma_blobs_of_fails(members.drop_last(), at);
    }
}

/// The document that stands for `response`.
pub fn encode_response(response: &Response) -> (json: Json)
    ensures
        json@ == response_json(
            response.done_date,
            response.status,
            plain(response.header@),
            response.body@,
            response.elapsed_time,
        ),
{
    let mut members: Vec<(String, Json)> = Vec::new();
    members.push((String::from_str("done_date"), Json::Number(Some(response.done_date as i128))));
    members.push((String::from_str("status"), Json::Number(Some(response.status as i128))));
    members.push((String::from_str("header"), encode_blobs(&response.header)));
    members.push((String::from_str("body"), Json::from_bytes(&response.body)));
    members.push(
        (String::from_str("elapsed_time"), Json::Number(Some(response.elapsed_time as i128))),
    );
    let json = Json::Object(members);
    proof {
        lemma_view_unfolds(json);
        assert(members_view(members@) =~= response_json(
            response.done_date,
            response.status,
            plain(response.header@),
            response.body@,
            response.elapsed_time,
        )->Object_0);
    }
    json
}

/// The response that `json` stands for.
pub fn decode_response(json: &Json) -> (r: Result<Response, Error>)
    ensures
        match r {
            Ok(response) => response.wf() && response_of(json@) == Some(response@),
            Err(e) => response_of(json@) is None && e@ is Serialization,
        },
{
    let done_date = match json.integer_member("done_date", i64::MIN as i128, i64::MAX as i128) {
        Some(n) => n as i64,
        None => {
            return Err(misshapen("invalid response: done_date"));
        },
    };
    let status = match json.integer_member("status", 0, u16::MAX as i128) {
        Some(n) => n as u16,
        None => {
            return Err(misshapen("invalid response: status"));
        },
    };
    let header = match json.member("header") {
        Some(v) => match decode_blobs(v) {
            Some(list) => list,
            None => {
                return Err(misshapen("invalid response: header"));
            },
        },
        None => {
            return Err(misshapen("invalid response: header"));
        },
    };
    let body = match json.bytes_member("body") {
        Some(bytes) => bytes,
        None => {
            return Err(misshapen("invalid response: body"));
        },
    };
    let elapsed_time = match json.integer_member(
        "elapsed_time",
        i32::MIN as i128,
        i32::MAX as i128,
    ) {
        Some(n) => n as i32,
        None => {
            return Err(misshapen("invalid response: elapsed_time"));
        },
    };
    Ok(Response { done_date, status, header, body, elapsed_time })
}

/// The document that stands for an envelope.
pub open spec fn message_json(code: Seq<char>, value: Seq<char>) -> JsonValue {
    JsonValue::Object(seq![("code"@, JsonValue::Text(code)), ("value"@, JsonValue::Text(value))])
}

/// The envelope that a document stands for: an object with the texts `code` and `value`.
pub open spec fn message_of(value: JsonValue) -> Option<MessageView> {
    match (value.text_member("code"@), value.text_member("value"@)) {
        (Some(code), Some(value)) => Some(MessageView { code, value }),
        _ => None,
    }
}

/// The envelope that the JSON text `text` stands for.
pub open spec fn message_read(text: Seq<char>) -> Option<MessageView> {
    match parsed(text, MAX_DEPTH as nat) {
        Some(value) => message_of(value),
        None => None,
    }
}

/// What is read from the document of an envelope is that envelope.
pub proof fn lemma_message_round_trip(message: Message)
    ensures
        message_of(message_json(message@.code, message@.value)) == Some(message@),
{
    let members = message_json(message@.code, message@.value)->Object_0;
    reveal_strlit("code");
    reveal_strlit("value");
    assert("code"@.len() == 4 && "value"@.len() == 5);
    lemma_member_place(members, "code"@, 0);
    lemma_member_place(members, "value"@, 1);
}

/// The document that stands for `message`.
pub fn encode_message(message: &Message) -> (json: Json)
    ensures
        json@ == message_json(message@.code, message@.value),
{
    let mut members: Vec<(String, Json)> = Vec::new();
    members.push((String::from_str("code"), Json::from_text(&message.code)));
    members.push((String::from_str("value"), Json::from_text(&message.value)));
    let json = Json::Object(members);
    proof {
        lemma_view_unfolds(json);
        assert(members_view(members@) =~= message_json(message@.code, message@.value)->Object_0);
    }
    json
}

/// The envelope that `json` stands for.
pub fn decode_message(json: &Json) -> (r: Result<Message, Error>)
    ensures
        match r {
            Ok(message) => message_of(json@) == Some(message@),
            Err(e) => message_of(json@) is None && e@ is Serialization,
        },
{
    let code = match json.text_member("code") {
        Some(s) => s,
        None => {
            return Err(misshapen("Failed to ser/de message: code"));
        },
    };
    let value = match json.text_member("value") {
        Some(s) => s,
        None => {
            return Err(misshapen("Failed to ser/de message: value"));
        },
    };
    Ok(Message { code, value })
}

/// Reads an envelope from JSON text.
pub fn read_message(text: &str) -> (r: Result<Message, Error>)
    ensures
        match r {
            Ok(message) => message_read(text@) == Some(message@),
            Err(e) => message_read(text@) is None && e@ is Serialization,
        },
{
    match Json::read(text) {
        Ok(json) => decode_message(&json),
        Err(e) => Err(e),
    }
}

/// What one attempt on the channel came to, given what the channel handed back: the JSON
/// text of what was received, or the text of the channel's failure.
pub fn outcome_of(received: Result<String, String>) -> (outcome: Outcome)
    ensures
        match received {
            Ok(text) => match message_read(text@) {
                Some(message) => outcome@ == OutcomeView::Replied(message),
                None => outcome@ is Unreadable,
            },
            Err(src) => outcome@ == (OutcomeView::TransportFailed { src: src@ }),
        },
{
    match received {
        Ok(text) => match read_message(text.as_str()) {
            Ok(message) => Outcome::Replied(message),
            Err(e) => Outcome::Unreadable { src: e.message() },
        },
        Err(src) => Outcome::TransportFailed { src },
    }
}

/// Whether two requests have the same content, where the second has no repeated header
/// names. For a first request that has none either the answer is exact.
pub fn same_request(a: &Request, b: &Request) -> (r: bool)
    requires
        b.wf(),
    ensures
        r ==> a@ == b@,
        a.wf() ==> r == (a@ == b@),
{
    a.method == b.method && a.uri == b.uri && bytes_eq(a.body.as_slice(), b.body.as_slice())
        && same_mapping(&a.header, &b.header)
}

/// Whether two responses have the same content, where the second has no repeated header
/// names. For a first response that has none either the answer is exact.
pub fn same_response(a: &Response, b: &Response) -> (r: bool)
    requires
        b.wf(),
    ensures
        r ==> a@ == b@,
        a.wf() ==> r == (a@ == b@),
{
    a.done_date == b.done_date && a.status == b.status && a.elapsed_time == b.elapsed_time
        && bytes_eq(a.body.as_slice(), b.body.as_slice()) && same_mapping(&a.header, &b.header)
}

/// The text that stands for a request on the wire, where the request can be written and
/// what was written reads back as the request.
pub open spec fn request_wire(request: Request) -> Option<Seq<char>> {
    match written(
        request_json(request.method@, request.uri@, plain(request.header@), request.body@),
    ) {
        Some(text) => if request_read(text) == Some(request@) {
            Some(text)
        } else {
            None
        },
        None => None,
    }
}

/// The text that stands for a response on the wire, where the response can be written and
/// what was written reads back as the response.
pub open spec fn response_wire(response: Response) -> Option<Seq<char>> {
    match written(
        response_json(
            response.done_date,
            response.status,
            plain(response.header@),
            response.body@,
            response.elapsed_time,
        ),
    ) {
        Some(text) => if response_read(text) == Some(response@) {
            Some(text)
        } else {
            None
        },
        None => None,
    }
}

impl Message {
    /// The envelope that asks the background context to send `value`. What was written is
    /// read back before it is handed out, so every envelope returned holds the request: a
    /// request that does not come back as it went in cannot be represented.
    pub fn try_from(value: Request) -> (r: Result<Message, Error>)
        ensures
            match r {
                Ok(m) => m@.code == http_send_code() && request_wire(value) == Some(m@.value)
                    && request_read(m@.value) == Some(value@),
                Err(e) => e@ is Serialization && (value.wf() ==> request_wire(value) is None),
            },
    {
        let text = match encode_request(&value).write() {
            Ok(text) => text,
            Err(e) => {
                return Err(e);
            },
        };
        let back = match Json::read(text.as_str()) {
            Ok(json) => match decode_request(&json) {
                Ok(back) => back,
                Err(e) => {
                    return Err(e);
                },
            },
            Err(e) => {
                return Err(e);
            },
        };
        if same_request(&value, &back) {
            Ok(Message::http_send(text))
        } else {
            Err(misshapen("request cannot be represented"))
        }
    }

    /// The envelope that answers with `value`. What was written is read back before it is
    /// handed out; where the response cannot be written, or does not come back as it went
    /// in, the envelope reports that failure instead.
    pub fn from(value: Response) -> (m: Message)
        ensures
            m@.code == http_send_code() || m@.code == error_code(),
            m@.code == http_send_code() ==> response_wire(value) == Some(m@.value)
                && response_read(m@.value) == Some(value@),
            value.wf() && response_wire(value) is Some ==> m@.code == http_send_code(),
    {
        proof {
            lemma_codes_differ();
        }
        let text = match encode_response(&value).write() {
            Ok(text) => text,
            Err(e) => {
                return Message::from_error(&e);
            },
        };
        let back = match Json::read(text.as_str()) {
            Ok(json) => match decode_response(&json) {
                Ok(back) => back,
                Err(e) => {
                    return Message::from_error(&e);
                },
            },
            Err(e) => {
                return Message::from_error(&e);
            },
        };
        if same_response(&value, &back) {
            Message::http_send(text)
        } else {
            Message::from_error(&misshapen("response cannot be represented"))
        }
    }
}

/// The code of the operation is not the code that marks a failure.
pub proof fn lemma_codes_differ()
    ensures
        http_send_code() != error_code(),
{
    reveal_strlit("http_send");
    reveal_strlit("error");
    assert("http_send"@.len() == 9 && "error"@.len() == 5);
}

/// What the background context answers: the response in an envelope, or the failure
/// reported by its text.
pub fn reply(outcome: Result<Response, Error>) -> (m: Message)
    ensures
        match outcome {
            Ok(value) => {
                &&& m@.code == http_send_code() || m@.code == error_code()
                &&& m@.code == http_send_code() ==> response_wire(value) == Some(m@.value)
                    && response_read(m@.value) == Some(value@)
                &&& value.wf() && response_wire(value) is Some ==> m@.code == http_send_code()
            },
            Err(e) => m@.code == error_code() && m@.value == e@.message(),
        },
{
    match outcome {
        Ok(response) => Message::from(response),
        Err(e) => Message::from_error(&e),
    }
}

/// Reads the request out of an envelope that asks for one to be sent.
pub fn route(message: &Message) -> (r: Result<Request, Error>)
    requires
        message@.code == http_send_code(),
    ensures
        match r {
            Ok(request) => request.wf() && request_read(message@.value) == Some(request@),
            Err(e) => request_read(message@.value) is None && e@ is Serialization,
        },
{
    match Json::read(message.value.as_str()) {
        Ok(json) => decode_request(&json),
        Err(e) => Err(e),
    }
}

/// Reads the response out of the payload of a reply.
pub fn read_response(payload: &str) -> (r: Result<Response, Error>)
    ensures
        match r {
            Ok(response) => response.wf() && response_read(payload@) == Some(response@),
            Err(e) => response_read(payload@) is None && e@ is Serialization,
        },
{
    match Json::read(payload) {
        Ok(json) => decode_response(&json),
        Err(e) => Err(e),
    }
}

/// Opens a reply: an envelope that reports a failure yields that failure and is never
/// read as a response; any other is read as one.
pub fn open_reply(message: Message) -> (r: Result<Response, Error>)
    ensures
        message@.is_error() ==> (r matches Err(e) && e@ == (ErrorView::RelayApplication {
            message: message@.value,
        })),
        !message@.is_error() ==> match r {
            Ok(response) => response.wf() && response_read(message@.value) == Some(response@),
            Err(e) => response_read(message@.value) is None && e@ is Serialization,
        },
{
    match message.into_outcome() {
        Ok(payload) => read_response(payload.as_str()),
        Err(e) => Err(e),
    }
}

} // verus!
