//! The persisted layout of the log: the index under the key `indexes`, and the content
//! of each entry under the text of its identifier.
//!
//! A write replaces the stored index as a whole, and the store offers no way to write only
//! if nothing changed since it was read. Two writers that each hold an index of their own
//! therefore overwrite each other's entries in the stored index; the contents stay. A
//! writer that shares the store loads the index anew before it logs.

use vstd::prelude::*;
use vstd::string::StringExecFns;
use crate::codec::{
    decode_request, decode_response, encode_request, encode_response, request_json, request_of,
    response_json, response_of,
};
use crate::error::Error;
use crate::header::plain;
use crate::json::{
    items_view, lemma_view_unfolds, members_view, Json, JsonValue,
};
use crate::log::{
    index_view, read_id, uuid_parsed, uuid_text, write_id, LogContent, LogContentView,
    LogIndexItem, LogIndexItemView, Logged,
};

verus! {

/// The key under which the index is stored.
pub open spec fn index_key() -> Seq<char> {
    "indexes"@
}

/// The document that stands for an entry of the index.
pub open spec fn item_json(item: LogIndexItemView) -> JsonValue {
    JsonValue::Object(
        seq![
            ("id"@, JsonValue::Text(uuid_text(item.id))),
            ("method"@, JsonValue::Text(item.method)),
            ("uri"@, JsonValue::Text(item.uri)),
            ("done_date"@, JsonValue::Number(Some(item.done_date as int))),
            ("star"@, JsonValue::Bool(item.star)),
        ],
    )
}

/// Whether the entry that a document stands for is pinned: an entry without the member
/// `star` is not.
pub open spec fn star_of(value: JsonValue) -> Option<bool> {
    match value.member("star"@) {
        None => Some(false),
        Some(v) => v.as_bool(),
    }
}

/// The entry that a document stands for: an object with the texts `id`, `method` and
/// `uri`, of which the first spells an identifier, the number `done_date` and, if it is
/// there, the truth value `star`.
pub open spec fn item_of(value: JsonValue) -> Option<LogIndexItemView> {
    match (
        value.text_member("id"@),
        value.text_member("method"@),
        value.text_member("uri"@),
        value.integer_member("done_date"@, i64::MIN as int, i64::MAX as int),
        star_of(value),
    ) {
        (Some(id), Some(method), Some(uri), Some(done_date), Some(star)) => match uuid_parsed(id) {
            Some(id) => Some(
                LogIndexItemView { id, method, uri, done_date: done_date as i64, star },
            ),
            None => None,
        },
        _ => None,
    }
}

/// The document that stands for an index.
pub open spec fn index_json(index: Seq<LogIndexItemView>) -> JsonValue {
    JsonValue::List(Seq::new(index.len(), |i: int| item_json(index[i])))
}

/// The entries that the documents stand for, where each stands for one.
pub open spec fn items_of(values: Seq<JsonValue>) -> Option<Seq<LogIndexItemView>>
    decreases values.len(),
{
    if values.len() == 0 {
        Some(Seq::empty())
    } else {
        match (items_of(values.drop_last()), item_of(values.last())) {
            (Some(items), Some(item)) => Some(items.push(item)),
            _ => None,
        }
    }
}

/// The index that is loaded from what the store holds under the key `indexes`: the entries
/// listed there, and no entries where nothing is stored or it is no list of entries.
pub open spec fn loaded(found: JsonValue) -> Seq<LogIndexItemView> {
    match found.member(index_key()) {
        Some(JsonValue::List(values)) => match items_of(values) {
            Some(items) => items,
            None => Seq::empty(),
        },
        _ => Seq::empty(),
    }
}

/// The document that stands for the content of an entry.
pub open spec fn content_json(request: JsonValue, response: JsonValue) -> JsonValue {
    JsonValue::Object(seq![("request"@, request), ("response"@, response)])
}

/// The content that a document stands for: an object with a request and a response.
pub open spec fn content_of(value: JsonValue) -> Option<LogContentView> {
    match (value.member("request"@), value.member("response"@)) {
        (Some(request), Some(response)) => match (request_of(request), response_of(response)) {
            (Some(request), Some(response)) => Some(LogContentView { request, response }),
            _ => None,
        },
        _ => None,
    }
}

/// What a lookup in the store comes to.
pub ghost enum Lookup {
    /// The content stored for the entry.
    Found(LogContentView),
    /// Nothing is stored under the key of the entry.
    Missing,
    /// What is stored under the key is no content.
    Malformed,
}

/// What the lookup of the entry `id` comes to, given what the store holds under the key
/// of that entry.
pub open spec fn looked_up(found: JsonValue, id: u128) -> Lookup {
    match found.member(uuid_text(id)) {
        None => Lookup::Missing,
        Some(value) => match content_of(value) {
            Some(content) => Lookup::Found(content),
            None => Lookup::Malformed,
        },
    }
}

/// The key under which the content of the entry `id` is stored: the text of the
/// identifier.
pub fn content_key(id: u128) -> (key: String)
    ensures
        key@ == uuid_text(id),
{
    write_id(id)
}

/// The document that stands for `item`.
pub fn encode_item(item: &LogIndexItem) -> (json: Json)
    ensures
        json@ == item_json(item@),
{
    let mut members: Vec<(String, Json)> = Vec::new();
    members.push((String::from_str("id"), Json::Text(content_key(item.id))));
    members.push((String::from_str("method"), Json::from_text(&item.method)));
    members.push((String::from_str("uri"), Json::from_text(&item.uri)));
    members.push((String::from_str("done_date"), Json::Number(Some(item.done_date as i128))));
    members.push((String::from_str("star"), Json::Bool(item.star)));
    let json = Json::Object(members);
    proof {
        lemma_view_unfolds(json);
        assert(members_view(members@) =~= item_json(item@)->Object_0);
    }
    json
}

/// The entry that `json` stands for, if it stands for one.
pub fn decode_item(json: &Json) -> (r: Option<LogIndexItem>)
    ensures
        match r {
            Some(item) => item_of(json@) == Some(item@),
            None => item_of(json@) is None,
        },
{
    let id = match json.text_member("id") {
        Some(text) => text,
        None => {
            return None;
        },
    };
    let method = match json.text_member("method") {
        Some(text) => text,
        None => {
            return None;
        },
    };
    let uri = match json.text_member("uri") {
        Some(text) => text,
        None => {
            return None;
        },
    };
    let done_date = match json.integer_member("done_date", i64::MIN as i128, i64::MAX as i128) {
        Some(n) => n as i64,
        None => {
            return None;
        },
    };
    let star = match json.member("star") {
        None => false,
        Some(Json::Bool(b)) => *b,
        Some(_) => {
            return None;
        },
    };
    match read_id(id.as_str()) {
        Some(id) => Some(LogIndexItem { id, method, uri, done_date, star }),
        None => None,
    }
}

/// The document that stands for the index `indexes`.
pub fn encode_index(indexes: &Vec<LogIndexItem>) -> (json: Json)
    ensures
        json@ == index_json(index_view(indexes@)),
{
    let mut items: Vec<Json> = Vec::new();
    let mut i: usize = 0;
    while i < indexes.len()
        invariant
            i <= indexes@.len(),
            items@.len() == i,
            forall|k: int| 0 <= k < i ==> items@[k]@ == item_json(indexes@[k]@),
        decreases indexes@.len() - i,
    {
        items.push(encode_item(&indexes[i]));
        i += 1;
    }
    let json = Json::List(items);
    proof {
        lemma_view_unfolds(json);
        assert(items_view(items@) =~= index_json(index_view(indexes@))->List_0);
    }
    json
}

/// A list with an item that stands for no entry stands for no index.
proof fn lemma_items_of_fails(values: Seq<JsonValue>, at: int)
    requires
        0 <= at < values.len(),
        item_of(values[at]) is None,
    ensures
        items_of(values) is None,
    decreases values.len(),
{
    if at < values.len() - 1 {
        lemma_items_of_fails(values.drop_last(), at);
    }
}

/// Loads the index from what the store holds under the key `indexes`. Nothing stored, or
/// something that is no index, gives an empty index: loading never fails.
pub fn load_index(found: &Json) -> (indexes: Vec<LogIndexItem>)
    ensures
        index_view(indexes@) == loaded(found@),
{
    let stored = match found.member("indexes") {
        Some(json) => json,
        None => {
            assert(index_view(Seq::<LogIndexItem>::empty()) =~= Seq::empty());
            return Vec::new();
        },
    };
    proof {
        lemma_view_unfolds(*stored);
    }
    match stored {
        Json::List(items) => {
            let ghost all = items_view(items@);
            let mut indexes: Vec<LogIndexItem> = Vec::new();
            let mut i: usize = 0;
            assert(all.take(0) =~= Seq::empty());
            assert(index_view(indexes@) =~= Seq::empty());
            while i < items.len()
                invariant
                    i <= items@.len(),
                    all == items_view(items@),
                    found@.member(index_key()) == Some(JsonValue::List(all)),
                    items_of(all.take(i as int)) == Some(index_view(indexes@)),
                decreases items@.len() - i,
            {
                proof {
                    assert(all.take(i + 1).drop_last() =~= all.take(i as int));
                    assert(all.take(i + 1).last() == items@[i as int]@);
                }
                let ghost before = index_view(indexes@);
                match decode_item(&items[i]) {
                    Some(item) => {
                        indexes.push(item);
                        assert(index_view(indexes@) =~= before.push(item@));
                    },
                    None => {
                        proof {
                            lemma_items_of_fails(all, i as int);
                            assert(index_view(Seq::<LogIndexItem>::empty()) =~= Seq::empty());
                        }
                        return Vec::new();
                    },
                }
                i += 1;
            }
            assert(all.take(i as int) =~= all);
            indexes
        },
        _ => {
            assert(index_view(Seq::<LogIndexItem>::empty()) =~= Seq::empty());
            Vec::new()
        },
    }
}

/// The document that stands for `content`.
pub fn encode_content(content: &LogContent) -> (json: Json)
    ensures
        json@ == content_json(
            request_json(
                content.request.method@,
                content.request.uri@,
                plain(content.request.header@),
                content.request.body@,
            ),
            response_json(
                content.response.done_date,
                content.response.status,
                plain(content.response.header@),
                content.response.body@,
                content.response.elapsed_time,
            ),
        ),
{
    let mut members: Vec<(String, Json)> = Vec::new();
    members.push((String::from_str("request"), encode_request(&content.request)));
    members.push((String::from_str("response"), encode_response(&content.response)));
    let json = Json::Object(members);
    proof {
        lemma_view_unfolds(json);
        assert(members_view(members@) =~= json@->Object_0);
        assert(json@->Object_0 =~= seq![
            ("request"@, members@[0].1@),
            ("response"@, members@[1].1@),
        ]);
    }
    json
}

/// Looks up the content of the entry `id` in what the store holds under the key of that
/// entry.
pub fn get_log(found: &Json, id: u128) -> (r: Result<LogContent, Error>)
    ensures
        match r {
            Ok(content) => looked_up(found@, id) == Lookup::Found(content@),
            Err(e) => match looked_up(found@, id) {
                Lookup::Found(_) => false,
                Lookup::Missing => e@ is NotFound,
                Lookup::Malformed => e@ is Serialization,
            },
        },
{
    let key = content_key(id);
    let stored = match found.member(key.as_str()) {
        Some(json) => json,
        None => {
            return Err(Error::NotFound);
        },
    };
    let request = match stored.member("request") {
        Some(json) => match decode_request(json) {
            Ok(request) => request,
            Err(e) => {
                return Err(e);
            },
        },
        None => {
            return Err(Error::Serialization { src: String::from_str("invalid log: request") });
        },
    };
    let response = match stored.member("response") {
        Some(json) => match decode_response(json) {
            Ok(response) => response,
            Err(e) => {
                return Err(e);
            },
        },
        None => {
            return Err(Error::Serialization { src: String::from_str("invalid log: response") });
        },
    };
    Ok(LogContent { request, response })
}

/// What is to be stored after an entry was logged: the index as it now is, under the key
/// `indexes`, and the content of the new entry under the text of its identifier.
pub fn save_items(indexes: &Vec<LogIndexItem>, logged: &Logged) -> (items: Json)
    ensures
        items@ == JsonValue::Object(
            seq![
                (index_key(), index_json(index_view(indexes@))),
                (
                    uuid_text(logged.entry.id),
                    content_json(
                        request_json(
                            logged.content.request.method@,
                            logged.content.request.uri@,
                            plain(logged.content.request.header@),
                            logged.content.request.body@,
                        ),
                        response_json(
                            logged.content.response.done_date,
                            logged.content.response.status,
                            plain(logged.content.response.header@),
                            logged.content.response.body@,
                            logged.content.response.elapsed_time,
                        ),
                    ),
                ),
            ],
        ),
{
    let mut members: Vec<(String, Json)> = Vec::new();
    members.push((String::from_str("indexes"), encode_index(indexes)));
    members.push((content_key(logged.entry.id), encode_content(&logged.content)));
    let json = Json::Object(members);
    proof {
        lemma_view_unfolds(json);
        assert(members_view(members@) =~= json@->Object_0);
        assert(json@->Object_0 =~= seq![
            (index_key(), members@[0].1@),
            (uuid_text(logged.entry.id), members@[1].1@),
        ]);
    }
    json
}

/// What is to be stored after a pin was toggled: the index as it now is, under the key
/// `indexes`. The contents stay as they are.
pub fn star_items(indexes: &Vec<LogIndexItem>) -> (items: Json)
    ensures
        items@ == JsonValue::Object(seq![(index_key(), index_json(index_view(indexes@)))]),
{
    let mut members: Vec<(String, Json)> = Vec::new();
    members.push((String::from_str("indexes"), encode_index(indexes)));
    let json = Json::Object(members);
    proof {
        lemma_view_unfolds(json);
        assert(members_view(members@) =~= json@->Object_0);
        assert(json@->Object_0 =~= seq![(index_key(), members@[0].1@)]);
    }
    json
}

} // verus!
