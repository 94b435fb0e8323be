//! JSON documents as trees of plain values, written and read by `serde_json` one level
//! at a time.

use vstd::prelude::*;
use vstd::string::StringExecFns;
use serde_json::{Number, Value};
use crate::error::{Error, ErrorView};

verus! {

/// A JSON document.
#[derive(Debug, PartialEq, Eq)]
pub enum Json {
    Null,
    Bool(bool),
    /// A number: its value where it is an integer, nothing where it is not.
    Number(Option<i128>),
    Text(String),
    List(Vec<Json>),
    /// The members of an object, each with its name.
    Object(Vec<(String, Json)>),
}

/// The mathematical content of a [`Json`] document.
pub ghost enum JsonValue {
    Null,
    Bool(bool),
    Number(Option<int>),
    Text(Seq<char>),
    List(Seq<JsonValue>),
    Object(Seq<(Seq<char>, JsonValue)>),
}

/// An optional integer as a mathematical one.
pub open spec fn number_view(n: Option<i128>) -> Option<int> {
    match n {
        Some(i) => Some(i as int),
        None => None,
    }
}

/// The content of a document.
pub open spec fn content(json: Json) -> JsonValue
    decreases json,
{
    match json {
        Json::Null => JsonValue::Null,
        Json::Bool(b) => JsonValue::Bool(b),
        Json::Number(n) => JsonValue::Number(number_view(n)),
        Json::Text(s) => JsonValue::Text(s@),
        Json::List(items) => JsonValue::List(
            Seq::new(
                items@.len(),
                |i: int|
                    if 0 <= i < items@.len() {
                        content(items@[i])
                    } else {
                        JsonValue::Null
                    },
            ),
        ),
        Json::Object(members) => JsonValue::Object(
            Seq::new(
                members@.len(),
                |i: int|
                    if 0 <= i < members@.len() {
                        (members@[i].0@, content(members@[i].1))
                    } else {
                        (Seq::empty(), JsonValue::Null)
                    },
            ),
        ),
    }
}

impl View for Json {
    type V = JsonValue;

    open spec fn view(&self) -> JsonValue {
        content(*self)
    }
}

/// The top level of a JSON document: what kind of value it is, with the values inside a
/// list or an object still in their written form.
#[derive(Debug, Clone, PartialEq, Eq)]
pub enum Node {
    Null,
    Bool(bool),
    Number(Option<i128>),
    Text(String),
    List(Vec<String>),
    Object(Vec<(String, String)>),
}

/// The mathematical content of a [`Node`].
pub ghost enum NodeValue {
    Null,
    Bool(bool),
    Number(Option<int>),
    Text(Seq<char>),
    List(Seq<Seq<char>>),
    Object(Seq<(Seq<char>, Seq<char>)>),
}

impl View for Node {
    type V = NodeValue;

    open spec fn view(&self) -> NodeValue {
        match self {
            Node::Null => NodeValue::Null,
            Node::Bool(b) => NodeValue::Bool(*b),
            Node::Number(n) => NodeValue::Number(number_view(*n)),
            Node::Text(s) => NodeValue::Text(s@),
            Node::List(items) => NodeValue::List(Seq::new(items@.len(), |i: int| items@[i]@)),
            Node::Object(members) => NodeValue::Object(
                Seq::new(members@.len(), |i: int| (members@[i].0@, members@[i].1@)),
            ),
        }
    }
}

/// The top level that `serde_json` reads from `text`, with each value inside it written
/// anew; nothing where `text` is no JSON.
pub uninterp spec fn json_node(text: Seq<char>) -> Option<NodeValue>;

/// The text that `serde_json` writes for a top level whose inner values are given in
/// written form; nothing where one of them is no JSON, or a number cannot be written.
pub uninterp spec fn node_json(node: NodeValue) -> Option<Seq<char>>;

/// `serde_json::from_str` into a `serde_json::Value`, whose variant is handed on with its
/// content: a number by `as_i128`, each inner value by its `to_string`. The contract names
/// the outcome by `json_node`.
#[verifier::external_body]
fn read_node(text: &str) -> (r: Result<Node, String>)
    ensures
        match r {
            Ok(node) => json_node(text@) == Some(node@),
            Err(_) => json_node(text@) is None,
        },
{
    Ok(match serde_json::from_str::<Value>(text).map_err(|e| e.to_string())? {
        Value::Null => Node::Null,
        Value::Bool(b) => Node::Bool(b),
        Value::Number(n) => Node::Number(n.as_i128()),
        Value::String(s) => Node::Text(s),
        Value::Array(items) => Node::List(items.iter().map(|v| v.to_string()).collect()),
        Value::Object(members) => Node::Object(
            members.iter().map(|(name, v)| (name.clone(), v.to_string())).collect(),
        ),
    })
}

/// `serde_json::to_string` of the `serde_json::Value` that `node` stands for: a number by
/// `Number::from_i128`, each inner value read by `serde_json::from_str`. The contract names
/// the outcome by `node_json`.
#[verifier::external_body]
fn write_node(node: &Node) -> (r: Option<String>)
    ensures
        match r {
            Some(text) => node_json(node@) == Some(text@),
            None => node_json(node@) is None,
        },
{
    let read = |t: &String| serde_json::from_str::<Value>(t).ok();
    let value = match node {
        Node::Null => Value::Null,
        Node::Bool(b) => Value::Bool(*b),
        Node::Number(n) => Value::Number(Number::from_i128((*n)?)?),
        Node::Text(s) => Value::String(s.clone()),
        Node::List(items) => Value::Array(items.iter().map(read).collect::<Option<_>>()?),
        Node::Object(members) => Value::Object(
            members.iter().map(|(k, t)| Some((k.clone(), read(t)?))).collect::<Option<_>>()?,
        ),
    };
    serde_json::to_string(&value).ok()
}

/// The written forms of `items`, one after the other, where each of them has one.
pub open spec fn all_written(items: Seq<JsonValue>) -> Option<Seq<Seq<char>>>
    decreases items,
{
    if items.len() == 0 {
        Some(Seq::empty())
    } else {
        match (all_written(items.drop_last()), written(items.last())) {
            (Some(texts), Some(text)) => Some(texts.push(text)),
            _ => None,
        }
    }
}

/// The members `members` with each value in written form, where each of them has one.
pub open spec fn members_written(members: Seq<(Seq<char>, JsonValue)>) -> Option<
    Seq<(Seq<char>, Seq<char>)>,
>
    decreases members,
{
    if members.len() == 0 {
        Some(Seq::empty())
    } else {
        match (members_written(members.drop_last()), written(members.last().1)) {
            (Some(texts), Some(text)) => Some(texts.push((members.last().0, text))),
            _ => None,
        }
    }
}

/// The text of a document: its inner values are written first, then its top level. Nothing
/// where the document holds a number that is no integer, or one that JSON cannot take.
pub open spec fn written(value: JsonValue) -> Option<Seq<char>>
    decreases value,
{
    match value {
        JsonValue::Null => node_json(NodeValue::Null),
        JsonValue::Bool(b) => node_json(NodeValue::Bool(b)),
        JsonValue::Number(n) => node_json(NodeValue::Number(n)),
        JsonValue::Text(s) => node_json(NodeValue::Text(s)),
        JsonValue::List(items) => match all_written(items) {
            Some(texts) => node_json(NodeValue::List(texts)),
            None => None,
        },
        JsonValue::Object(members) => match members_written(members) {
            Some(texts) => node_json(NodeValue::Object(texts)),
            None => None,
        },
    }
}

/// How deep the lists and objects of a document that is read may be nested.
pub const MAX_DEPTH: usize = 128;

/// The documents read from `texts`, each nested at most `depth` deep, where each is one.
pub open spec fn all_parsed(texts: Seq<Seq<char>>, depth: nat) -> Option<Seq<JsonValue>>
    decreases depth, texts.len() + 1,
{
    if texts.len() == 0 {
        Some(Seq::empty())
    } else {
        match (all_parsed(texts.drop_last(), depth), parsed(texts.last(), depth)) {
            (Some(items), Some(item)) => Some(items.push(item)),
            _ => None,
        }
    }
}

/// The members read from `texts`, each nested at most `depth` deep, where each is a document.
pub open spec fn members_parsed(texts: Seq<(Seq<char>, Seq<char>)>, depth: nat) -> Option<
    Seq<(Seq<char>, JsonValue)>,
>
    decreases depth, texts.len() + 1,
{
    if texts.len() == 0 {
        Some(Seq::empty())
    } else {
        match (members_parsed(texts.drop_last(), depth), parsed(texts.last().1, depth)) {
            (Some(members), Some(value)) => Some(members.push((texts.last().0, value))),
            _ => None,
        }
    }
}

/// The document read from `text`: its top level is read first, then what is inside, as
/// long as lists and objects are nested no more than `depth` deep.
pub open spec fn parsed(text: Seq<char>, depth: nat) -> Option<JsonValue>
    decreases depth, 0nat,
{
    match json_node(text) {
        None => None,
        Some(NodeValue::Null) => Some(JsonValue::Null),
        Some(NodeValue::Bool(b)) => Some(JsonValue::Bool(b)),
        Some(NodeValue::Number(n)) => Some(JsonValue::Number(n)),
        Some(NodeValue::Text(s)) => Some(JsonValue::Text(s)),
        Some(NodeValue::List(texts)) => if depth == 0 {
            None
        } else {
            match all_parsed(texts, (depth - 1) as nat) {
                Some(items) => Some(JsonValue::List(items)),
                None => None,
            }
        },
        Some(NodeValue::Object(texts)) => if depth == 0 {
            None
        } else {
            match members_parsed(texts, (depth - 1) as nat) {
                Some(members) => Some(JsonValue::Object(members)),
                None => None,
            }
        },
    }
}

/// The views of the items of a list.
pub open spec fn items_view(items: Seq<Json>) -> Seq<JsonValue> {
    Seq::new(items.len(), |i: int| items[i]@)
}

/// The views of the members of an object.
pub open spec fn members_view(members: Seq<(String, Json)>) -> Seq<(Seq<char>, JsonValue)> {
    Seq::new(members.len(), |i: int| (members[i].0@, members[i].1@))
}

/// A list's view is the list of its items' views; an object's, that of its members.
pub proof fn lemma_view_unfolds(json: Json)
    ensures
        json matches Json::List(items) ==> json@ == JsonValue::List(items_view(items@)),
        json matches Json::Object(members) ==> json@ == JsonValue::Object(
            members_view(members@),
        ),
{
    match json {
        Json::List(items) => {
            assert(json@->List_0 =~= items_view(items@));
        },
        Json::Object(members) => {
            assert(json@->Object_0 =~= members_view(members@));
        },
        _ => {},
    }
}

impl Json {
    /// Writes the document as JSON text.
    #[verifier::loop_isolation(false)]
    pub fn write(&self) -> (r: Result<String, Error>)
        ensures
            match r {
                Ok(text) => written(self@) == Some(text@),
                Err(e) => written(self@) is None && e@ is Serialization,
            },
        decreases self,
    {
        proof {
            lemma_view_unfolds(*self);
        }
        let node = match self {
            Json::Null => Node::Null,
            Json::Bool(b) => Node::Bool(*b),
            Json::Number(n) => Node::Number(*n),
            Json::Text(s) => Node::Text(s.clone()),
            Json::List(items) => {
                let ghost all = items_view(items@);
                let mut texts: Vec<String> = Vec::new();
                let mut i: usize = 0;
                assert(all.take(0) =~= Seq::empty());
                while i < items.len()
                    invariant
                        i <= items@.len(),
                        all_written(all.take(i as int)) == Some(Node::List(texts)@->List_0),
                    decreases items@.len() - i,
                {
                    proof {
                        vstd::std_specs::vec::axiom_vec_index_decreases(*items, i as int);
                        assert(decreases_to!(self => self->List_0));
                        assert(decreases_to!(items => items[i as int]));
                        assert(all.take(i + 1).drop_last() =~= all.take(i as int));
                        assert(all.take(i + 1).last() == items@[i as int]@);
                    }
                    let ghost before = Node::List(texts)@->List_0;
                    match items[i].write() {
                        Ok(text) => {
                            texts.push(text);
                            assert(Node::List(texts)@->List_0 =~= before.push(text@));
                        },
                        Err(e) => {
                            proof {
                                lemma_all_written_fails(all, i as int);
                            }
                            return Err(e);
                        },
                    }
                    i += 1;
                }
                assert(all.take(i as int) =~= all);
                Node::List(texts)
            },
            Json::Object(members) => {
                let ghost all = members_view(members@);
                let mut texts: Vec<(String, String)> = Vec::new();
                let mut i: usize = 0;
                assert(all.take(0) =~= Seq::empty());
                while i < members.len()
                    invariant
                        i <= members@.len(),
                        members_written(all.take(i as int)) == Some(
                            Node::Object(texts)@->Object_0,
                        ),
                    decreases members@.len() - i,
                {
                    proof {
                        vstd::std_specs::vec::axiom_vec_index_decreases(*members, i as int);
                        assert(decreases_to!(self => self->Object_0));
                        assert(decreases_to!(members => members[i as int]));
                        assert(decreases_to!(members[i as int] => members[i as int].1));
                        assert(all.take(i + 1).drop_last() =~= all.take(i as int));
                        assert(all.take(i + 1).last() == (
                            members@[i as int].0@,
                            members@[i as int].1@,
                        ));
                    }
                    let ghost before = Node::Object(texts)@->Object_0;
                    match members[i].1.write() {
                        Ok(text) => {
                            let name = members[i].0.clone();
                            texts.push((name, text));
                            assert(Node::Object(texts)@->Object_0 =~= before.push(
                                (name@, text@),
                            ));
                        },
                        Err(e) => {
                            proof {
                                lemma_members_written_fails(all, i as int);
                            }
                            return Err(e);
                        },
                    }
                    i += 1;
                }
                assert(all.take(i as int) =~= all);
                Node::Object(texts)
            },
        };
        match write_node(&node) {
            Some(text) => Ok(text),
            None => Err(unwritable()),
        }
    }

    /// Reads a document from JSON text.
    pub fn read(text: &str) -> (r: Result<Json, Error>)
        ensures
            match r {
                Ok(json) => parsed(text@, MAX_DEPTH as nat) == Some(json@),
                Err(e) => parsed(text@, MAX_DEPTH as nat) is None && e@ is Serialization,
            },
    {
        Json::read_within(text, MAX_DEPTH)
    }

    /// Reads a document whose lists and objects are nested at most `depth` deep.
    #[verifier::loop_isolation(false)]
    pub fn read_within(text: &str, depth: usize) -> (r: Result<Json, Error>)
        ensures
            match r {
                Ok(json) => parsed(text@, depth as nat) == Some(json@),
                Err(e) => parsed(text@, depth as nat) is None && e@ is Serialization,
            },
        decreases depth,
    {
        let node = match read_node(text) {
            Ok(node) => node,
            Err(src) => {
                return Err(Error::Serialization { src });
            },
        };
        match node {
            Node::Null => Ok(Json::Null),
            Node::Bool(b) => Ok(Json::Bool(b)),
            Node::Number(n) => Ok(Json::Number(n)),
            Node::Text(s) => Ok(Json::Text(s)),
            Node::List(texts) => {
                if depth == 0 {
                    return Err(too_deep());
                }
                let ghost all = node@->List_0;
                let ghost below = (depth - 1) as nat;
                let mut items: Vec<Json> = Vec::new();
                let mut i: usize = 0;
                assert(all.take(0) =~= Seq::empty());
                assert(items_view(items@) =~= Seq::empty());
                while i < texts.len()
                    invariant
                        i <= texts@.len(),
                        all_parsed(all.take(i as int), below) == Some(items_view(items@)),
                    decreases texts@.len() - i,
                {
                    proof {
                        assert(all.take(i + 1).drop_last() =~= all.take(i as int));
                        assert(all.take(i + 1).last() == texts@[i as int]@);
                    }
                    let ghost before = items_view(items@);
                    match Json::read_within(texts[i].as_str(), depth - 1) {
                        Ok(item) => {
                            items.push(item);
                            assert(items_view(items@) =~= before.push(item@));
                        },
                        Err(e) => {
                            proof {
                                lemma_all_parsed_fails(all, below, i as int);
                            }
                            return Err(e);
                        },
                    }
                    i += 1;
                }
                assert(all.take(i as int) =~= all);
                let json = Json::List(items);
                proof {
                    lemma_view_unfolds(json);
                }
                Ok(json)
            },
            Node::Object(texts) => {
                if depth == 0 {
                    return Err(too_deep());
                }
                let ghost all = node@->Object_0;
                let ghost below = (depth - 1) as nat;
                let mut members: Vec<(String, Json)> = Vec::new();
                let mut i: usize = 0;
                assert(all.take(0) =~= Seq::empty());
                assert(members_view(members@) =~= Seq::empty());
                while i < texts.len()
                    invariant
                        i <= texts@.len(),
                        members_parsed(all.take(i as int), below) == Some(members_view(members@)),
                    decreases texts@.len() - i,
                {
                    proof {
                        assert(all.take(i + 1).drop_last() =~= all.take(i as int));
                        assert(all.take(i + 1).last() == (
                            texts@[i as int].0@,
                            texts@[i as int].1@,
                        ));
                    }
                    let ghost before = members_view(members@);
                    match Json::read_within(texts[i].1.as_str(), depth - 1) {
                        Ok(item) => {
                            let name = texts[i].0.clone();
                            members.push((name, item));
                            assert(members_view(members@) =~= before.push((name@, item@)));
                        },
                        Err(e) => {
                            proof {
                                lemma_members_parsed_fails(all, below, i as int);
                            }
                            return Err(e);
                        },
                    }
                    i += 1;
                }
                assert(all.take(i as int) =~= all);
                let json = Json::Object(members);
                proof {
                    lemma_view_unfolds(json);
                }
                Ok(json)
            },
        }
    }
}

/// The place of the first member named `name`, or the number of members where none is.
pub open spec fn member_place(members: Seq<(Seq<char>, JsonValue)>, name: Seq<char>) -> int
    decreases members.len(),
{
    if members.len() == 0 || members[0].0 == name {
        0
    } else {
        1 + member_place(members.drop_first(), name)
    }
}

/// The bytes that a list of numbers holds, where every item is an integer from 0 to 255.
pub open spec fn bytes_of(items: Seq<JsonValue>) -> Option<Seq<u8>>
    decreases items.len(),
{
    if items.len() == 0 {
        Some(Seq::empty())
    } else {
        match (bytes_of(items.drop_last()), items.last()) {
            (Some(bytes), JsonValue::Number(Some(n))) => if 0 <= n <= 255 {
                Some(bytes.push(n as u8))
            } else {
                None
            },
            _ => None,
        }
    }
}

/// The list of numbers that holds `bytes`.
pub open spec fn bytes_json(bytes: Seq<u8>) -> JsonValue {
    JsonValue::List(Seq::new(bytes.len(), |i: int| JsonValue::Number(Some(bytes[i] as int))))
}

impl JsonValue {
    /// The first member named `name`, where this is an object that has one.
    pub open spec fn member(self, name: Seq<char>) -> Option<JsonValue> {
        match self {
            JsonValue::Object(members) => if member_place(members, name) < members.len() {
                Some(members[member_place(members, name)].1)
            } else {
                None
            },
            _ => None,
        }
    }

    /// The text, where this is a text.
    pub open spec fn as_text(self) -> Option<Seq<char>> {
        match self {
            JsonValue::Text(s) => Some(s),
            _ => None,
        }
    }

    /// The truth value, where this is one.
    pub open spec fn as_bool(self) -> Option<bool> {
        match self {
            JsonValue::Bool(b) => Some(b),
            _ => None,
        }
    }

    /// The number, where this is an integer from `low` to `high`.
    pub open spec fn as_integer(self, low: int, high: int) -> Option<int> {
        match self {
            JsonValue::Number(Some(n)) => if low <= n <= high {
                Some(n)
            } else {
                None
            },
            _ => None,
        }
    }

    /// The bytes, where this is a list of integers from 0 to 255.
    pub open spec fn as_bytes(self) -> Option<Seq<u8>> {
        match self {
            JsonValue::List(items) => bytes_of(items),
            _ => None,
        }
    }

    /// The text of the member `name`, where this is an object with such a member and
    /// the member is a text.
    pub open spec fn text_member(self, name: Seq<char>) -> Option<Seq<char>> {
        match self.member(name) {
            Some(v) => v.as_text(),
            None => None,
        }
    }

    /// The number of the member `name`, where this is an object with such a member and
    /// the member is an integer from `low` to `high`.
    pub open spec fn integer_member(self, name: Seq<char>, low: int, high: int) -> Option<int> {
        match self.member(name) {
            Some(v) => v.as_integer(low, high),
            None => None,
        }
    }

    /// The bytes of the member `name`, where this is an object with such a member and
    /// the member is a list of integers from 0 to 255.
    pub open spec fn bytes_member(self, name: Seq<char>) -> Option<Seq<u8>> {
        match self.member(name) {
            Some(v) => v.as_bytes(),
            None => None,
        }
    }
}

/// `member_place` is the first place of the name, and the number of members where the
/// name does not occur.
pub proof fn lemma_member_place(members: Seq<(Seq<char>, JsonValue)>, name: Seq<char>, at: int)
    requires
        0 <= at <= members.len(),
        forall|i: int| 0 <= i < at ==> members[i].0 != name,
        at < members.len() ==> members[at].0 == name,
    ensures
        member_place(members, name) == at,
    decreases members.len(),
{
    if members.len() > 0 && members[0].0 != name {
        let rest = members.drop_first();
        assert forall|i: int| 0 <= i < at - 1 implies rest[i].0 != name by {
            assert(rest[i] == members[i + 1]);
        }
        lemma_member_place(rest, name, at - 1);
    }
}

/// Bytes are read back from the list of numbers that holds them.
pub proof fn lemma_bytes_round_trip(bytes: Seq<u8>)
    ensures
        bytes_json(bytes).as_bytes() == Some(bytes),
    decreases bytes.len(),
{
    let items = bytes_json(bytes)->List_0;
    if bytes.len() > 0 {
        lemma_bytes_round_trip(bytes.drop_last());
        assert(items.drop_last() =~= bytes_json(bytes.drop_last())->List_0);
        assert(bytes.drop_last().push(bytes.last()) =~= bytes);
    }
}

/// What is reported for a document that cannot be written.
fn unwritable() -> (e: Error)
    ensures
        e@ == (ErrorView::Serialization { src: "value cannot be written as JSON"@ }),
{
    Error::Serialization { src: String::from_str("value cannot be written as JSON") }
}

/// What is reported for a document that is nested too deep.
fn too_deep() -> (e: Error)
    ensures
        e@ == (ErrorView::Serialization { src: "recursion limit exceeded"@ }),
{
    Error::Serialization { src: String::from_str("recursion limit exceeded") }
}

impl Json {
    /// The first member named `name`, where this is an object that has one.
    pub fn member(&self, name: &str) -> (r: Option<&Json>)
        ensures
            match r {
                Some(v) => self@.member(name@) == Some(v@),
                None => self@.member(name@) is None,
            },
    {
        proof {
            lemma_view_unfolds(*self);
        }
        match self {
            Json::Object(members) => match crate::header::find(members, name) {
                Some(i) => {
                    proof {
                        lemma_member_place(members_view(members@), name@, i as int);
                    }
                    Some(&members[i].1)
                },
                None => {
                    proof {
                        let all = members_view(members@);
                        assert forall|i: int| 0 <= i < all.len() implies all[i].0 != name@ by {
                            if all[i].0 == name@ {
                                assert(members@[i].0@ == name@);
                                assert(crate::header::has_name(members@, name@));
                            }
                        }
                        lemma_member_place(all, name@, all.len() as int);
                    }
                    None
                },
            },
            _ => None,
        }
    }

    /// The text of the member `name`, where there is such a member and it is a text.
    pub fn text_member(&self, name: &str) -> (r: Option<String>)
        ensures
            match r {
                Some(s) => self@.text_member(name@) == Some(s@),
                None => self@.text_member(name@) is None,
            },
    {
        match self.member(name) {
            Some(Json::Text(s)) => Some(s.clone()),
            _ => None,
        }
    }

    /// The number of the member `name`, where there is such a member and it is an integer
    /// from `low` to `high`.
    pub fn integer_member(&self, name: &str, low: i128, high: i128) -> (r: Option<i128>)
        ensures
            match r {
                Some(n) => self@.integer_member(name@, low as int, high as int) == Some(n as int),
                None => self@.integer_member(name@, low as int, high as int) is None,
            },
    {
        match self.member(name) {
            Some(Json::Number(Some(n))) => if low <= *n && *n <= high {
                Some(*n)
            } else {
                None
            },
            _ => None,
        }
    }

    /// The bytes that this holds, where it is a list of integers from 0 to 255.
    pub fn as_bytes(&self) -> (r: Option<Vec<u8>>)
        ensures
            match r {
                Some(bytes) => self@.as_bytes() == Some(bytes@),
                None => self@.as_bytes() is None,
            },
    {
        proof {
            lemma_view_unfolds(*self);
        }
        match self {
            Json::List(items) => {
                let ghost all = items_view(items@);
                let mut bytes: Vec<u8> = Vec::new();
                let mut i: usize = 0;
                assert(all.take(0) =~= Seq::empty());
                while i < items.len()
                    invariant
                        i <= items@.len(),
                        all == items_view(items@),
                        self@ == JsonValue::List(all),
                        bytes_of(all.take(i as int)) == Some(bytes@),
                    decreases items@.len() - i,
                {
                    proof {
                        assert(all.take(i + 1).drop_last() =~= all.take(i as int));
                        assert(all.take(i + 1).last() == items@[i as int]@);
                    }
                    match &items[i] {
                        Json::Number(Some(n)) => {
                            if 0 <= *n && *n <= 255 {
                                bytes.push(*n as u8);
                            } else {
                                proof {
                                    lemma_bytes_of_fails(all, i as int);
                                }
                                return None;
                            }
                        },
                        _ => {
                            proof {
                                lemma_bytes_of_fails(all, i as int);
                            }
                            return None;
                        },
                    }
                    i += 1;
                }
                assert(all.take(i as int) =~= all);
                Some(bytes)
            },
            _ => None,
        }
    }

    /// The bytes of the member `name`, where there is such a member and it is a list of
    /// integers from 0 to 255.
    pub fn bytes_member(&self, name: &str) -> (r: Option<Vec<u8>>)
        ensures
            match r {
                Some(bytes) => self@.bytes_member(name@) == Some(bytes@),
                None => self@.bytes_member(name@) is None,
            },
    {
        match self.member(name) {
            Some(v) => v.as_bytes(),
            None => None,
        }
    }

    /// The list of numbers that holds `bytes`.
    pub fn from_bytes(bytes: &Vec<u8>) -> (json: Json)
        ensures
            json@ == bytes_json(bytes@),
    {
        let mut items: Vec<Json> = Vec::new();
        let mut i: usize = 0;
        while i < bytes.len()
            invariant
                i <= bytes@.len(),
                items@.len() == i,
                forall|k: int|
                    0 <= k < i ==> items@[k]@ == JsonValue::Number(Some(bytes@[k] as int)),
            decreases bytes@.len() - i,
        {
            items.push(Json::Number(Some(bytes[i] as i128)));
            i += 1;
        }
        let json = Json::List(items);
        proof {
            lemma_view_unfolds(json);
            assert(items_view(items@) =~= bytes_json(bytes@)->List_0);
        }
        json
    }

    /// The text `text` as a document.
    pub fn from_text(text: &String) -> (json: Json)
        ensures
            json@ == JsonValue::Text(text@),
    {
        Json::Text(text.clone())
    }
}

/// A list with an item that is no byte holds no bytes.
proof fn lemma_bytes_of_fails(items: Seq<JsonValue>, at: int)
    requires
        0 <= at < items.len(),
        !(items[at] matches JsonValue::Number(Some(n)) && 0 <= n <= 255),
    ensures
        bytes_of(items) is None,
    decreases items.len(),
{
    if at < items.len() - 1 {
        lemma_bytes_of_fails(items.drop_last(), at);
    }
}

/// A list with an item that cannot be written cannot be written.
proof fn lemma_all_written_fails(items: Seq<JsonValue>, at: int)
    requires
        0 <= at < items.len(),
        written(items[at]) is None,
    ensures
        all_written(items) is None,
    decreases items.len(),
{
    if at < items.len() - 1 {
        lemma_all_written_fails(items.drop_last(), at);
    }
}

/// An object with a member that cannot be written cannot be written.
proof fn lemma_members_written_fails(members: Seq<(Seq<char>, JsonValue)>, at: int)
    requires
        0 <= at < members.len(),
        written(members[at].1) is None,
    ensures
        members_written(members) is None,
    decreases members.len(),
{
    if at < members.len() - 1 {
        lemma_members_written_fails(members.drop_last(), at);
    }
}

/// Texts of which one is no document are not all documents.
proof fn lemma_all_parsed_fails(texts: Seq<Seq<char>>, depth: nat, at: int)
    requires
        0 <= at < texts.len(),
        parsed(texts[at], depth) is None,
    ensures
        all_parsed(texts, depth) is None,
    decreases texts.len(),
{
    if at < texts.len() - 1 {
        lemma_all_parsed_fails(texts.drop_last(), depth, at);
    }
}

/// Members of which one is no document are not all documents.
proof fn lemma_members_parsed_fails(texts: Seq<(Seq<char>, Seq<char>)>, depth: nat, at: int)
    requires
        0 <= at < texts.len(),
        parsed(texts[at].1, depth) is None,
    ensures
        members_parsed(texts, depth) is None,
    decreases texts.len(),
{
    if at < texts.len() - 1 {
        lemma_members_parsed_fails(texts.drop_last(), depth, at);
    }
}

} // verus!
