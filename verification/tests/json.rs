use httptool::error::Error;
use httptool::json::Json;

fn text(s: &str) -> Json {
    Json::Text(s.to_string())
}

fn number(n: i128) -> Json {
    Json::Number(Some(n))
}

fn object(members: Vec<(&str, Json)>) -> Json {
    Json::Object(members.into_iter().map(|(name, value)| (name.to_string(), value)).collect())
}

#[test]
fn scalars_are_written() {
    assert_eq!(Json::Null.write(), Ok("null".to_string()));
    assert_eq!(Json::Bool(true).write(), Ok("true".to_string()));
    assert_eq!(Json::Bool(false).write(), Ok("false".to_string()));
    assert_eq!(number(0).write(), Ok("0".to_string()));
    assert_eq!(number(-17).write(), Ok("-17".to_string()));
    assert_eq!(number(u64::MAX as i128).write(), Ok("18446744073709551615".to_string()));
    assert_eq!(number(i64::MIN as i128).write(), Ok("-9223372036854775808".to_string()));
    assert_eq!(text("a\"b\\c\n").write(), Ok("\"a\\\"b\\\\c\\n\"".to_string()));
    assert_eq!(text("").write(), Ok("\"\"".to_string()));
}

#[test]
fn numbers_that_json_cannot_take_are_not_written() {
    assert!(matches!(Json::Number(None).write(), Err(Error::Serialization { .. })));
    assert!(matches!(number(u64::MAX as i128 + 1).write(), Err(Error::Serialization { .. })));
    assert!(matches!(number(i64::MIN as i128 - 1).write(), Err(Error::Serialization { .. })));
    let nested = Json::List(vec![number(1), Json::List(vec![Json::Number(None)])]);
    assert!(matches!(nested.write(), Err(Error::Serialization { .. })));
    let nested = object(vec![("a", number(1)), ("b", Json::Number(None))]);
    assert!(matches!(nested.write(), Err(Error::Serialization { .. })));
}

#[test]
fn lists_and_objects_are_written() {
    assert_eq!(Json::List(vec![]).write(), Ok("[]".to_string()));
    assert_eq!(object(vec![]).write(), Ok("{}".to_string()));
    assert_eq!(
        Json::List(vec![number(1), text("two"), Json::Null, Json::List(vec![Json::Bool(true)])]).write(),
        Ok("[1,\"two\",null,[true]]".to_string())
    );
    assert_eq!(object(vec![("a", number(1))]).write(), Ok("{\"a\":1}".to_string()));
    assert_eq!(
        object(vec![("b", object(vec![("c", Json::List(vec![number(2)]))])), ("a", text("x"))]).write(),
        Ok("{\"a\":\"x\",\"b\":{\"c\":[2]}}".to_string())
    );
}

#[test]
fn of_two_members_with_one_name_the_last_is_written() {
    assert_eq!(
        object(vec![("a", number(1)), ("a", number(2))]).write(),
        Ok("{\"a\":2}".to_string())
    );
}

#[test]
fn documents_are_read() {
    assert_eq!(Json::read("null"), Ok(Json::Null));
    assert_eq!(Json::read(" true "), Ok(Json::Bool(true)));
    assert_eq!(Json::read("-12"), Ok(number(-12)));
    assert_eq!(Json::read("18446744073709551615"), Ok(number(u64::MAX as i128)));
    assert_eq!(Json::read("1.5"), Ok(Json::Number(None)));
    assert_eq!(Json::read("1e2"), Ok(Json::Number(None)));
    assert_eq!(Json::read("\"a\\u00e9\\n\""), Ok(text("aé\n")));
    assert_eq!(Json::read("[]"), Ok(Json::List(vec![])));
    assert_eq!(Json::read("{}"), Ok(object(vec![])));
    assert_eq!(
        Json::read("[1, [2, {\"k\": [null]}], \"s\"]"),
        Ok(Json::List(vec![
            number(1),
            Json::List(vec![number(2), object(vec![("k", Json::List(vec![Json::Null]))])]),
            text("s"),
        ]))
    );
    assert_eq!(
        Json::read("{\"b\": 1, \"a\": {\"z\": false}}"),
        Ok(object(vec![("a", object(vec![("z", Json::Bool(false))])), ("b", number(1))]))
    );
}

#[test]
fn text_that_is_no_json_is_refused() {
    for bad in ["", "{", "[1,]", "{\"a\"}", "nul", "'a'", "1 2", "{\"a\":1}}"] {
        assert!(matches!(Json::read(bad), Err(Error::Serialization { .. })), "{}", bad);
    }
}

#[test]
fn what_is_written_is_read_back() {
    let document = object(vec![
        ("a", Json::List(vec![number(1), number(255), text("ü")])),
        ("b", object(vec![("c", Json::Null), ("d", Json::Bool(false))])),
        ("e", number(-5)),
    ]);
    let written = document.write().unwrap();
    assert_eq!(Json::read(&written), Ok(document));
}

#[test]
fn nesting_is_limited() {
    let deep = format!("{}{}", "[".repeat(100), "]".repeat(100));
    assert!(Json::read(&deep).is_ok());
    let too_deep = format!("{}{}", "[".repeat(200), "]".repeat(200));
    assert!(matches!(Json::read(&too_deep), Err(Error::Serialization { .. })));
    assert_eq!(Json::read_within("[[1]]", 2), Ok(Json::List(vec![Json::List(vec![number(1)])])));
    assert!(matches!(Json::read_within("[[1]]", 1), Err(Error::Serialization { .. })));
    assert!(matches!(Json::read_within("[]", 0), Err(Error::Serialization { .. })));
    assert_eq!(Json::read_within("7", 0), Ok(number(7)));
}

#[test]
fn members_are_looked_up() {
    let document = object(vec![
        ("name", text("n")),
        ("count", number(300)),
        ("bytes", Json::List(vec![number(0), number(255)])),
        ("bad", Json::List(vec![number(256)])),
        ("mixed", Json::List(vec![number(1), text("2")])),
    ]);
    assert_eq!(document.member("name"), Some(&text("n")));
    assert_eq!(document.member("none"), None);
    assert_eq!(Json::Null.member("name"), None);
    assert_eq!(document.text_member("name"), Some("n".to_string()));
    assert_eq!(document.text_member("count"), None);
    assert_eq!(document.integer_member("count", 0, 300), Some(300));
    assert_eq!(document.integer_member("count", 0, 299), None);
    assert_eq!(document.integer_member("count", 301, 400), None);
    assert_eq!(document.integer_member("name", 0, 300), None);
    assert_eq!(document.bytes_member("bytes"), Some(vec![0, 255]));
    assert_eq!(document.bytes_member("bad"), None);
    assert_eq!(document.bytes_member("mixed"), None);
    assert_eq!(document.bytes_member("name"), None);
    assert_eq!(Json::List(vec![number(-1)]).as_bytes(), None);
    assert_eq!(Json::List(vec![Json::Number(None)]).as_bytes(), None);
    assert_eq!(Json::List(vec![]).as_bytes(), Some(vec![]));
    assert_eq!(Json::from_bytes(&vec![1, 2]), Json::List(vec![number(1), number(2)]));
    assert_eq!(Json::from_text(&"t".to_string()), text("t"));
}
