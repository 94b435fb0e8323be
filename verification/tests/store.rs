use httptool::error::Error;
use httptool::json::Json;
use httptool::log::{save_log_as, star, LogContent, LogIndexItem};
use httptool::request::Request;
use httptool::response::Response;
use httptool::store::{decode_item, encode_index, encode_item, get_log, load_index, save_items, star_items};

const ID: u128 = 0x0192_f0c4_7a3b_7def_8123_4567_89ab_cdef;
const ID_TEXT: &str = "0192f0c4-7a3b-7def-8123-456789abcdef";

fn item(id: u128, star: bool) -> LogIndexItem {
    LogIndexItem {
        id,
        method: "GET".to_string(),
        uri: "http://a/".to_string(),
        done_date: 1_700_000_000,
        star,
    }
}

fn content() -> LogContent {
    LogContent {
        request: Request::new(
            "PUT".to_string(),
            "http://a/x".to_string(),
            vec![("h".to_string(), "v".to_string())],
            vec![1],
        ),
        response: Response::new(5, 204, vec![("r".to_string(), vec![2])], vec![], 12),
    }
}

#[test]
fn an_entry_is_written_with_the_text_of_its_identifier() {
    assert_eq!(
        encode_item(&item(ID, true)).write(),
        Ok(format!(
            "{{\"done_date\":1700000000,\"id\":\"{}\",\"method\":\"GET\",\"star\":true,\"uri\":\"http://a/\"}}",
            ID_TEXT
        ))
    );
}

#[test]
fn an_entry_is_read_back() {
    assert_eq!(decode_item(&encode_item(&item(ID, true))), Some(item(ID, true)));
    assert_eq!(decode_item(&encode_item(&item(0, false))), Some(item(0, false)));
    assert_eq!(decode_item(&encode_item(&item(u128::MAX, false))), Some(item(u128::MAX, false)));
}

#[test]
fn an_entry_without_star_is_not_pinned() {
    let json = Json::read(&format!(
        "{{\"id\":\"{}\",\"method\":\"GET\",\"uri\":\"http://a/\",\"done_date\":1700000000}}",
        ID_TEXT
    ))
    .unwrap();
    assert_eq!(decode_item(&json), Some(item(ID, false)));
}

#[test]
fn an_entry_that_is_malformed_is_not_read() {
    for text in [
        "null",
        "{}",
        "{\"id\":\"not-a-uuid\",\"method\":\"GET\",\"uri\":\"u\",\"done_date\":1}",
        "{\"id\":7,\"method\":\"GET\",\"uri\":\"u\",\"done_date\":1}",
        "{\"id\":\"0192f0c4-7a3b-7def-8123-456789abcdef\",\"uri\":\"u\",\"done_date\":1}",
        "{\"id\":\"0192f0c4-7a3b-7def-8123-456789abcdef\",\"method\":\"GET\",\"uri\":\"u\",\"done_date\":1.5}",
        "{\"id\":\"0192f0c4-7a3b-7def-8123-456789abcdef\",\"method\":\"GET\",\"uri\":\"u\",\"done_date\":1,\"star\":\"yes\"}",
    ] {
        let json = Json::read(text).unwrap();
        assert_eq!(decode_item(&json), None, "{}", text);
    }
}

#[test]
fn the_index_is_loaded_in_its_order() {
    let index = vec![item(3, true), item(ID, false), item(1, false)];
    let found = Json::Object(vec![("indexes".to_string(), encode_index(&index))]);
    assert_eq!(load_index(&found), index);
    let reread = Json::read(&found.write().unwrap()).unwrap();
    assert_eq!(load_index(&reread), index);
}

#[test]
fn an_absent_or_malformed_index_loads_as_empty() {
    assert_eq!(load_index(&Json::Object(vec![])), vec![]);
    assert_eq!(load_index(&Json::Null), vec![]);
    assert_eq!(load_index(&Json::read("{\"indexes\":null}").unwrap()), vec![]);
    assert_eq!(load_index(&Json::read("{\"indexes\":{}}").unwrap()), vec![]);
    assert_eq!(load_index(&Json::read("{\"indexes\":[]}").unwrap()), vec![]);
    assert_eq!(load_index(&Json::read("{\"other\":[]}").unwrap()), vec![]);
    let one_bad = Json::Object(vec![(
        "indexes".to_string(),
        Json::List(vec![encode_item(&item(1, false)), Json::Null]),
    )]);
    assert_eq!(load_index(&one_bad), vec![]);
}

#[test]
fn a_save_stores_index_and_content() {
    let mut index = vec![item(9, true)];
    let stored = content();
    let logged = save_log_as(&mut index, ID, stored.request.clone(), stored.response.clone());
    let items = save_items(&index, &logged);
    match &items {
        Json::Object(members) => {
            assert_eq!(members.len(), 2);
            assert_eq!(members[0].0, "indexes");
            assert_eq!(members[0].1, encode_index(&index));
            assert_eq!(members[1].0, ID_TEXT);
        }
        other => panic!("not an object: {:?}", other),
    }
    assert_eq!(load_index(&items).iter().map(|i| i.id).collect::<Vec<_>>(), vec![9, ID]);
    assert_eq!(get_log(&items, ID), Ok(stored));
}

#[test]
fn content_is_looked_up_by_identifier() {
    let mut index = Vec::new();
    let stored = content();
    let logged = save_log_as(&mut index, ID, stored.request.clone(), stored.response.clone());
    let found = Json::read(&save_items(&index, &logged).write().unwrap()).unwrap();
    assert_eq!(get_log(&found, ID), Ok(stored));
    assert_eq!(get_log(&found, ID + 1), Err(Error::NotFound));
    assert_eq!(get_log(&Json::Object(vec![]), ID), Err(Error::NotFound));
    assert_eq!(get_log(&Json::Null, ID), Err(Error::NotFound));
}

#[test]
fn content_that_is_malformed_is_a_serialization_error() {
    for stored in ["null", "{}", "{\"request\":{},\"response\":{}}", "{\"request\":null}"] {
        let found = Json::read(&format!("{{\"{}\":{}}}", ID_TEXT, stored)).unwrap();
        assert!(matches!(get_log(&found, ID), Err(Error::Serialization { .. })), "{}", stored);
    }
}

#[test]
fn a_toggled_pin_stores_the_index_only() {
    let mut index = vec![item(1, false), item(2, false)];
    assert_eq!(star(&mut index, 2), Ok(()));
    let items = star_items(&index);
    assert_eq!(items, Json::Object(vec![("indexes".to_string(), encode_index(&index))]));
    assert_eq!(load_index(&items), vec![item(2, true), item(1, false)]);
}

#[test]
fn the_key_of_a_content_is_the_text_of_its_identifier() {
    assert_eq!(httptool::store::content_key(ID), ID_TEXT);
    assert_eq!(httptool::store::content_key(0), "00000000-0000-0000-0000-000000000000");
    assert_eq!(httptool::store::content_key(u128::MAX), "ffffffff-ffff-ffff-ffff-ffffffffffff");
}
