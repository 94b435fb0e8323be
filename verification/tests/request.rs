use httptool::request::Request;

fn row(name: &str, value: &str) -> (String, String) {
    (name.to_string(), value.to_string())
}

#[test]
fn empty_header_name_is_dropped() {
    let request = Request::new(
        "GET".to_string(),
        "http://example.com/".to_string(),
        vec![row("", "x"), row("A", "b")],
        vec![],
    );
    assert_eq!(request.header, vec![row("A", "b")]);
}

#[test]
fn only_the_trailing_empty_row_is_dropped() {
    let request = Request::new(
        "POST".to_string(),
        "http://example.com/".to_string(),
        vec![row("accept", "*/*"), row("x-id", "7"), row("", "")],
        b"hello".to_vec(),
    );
    assert_eq!(request.method, "POST");
    assert_eq!(request.uri, "http://example.com/");
    assert_eq!(request.header, vec![row("accept", "*/*"), row("x-id", "7")]);
    assert_eq!(request.body, b"hello".to_vec());
}

#[test]
fn later_row_replaces_earlier_row_of_same_name() {
    let request = Request::new(
        "GET".to_string(),
        "http://example.com/".to_string(),
        vec![row("a", "1"), row("b", "2"), row("a", "3")],
        vec![],
    );
    assert_eq!(request.header, vec![row("a", "3"), row("b", "2")]);
    assert_eq!(request.header_value("a"), Some(&"3".to_string()));
    assert_eq!(request.header_value("b"), Some(&"2".to_string()));
    assert_eq!(request.header_value("c"), None);
}

#[test]
fn header_names_are_case_sensitive() {
    let request = Request::new(
        "GET".to_string(),
        "http://example.com/".to_string(),
        vec![row("Accept", "1"), row("accept", "2")],
        vec![],
    );
    assert_eq!(request.header.len(), 2);
}

#[test]
fn no_rows_give_no_headers() {
    let request = Request::new("GET".to_string(), "x".to_string(), vec![], vec![]);
    assert!(request.header.is_empty());
    let request = Request::new("GET".to_string(), "x".to_string(), vec![row("", "")], vec![]);
    assert!(request.header.is_empty());
}
