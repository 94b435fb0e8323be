use httptool::log::{save_log_as, star, LogIndexItem};
use httptool::request::Request;
use httptool::response::Response;

fn request(uri: &str) -> Request {
    Request::new("GET".to_string(), uri.to_string(), vec![], vec![])
}

fn response(done_date: i64) -> Response {
    Response::new(done_date, 200, vec![], vec![], 5)
}

fn ids(index: &[LogIndexItem]) -> Vec<u128> {
    index.iter().map(|item| item.id).collect()
}

#[test]
fn three_saves_are_most_recent_first() {
    let mut index = Vec::new();
    save_log_as(&mut index, 1, request("http://a/1"), response(10));
    save_log_as(&mut index, 2, request("http://a/2"), response(20));
    save_log_as(&mut index, 3, request("http://a/3"), response(30));
    assert_eq!(ids(&index), vec![3, 2, 1]);
}

#[test]
fn starring_moves_to_front_and_unstarring_to_end() {
    let mut index = Vec::new();
    save_log_as(&mut index, 1, request("http://a/1"), response(10));
    save_log_as(&mut index, 2, request("http://a/2"), response(20));
    save_log_as(&mut index, 3, request("http://a/3"), response(30));
    assert_eq!(star(&mut index, 2), Ok(()));
    assert_eq!(ids(&index), vec![2, 3, 1]);
    assert!(index[0].star);
    assert_eq!(star(&mut index, 2), Ok(()));
    assert_eq!(ids(&index), vec![3, 1, 2]);
    assert!(!index[2].star);
}

fn starred(id: u128) -> LogIndexItem {
    LogIndexItem {
        id,
        method: "GET".to_string(),
        uri: "http://a/".to_string(),
        done_date: 0,
        star: true,
    }
}

#[test]
fn a_new_entry_goes_behind_the_pinned_ones() {
    let mut index = vec![starred(7), starred(8)];
    save_log_as(&mut index, 1, request("http://a/1"), response(10));
    assert_eq!(ids(&index), vec![7, 8, 1]);
    save_log_as(&mut index, 2, request("http://a/2"), response(20));
    assert_eq!(ids(&index), vec![7, 8, 2, 1]);
    assert!(!index[2].star);
}

#[test]
fn the_saved_entry_describes_request_and_response() {
    let mut index = Vec::new();
    let req = Request::new("POST".to_string(), "http://a/p".to_string(), vec![], b"x".to_vec());
    let logged = save_log_as(&mut index, 42, req.clone(), response(1234));
    assert_eq!(
        logged.entry,
        LogIndexItem {
            id: 42,
            method: "POST".to_string(),
            uri: "http://a/p".to_string(),
            done_date: 1234,
            star: false,
        }
    );
    assert_eq!(index, vec![logged.entry.clone()]);
    assert_eq!(logged.content.request, req);
    assert_eq!(logged.content.response, response(1234));
}

#[test]
fn two_saves_on_an_empty_store_keep_both_entries() {
    let mut index = Vec::new();
    let first = httptool::log::save_log(&mut index, request("http://a/1"), response(10));
    let second = httptool::log::save_log(&mut index, request("http://a/2"), response(20));
    assert_ne!(first.entry.id, second.entry.id);
    assert_eq!(ids(&index), vec![second.entry.id, first.entry.id]);
}

#[test]
fn new_identifiers_are_version_7_and_ordered_by_time() {
    let mut index = Vec::new();
    let first = httptool::log::save_log(&mut index, request("http://a/1"), response(10));
    let second = httptool::log::save_log(&mut index, request("http://a/2"), response(20));
    assert_eq!((first.entry.id >> 76) & 0xf, 7);
    assert!(first.entry.id < second.entry.id);
}

#[test]
fn a_failed_write_takes_the_entry_back() {
    let mut index = vec![starred(7)];
    save_log_as(&mut index, 1, request("http://a/1"), response(10));
    save_log_as(&mut index, 2, request("http://a/2"), response(20));
    let error = httptool::log::save_failed(&mut index, 1, "quota exceeded".to_string());
    assert_eq!(error, httptool::error::Error::Persistence { src: "quota exceeded".to_string() });
    assert_eq!(ids(&index), vec![7, 2]);
    let error = httptool::log::save_failed(&mut index, 99, "again".to_string());
    assert_eq!(error, httptool::error::Error::Persistence { src: "again".to_string() });
    assert_eq!(ids(&index), vec![7, 2]);
}

#[test]
fn starring_an_unknown_entry_is_not_found() {
    let mut index = Vec::new();
    save_log_as(&mut index, 1, request("http://a/1"), response(10));
    assert_eq!(star(&mut index, 5), Err(httptool::error::Error::NotFound));
    assert_eq!(ids(&index), vec![1]);
    let mut empty: Vec<LogIndexItem> = Vec::new();
    assert_eq!(star(&mut empty, 1), Err(httptool::error::Error::NotFound));
}

#[test]
fn pinned_entries_stay_in_front() {
    let mut index = Vec::new();
    for id in 1..=4u128 {
        save_log_as(&mut index, id, request("http://a/"), response(0));
    }
    assert_eq!(star(&mut index, 1), Ok(()));
    assert_eq!(star(&mut index, 3), Ok(()));
    assert_eq!(ids(&index), vec![3, 1, 4, 2]);
    save_log_as(&mut index, 5, request("http://a/"), response(0));
    assert_eq!(ids(&index), vec![3, 1, 5, 4, 2]);
    assert_eq!(star(&mut index, 3), Ok(()));
    assert_eq!(ids(&index), vec![1, 5, 4, 2, 3]);
    let stars: Vec<bool> = index.iter().map(|item| item.star).collect();
    assert_eq!(stars, vec![true, false, false, false, false]);
}

#[test]
fn a_writer_that_loads_the_stored_index_first_drops_nothing() {
    let mut first_page: Vec<LogIndexItem> = Vec::new();
    let logged = save_log_as(&mut first_page, 1, request("http://a/1"), response(10));
    let stored = httptool::store::save_items(&first_page, &logged);

    let mut second_page = httptool::store::load_index(&stored);
    save_log_as(&mut second_page, 2, request("http://a/2"), response(20));
    assert_eq!(ids(&second_page), vec![2, 1]);
}
