use httptool::header::{find, has_names_of, is_within, same_mapping, upsert};
use httptool::text::{bytes_eq, chars_of, copy_bytes, str_eq, to_ascii_lower};

fn entries(list: &[(&str, &str)]) -> Vec<(String, String)> {
    list.iter().map(|(n, v)| (n.to_string(), v.to_string())).collect()
}

#[test]
fn a_value_is_set_in_place_or_appended() {
    let mut list = entries(&[("a", "1"), ("b", "2")]);
    upsert(&mut list, "c".to_string(), "3".to_string());
    assert_eq!(list, entries(&[("a", "1"), ("b", "2"), ("c", "3")]));
    upsert(&mut list, "a".to_string(), "4".to_string());
    assert_eq!(list, entries(&[("a", "4"), ("b", "2"), ("c", "3")]));
    upsert(&mut list, "".to_string(), "5".to_string());
    assert_eq!(list, entries(&[("a", "4"), ("b", "2"), ("c", "3"), ("", "5")]));
}

#[test]
fn an_entry_is_found_by_its_name() {
    let list = entries(&[("a", "1"), ("b", "2")]);
    assert_eq!(find(&list, "a"), Some(0));
    assert_eq!(find(&list, "b"), Some(1));
    assert_eq!(find(&list, "B"), None);
    assert_eq!(find(&list, ""), None);
    let empty: Vec<(String, String)> = Vec::new();
    assert_eq!(find(&empty, "a"), None);
}

#[test]
fn lists_are_compared_as_mappings() {
    let a = entries(&[("a", "1"), ("b", "2")]);
    let b = entries(&[("b", "2"), ("a", "1")]);
    let c = entries(&[("a", "1")]);
    let d = entries(&[("a", "1"), ("b", "3")]);
    let none = entries(&[]);
    assert!(same_mapping(&a, &b));
    assert!(same_mapping(&a, &a));
    assert!(same_mapping(&none, &none));
    assert!(!same_mapping(&a, &c));
    assert!(!same_mapping(&c, &a));
    assert!(!same_mapping(&a, &d));
    assert!(!same_mapping(&a, &none));
    assert!(is_within(&c, &a));
    assert!(!is_within(&a, &c));
    assert!(!is_within(&d, &a));
    assert!(has_names_of(&a, &d));
    assert!(has_names_of(&a, &c));
    assert!(!has_names_of(&c, &a));
}

#[test]
fn texts_and_bytes_are_compared() {
    assert!(str_eq("", ""));
    assert!(str_eq("héllo", "héllo"));
    assert!(!str_eq("hello", "hellO"));
    assert!(!str_eq("hello", "hell"));
    assert!(bytes_eq(&[1, 2, 3], &[1, 2, 3]));
    assert!(bytes_eq(&[], &[]));
    assert!(!bytes_eq(&[1, 2, 3], &[1, 2]));
    assert!(!bytes_eq(&[1, 2, 3], &[1, 2, 4]));
    assert_eq!(chars_of("aé𠀀"), vec!['a', 'é', '𠀀']);
    assert_eq!(chars_of(""), Vec::<char>::new());
    assert_eq!(copy_bytes(&vec![9, 8, 7]), vec![9, 8, 7]);
}

#[test]
fn only_ascii_capitals_are_lowered() {
    assert_eq!(to_ascii_lower('A'), 'a');
    assert_eq!(to_ascii_lower('Z'), 'z');
    assert_eq!(to_ascii_lower('a'), 'a');
    assert_eq!(to_ascii_lower('@'), '@');
    assert_eq!(to_ascii_lower('['), '[');
    assert_eq!(to_ascii_lower('0'), '0');
    assert_eq!(to_ascii_lower('É'), 'É');
    assert_eq!(to_ascii_lower('\u{212a}'), '\u{212a}');
}
