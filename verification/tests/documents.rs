use image_search::json::{array, element, member, parse, size, text, unsigned};
use image_search::Json;

fn number(n: i128) -> Json {
    Json::Number(Some(n))
}

fn words(s: &str) -> Json {
    Json::Text(s.to_string())
}

#[test]
fn element_reads_arrays_only() {
    let list = Json::Array(vec![number(1), words("two")]);
    assert!(matches!(element(Some(&list), 0), Some(Json::Number(Some(1)))));
    assert!(matches!(element(Some(&list), 1), Some(Json::Text(_))));
    assert!(element(Some(&list), 2).is_none());
    assert!(element(Some(&list), usize::MAX).is_none());
    assert!(element(Some(&words("x")), 0).is_none());
    assert!(element(Some(&Json::Object(Vec::new())), 0).is_none());
    assert!(element(None, 0).is_none());
}

#[test]
fn member_reads_objects_only() {
    let object = Json::Object(vec![
        ("a".to_string(), number(1)),
        ("2003".to_string(), number(2)),
        ("2003".to_string(), number(3)),
    ]);
    assert!(matches!(member(Some(&object), "a"), Some(Json::Number(Some(1)))));
    assert!(matches!(member(Some(&object), "2003"), Some(Json::Number(Some(2)))));
    assert!(member(Some(&object), "b").is_none());
    assert!(member(Some(&object), "").is_none());
    assert!(member(Some(&Json::Array(vec![number(1)])), "a").is_none());
    assert!(member(None, "a").is_none());
}

#[test]
fn text_reads_texts_only() {
    assert_eq!(text(Some(&words("hello"))), Some(&"hello".to_string()));
    assert_eq!(text(Some(&words(""))), Some(&String::new()));
    assert_eq!(text(Some(&number(1))), None);
    assert_eq!(text(Some(&Json::Null)), None);
    assert_eq!(text(None), None);
}

#[test]
fn size_reads_integers_from_zero_to_the_greatest_i64() {
    assert_eq!(size(Some(&number(0))), Some(0));
    assert_eq!(size(Some(&number(1920))), Some(1920));
    assert_eq!(size(Some(&number(i64::MAX as i128))), Some(i64::MAX));
    assert_eq!(size(Some(&number(i64::MAX as i128 + 1))), None);
    assert_eq!(size(Some(&number(-1))), None);
    assert_eq!(size(Some(&Json::Number(None))), None);
    assert_eq!(size(Some(&words("12"))), None);
    assert_eq!(size(None), None);
}

#[test]
fn unsigned_holds_of_integers_from_zero_to_the_greatest_u64() {
    assert!(unsigned(Some(&number(0))));
    assert!(unsigned(Some(&number(u64::MAX as i128))));
    assert!(!unsigned(Some(&number(u64::MAX as i128 + 1))));
    assert!(!unsigned(Some(&number(-1))));
    assert!(!unsigned(Some(&Json::Number(None))));
    assert!(!unsigned(Some(&Json::Bool(true))));
    assert!(!unsigned(None));
}

#[test]
fn array_holds_of_arrays_only() {
    assert!(array(Some(&Json::Array(Vec::new()))));
    assert!(!array(Some(&Json::Object(Vec::new()))));
    assert!(!array(Some(&Json::Null)));
    assert!(!array(None));
}

#[test]
fn parse_reads_every_kind_of_value() {
    let doc = parse(br#"{"n": null, "b": true, "i": -7, "u": 18446744073709551615, "f": 1.5, "s": "x", "a": [1, [2]], "o": {"k": "v"}}"#);
    let doc = doc.as_ref();
    assert!(matches!(member(doc, "n"), Some(Json::Null)));
    assert!(matches!(member(doc, "b"), Some(Json::Bool(true))));
    assert!(matches!(member(doc, "i"), Some(Json::Number(Some(-7)))));
    assert!(matches!(
        member(doc, "u"),
        Some(Json::Number(Some(18446744073709551615)))
    ));
    assert!(matches!(member(doc, "f"), Some(Json::Number(None))));
    assert_eq!(text(member(doc, "s")), Some(&"x".to_string()));
    assert!(matches!(
        element(element(member(doc, "a"), 1), 0),
        Some(Json::Number(Some(2)))
    ));
    assert_eq!(text(member(member(doc, "o"), "k")), Some(&"v".to_string()));
}

#[test]
fn parse_refuses_what_is_not_json() {
    assert!(parse(b"").is_none());
    assert!(parse(b"{").is_none());
    assert!(parse(b"{]").is_none());
    assert!(parse(b"{\"a\": 1,}").is_none());
    assert!(parse(b"{\"a\": 1} trailing").is_none());
    assert!(parse(&[b'"', 0xff, b'"']).is_none());
}

#[test]
fn parse_reads_values_that_are_no_objects() {
    assert!(matches!(parse(b"null"), Some(Json::Null)));
    assert!(matches!(parse(b" 12 "), Some(Json::Number(Some(12)))));
    assert!(matches!(parse(b"[]"), Some(Json::Array(_))));
}

#[test]
fn parse_keeps_one_member_for_a_key_given_twice() {
    let doc = parse(br#"{"k": 1, "k": 2}"#);
    match doc {
        Some(Json::Object(members)) => {
            assert_eq!(members.len(), 1);
            assert!(matches!(members[0].1, Json::Number(Some(2))));
        }
        _ => panic!("an object was expected"),
    }
}
