use tkach::json::Json;
use tkach::text::{
    decimal_text, equal_ignoring_case, find_char, is_blank, join, parse_u64, text_at_most, trim,
    trim_end_char,
};

#[test]
fn text_primitives() {
    assert!(is_blank(" \t\u{3000}\n"));
    assert!(is_blank(""));
    assert!(!is_blank(" x "));
    assert_eq!(trim("\u{2003} a b \r\n"), "a b");
    assert_eq!(trim("   "), "");
    assert_eq!(trim_end_char("a//", '/'), "a");
    assert_eq!(trim_end_char("//", '/'), "");
    assert_eq!(find_char("aбв|г|", '|'), Some(3));
    assert_eq!(find_char("abc", '|'), None);
    assert_eq!(decimal_text(0), "0");
    assert_eq!(decimal_text(u128::MAX), u128::MAX.to_string());
    assert_eq!(parse_u64("18446744073709551615"), Some(u64::MAX));
    assert_eq!(parse_u64("18446744073709551616"), None);
    assert_eq!(parse_u64("007"), Some(7));
    assert_eq!(parse_u64("1 "), None);
    assert_eq!(join(&vec!["a".into(), String::new(), "b".into()], ", "), "a, , b");
    assert_eq!(join(&vec![], ", "), "");
    assert!(text_at_most("ab", "abc"));
    assert!(!text_at_most("b", "abc"));
    assert!(text_at_most("x", "x"));
    assert!(equal_ignoring_case("HiGh", "high"));
    assert!(!equal_ignoring_case("É", "é"));
}

#[test]
fn json_reads_and_writes_what_serde_json_does() {
    let text = "{\"a\":[1,-2,2.5,true,null,\"x\\n\"],\"b\":{\"c\":18446744073709551615}}";
    let value = Json::parse(text).unwrap();
    assert_eq!(value.to_text(), text);
    assert_eq!(value.to_value(), serde_json::from_str::<serde_json::Value>(text).unwrap());
    let items = value.get("a").unwrap().as_array().unwrap();
    assert_eq!(items[0].as_u64(), Some(1));
    assert_eq!(items[1].as_u64(), None);
    assert_eq!(items[2].as_u64(), None);
    assert_eq!(items[5].as_str(), Some("x\n"));
    assert_eq!(value.get("b").unwrap().get("c").unwrap().as_u64(), Some(u64::MAX));
    assert!(value.get("missing").is_none());
    assert!(items[0].get("a").is_none());
    assert_eq!(value.clone().to_text(), text);
}

#[test]
fn json_errors_are_serde_json_errors() {
    let ours = Json::parse("{\"a\":").unwrap_err();
    let theirs = serde_json::from_str::<serde_json::Value>("{\"a\":").unwrap_err();
    assert_eq!(ours, theirs.to_string());
}

#[test]
fn the_later_of_two_equal_fields_counts() {
    let value = Json::Object(vec![
        ("k".into(), Json::unsigned(1)),
        ("other".into(), Json::Null),
        ("k".into(), Json::unsigned(2)),
    ]);
    assert_eq!(value.get("k").unwrap().as_u64(), Some(2));
    assert_eq!(value.to_text(), "{\"k\":2,\"other\":null}");
}
