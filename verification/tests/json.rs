use embedded_support::json::{Fields, Items, Json};
use embedded_support::json_text::{parse_json, print_json};

#[test]
fn text_is_parsed() {
    let doc = parse_json(r#"{"a": [null, true, 3, -1, 2.5, "x\n"], "b": {}}"#).unwrap();
    let expected = Fields::new()
        .with(
            "a",
            Items::new()
                .with(Json::Null)
                .with(Json::Bool(true))
                .with(Json::Number(Some(3)))
                .with(Json::Number(None))
                .with(Json::Number(None))
                .with_text("x\n")
                .array(),
        )
        .with("b", Fields::new().object())
        .object();
    assert_eq!(doc, expected);
}

#[test]
fn fields_keep_their_order() {
    let doc = parse_json(r#"{"z": 1, "a": 2, "m": 3}"#).unwrap();
    let expected = Json::Object(vec![
        ("z".to_string(), Json::Number(Some(1))),
        ("a".to_string(), Json::Number(Some(2))),
        ("m".to_string(), Json::Number(Some(3))),
    ]);
    assert_eq!(doc, expected);
}

#[test]
fn other_text_is_refused() {
    for text in ["", "{", "[1,]", "// note\n[]", "nul", "[] []"] {
        assert!(parse_json(text).is_none(), "{text}");
    }
}

#[test]
fn unsigned_numbers_to_the_limit() {
    assert_eq!(parse_json("18446744073709551615"), Some(Json::Number(Some(u64::MAX))));
    assert_eq!(parse_json("18446744073709551616"), Some(Json::Number(None)));
    assert_eq!(parse_json("4000.0"), Some(Json::Number(None)));
    assert_eq!(parse_json("0"), Some(Json::Number(Some(0))));
}

#[test]
fn documents_are_printed_with_indentation() {
    let doc = Items::new()
        .with(Fields::new().with_text("label", "a \"b\"").with("n", Json::Number(Some(7))).object())
        .array();
    let expected = "[\n  {\n    \"label\": \"a \\\"b\\\"\",\n    \"n\": 7\n  }\n]";
    assert_eq!(print_json(&doc), expected);
}

#[test]
fn what_is_printed_is_read_back() {
    let doc = Fields::new()
        .with("list", Items::new().with_text("\u{0}\u{7f}嵌\\/").with(Json::Bool(false)).array())
        .with("n", Json::Number(Some(u64::MAX)))
        .with("none", Json::Null)
        .with("empty", Items::new().array())
        .object();
    let text = print_json(&doc);
    assert_eq!(parse_json(&text), Some(doc));
}

#[test]
fn values_are_reached_by_name() {
    let doc = parse_json(r#"{"s": "t", "b": false, "n": 5, "l": [1]}"#).unwrap();
    assert_eq!(doc.get_str("s"), Some("t"));
    assert_eq!(doc.get_str("b"), None);
    assert_eq!(doc.get("b").unwrap().as_bool(), Some(false));
    assert_eq!(doc.get("n").unwrap().as_u64(), Some(5));
    assert_eq!(doc.get("s").unwrap().as_u64(), None);
    assert_eq!(doc.get("l").unwrap().as_array().unwrap().len(), 1);
    assert!(doc.get("x").is_none());
    assert!(doc.get("l").unwrap().get("s").is_none());
    assert!(doc.as_array().is_none());
}
