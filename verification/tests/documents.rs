use panther::json::{parse, Json};

#[test]
fn a_text_that_is_no_json_has_no_document() {
    assert_eq!(parse(b"{"), None);
    assert_eq!(parse(b""), None);
    assert_eq!(parse(b"[1, 2,]"), None);
    assert_eq!(parse(b"nul"), None);
}

#[test]
fn text_after_the_document_is_refused() {
    assert_eq!(parse(b"[] []"), None);
    assert_eq!(parse(b"{} x"), None);
    assert_eq!(parse(b" [] \n"), Some(Json::Array(vec![])));
}

#[test]
fn an_array_of_scalars_is_read_in_order() {
    let doc = parse(b"[null, true, false, 7, -3, \"x\"]");
    assert_eq!(
        doc,
        Some(Json::Array(vec![
            Json::Null,
            Json::Bool(true),
            Json::Bool(false),
            Json::Number(Some(7)),
            Json::Number(Some(-3)),
            Json::Text("x".to_string()),
        ]))
    );
}

#[test]
fn a_number_keeps_its_value_only_as_an_integer_of_64_bits() {
    assert_eq!(parse(b"9223372036854775807"), Some(Json::Number(Some(i64::MAX))));
    assert_eq!(parse(b"-9223372036854775808"), Some(Json::Number(Some(i64::MIN))));
    assert_eq!(parse(b"9223372036854775808"), Some(Json::Number(None)));
    assert_eq!(parse(b"1.5"), Some(Json::Number(None)));
    assert_eq!(parse(b"1.0"), Some(Json::Number(None)));
    assert_eq!(parse(b"1e2"), Some(Json::Number(None)));
}

#[test]
fn a_text_is_read_with_its_escapes_resolved() {
    assert_eq!(parse(b"\"a\\nb\\u00e9\""), Some(Json::Text("a\nb\u{e9}".to_string())));
}

#[test]
fn an_object_holds_its_members_and_nests() {
    let doc = parse(b"{\"a\": [1, {\"b\": null}]}");
    assert_eq!(
        doc,
        Some(Json::Object(vec![(
            "a".to_string(),
            Json::Array(vec![
                Json::Number(Some(1)),
                Json::Object(vec![("b".to_string(), Json::Null)]),
            ]),
        )]))
    );
}

#[test]
fn a_repeated_key_in_a_text_keeps_its_last_value() {
    let doc = parse(b"{\"k\": 1, \"k\": 2}").unwrap();
    assert_eq!(doc.member("k"), Some(&Json::Number(Some(2))));
    assert_eq!(doc, Json::Object(vec![("k".to_string(), Json::Number(Some(2)))]));
}

#[test]
fn member_finds_the_last_member_with_the_key() {
    let doc = Json::Object(vec![
        ("k".to_string(), Json::Number(Some(1))),
        ("other".to_string(), Json::Null),
        ("k".to_string(), Json::Number(Some(2))),
    ]);
    assert_eq!(doc.member("k"), Some(&Json::Number(Some(2))));
    assert_eq!(doc.member("other"), Some(&Json::Null));
    assert_eq!(doc.member("K"), None);
    assert_eq!(doc.member(""), None);
}

#[test]
fn member_of_what_is_no_object_is_none() {
    assert_eq!(Json::Null.member("k"), None);
    assert_eq!(Json::Array(vec![Json::Text("k".to_string())]).member("k"), None);
    assert_eq!(Json::Text("k".to_string()).member("k"), None);
    assert_eq!(Json::Object(vec![]).member("k"), None);
}

#[test]
fn arrays_nest_as_deep_as_the_reader_allows() {
    let nested = |depth: usize| format!("{}{}", "[".repeat(depth), "]".repeat(depth));
    let mut expected = Json::Array(vec![]);
    for _ in 1..100 {
        expected = Json::Array(vec![expected]);
    }
    assert_eq!(parse(nested(100).as_bytes()), Some(expected));
    assert_eq!(parse(nested(1000).as_bytes()), None);
}

#[test]
fn the_members_of_an_object_are_all_kept() {
    let doc = parse(b"{\"b\": 1, \"a\": 2, \"c\": {\"d\": [true]}}").unwrap();
    assert_eq!(doc.member("a"), Some(&Json::Number(Some(2))));
    assert_eq!(doc.member("b"), Some(&Json::Number(Some(1))));
    assert_eq!(
        doc.member("c"),
        Some(&Json::Object(vec![("d".to_string(), Json::Array(vec![Json::Bool(true)]))]))
    );
    assert_eq!(doc.member("d"), None);
    match doc {
        Json::Object(members) => assert_eq!(members.len(), 3),
        _ => panic!("an object was read"),
    }
}
