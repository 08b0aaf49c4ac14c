use payload_mask::{
    mask_all, mask_selected, parse_json, Json, StringHashSet, MASK_PLACEHOLDER, MAX_DEPTH,
};
use serde_json::Number;

fn text(s: &str) -> Json {
    Json::Text(s.to_string())
}

fn masked() -> Json {
    Json::Text(MASK_PLACEHOLDER.to_string())
}

fn object(members: Vec<(&str, Json)>) -> Json {
    Json::Object(members.into_iter().map(|(k, v)| (k.to_string(), v)).collect())
}

#[test]
fn depth_bound_is_eight() {
    assert_eq!(MAX_DEPTH, 8);
}

#[test]
fn well_formed_means_distinct_keys_everywhere() {
    assert!(Json::Null.is_well_formed());
    assert!(text("a").is_well_formed());
    assert!(Json::Array(vec![]).is_well_formed());
    assert!(Json::Object(vec![]).is_well_formed());
    assert!(object(vec![("a", Json::Null), ("b", Json::Null), ("A", Json::Null)]).is_well_formed());
    assert!(!object(vec![("a", Json::Null), ("b", Json::Null), ("a", Json::Null)]).is_well_formed());
    assert!(!object(vec![("a", Json::Null), ("a", Json::Null)]).is_well_formed());
    // The same key in two different objects is no clash.
    assert!(object(vec![("a", object(vec![("a", Json::Null)]))]).is_well_formed());
    assert!(Json::Array(vec![object(vec![("a", Json::Null)]), object(vec![("a", Json::Null)])])
        .is_well_formed());
    // A clash deep inside is found.
    let bad = object(vec![("x", Json::Bool(true)), ("x", Json::Bool(false))]);
    assert!(!Json::Array(vec![Json::Null, Json::Array(vec![bad.clone()])]).is_well_formed());
    assert!(!object(vec![("ok", Json::Null), ("inner", bad)]).is_well_formed());
}

#[test]
fn parsed_documents_are_well_formed() {
    let doc = parse_json(r#"{"a":1,"b":{"a":2,"a":3},"c":[{"k":1,"k":2}]}"#).unwrap();
    assert!(doc.is_well_formed());
    assert_eq!(
        doc,
        object(vec![
            ("a", Json::Number(Number::from(1u64))),
            ("b", object(vec![("a", Json::Number(Number::from(3u64)))])),
            ("c", Json::Array(vec![object(vec![("k", Json::Number(Number::from(2u64)))])])),
        ])
    );
}

#[test]
fn masking_keeps_documents_well_formed() {
    let doc = object(vec![
        ("a", text("x")),
        ("b", object(vec![("a", text("y")), ("c", Json::Array(vec![text("z")]))])),
    ]);
    assert!(doc.is_well_formed());
    assert!(mask_all(&doc, 0).is_well_formed());
    let mut keys = StringHashSet::new();
    keys.insert("a".to_string());
    assert!(mask_selected(&doc, &keys).is_well_formed());
}

#[test]
fn clone_gives_an_equal_document() {
    let doc = object(vec![
        ("a", text("x")),
        ("n", Json::Number(Number::from(-12i64))),
        ("b", Json::Array(vec![Json::Null, Json::Bool(true), object(vec![("k", text("v"))])])),
    ]);
    let copy = doc.clone();
    assert_eq!(copy, doc);
    assert_ne!(copy, mask_all(&doc, 0));
}

#[test]
fn mask_all_keeps_the_shape_of_a_document() {
    let doc = object(vec![
        ("list", Json::Array(vec![text("a"), Json::Array(vec![text("b"), Json::Null])])),
        ("inner", object(vec![("k1", text("v")), ("k2", Json::Bool(false))])),
    ]);
    match mask_all(&doc, 0) {
        Json::Object(members) => {
            assert_eq!(members.len(), 2);
            assert_eq!(members[0].0, "list");
            assert_eq!(members[1].0, "inner");
            match &members[0].1 {
                Json::Array(items) => {
                    assert_eq!(items.len(), 2);
                    assert_eq!(items[0], masked());
                    assert_eq!(items[1], Json::Array(vec![masked(), Json::Null]));
                }
                other => panic!("not an array: {:?}", other),
            }
            match &members[1].1 {
                Json::Object(inner) => {
                    let keys: Vec<&str> = inner.iter().map(|(k, _)| k.as_str()).collect();
                    assert_eq!(keys, vec!["k1", "k2"]);
                }
                other => panic!("not an object: {:?}", other),
            }
        }
        other => panic!("not an object: {:?}", other),
    }
}
