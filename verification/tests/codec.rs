use structural_schema::decode::decode_schema_object;
use structural_schema::error::Error;
use structural_schema::model::{merge_metadata, only_item};
use structural_schema::transform_optional_enum_with_null::remove_optional_enum_null_variant;
use structural_schema::encode::encode_schema_object;
use structural_schema::json::{json_eq, Json};
use structural_schema::model::{InstanceType, SchemaObject, TypeList};
use structural_schema::rewriter::StructuralSchemaRewriter;

fn obj(entries: Vec<(&str, Json)>) -> Json {
    Json::Obj(entries.into_iter().map(|(k, v)| (k.to_string(), v)).collect())
}

fn sv(x: &str) -> Json {
    Json::Str(x.to_string())
}

fn decode_obj(j: Json) -> SchemaObject {
    match j {
        Json::Obj(entries) => decode_schema_object(&entries).expect("valid schema object"),
        _ => panic!("not an object"),
    }
}

#[test]
fn single_and_list_types_round_trip_distinctly() {
    let single = obj(vec![("type", sv("string"))]);
    let list = obj(vec![("type", Json::Arr(vec![sv("string")]))]);
    let m_single = decode_obj(structural_schema::json::json_clone(&single));
    let m_list = decode_obj(structural_schema::json::json_clone(&list));
    assert_eq!(
        m_single.instance_type,
        Some(TypeList::Single(InstanceType::String))
    );
    assert_eq!(
        m_list.instance_type,
        Some(TypeList::Many(vec![InstanceType::String]))
    );
    assert!(json_eq(&encode_schema_object(&m_single), &single));
    assert!(json_eq(&encode_schema_object(&m_list), &list));
}

#[test]
fn numeric_bounds_round_trip() {
    let input = obj(vec![
        ("maxItems", Json::Num("12".to_string())),
        ("minItems", Json::Num("0".to_string())),
        ("type", sv("array")),
    ]);
    let m = decode_obj(structural_schema::json::json_clone(&input));
    let array = m.array.as_ref().expect("array keywords");
    assert_eq!(array.max_items, Some(12));
    assert_eq!(array.min_items, Some(0));
    assert!(json_eq(&encode_schema_object(&m), &input));
}

#[test]
fn bad_numeric_bound_makes_node_undecodable() {
    let bad = obj(vec![("maxItems", sv("12"))]);
    match bad {
        Json::Obj(entries) => assert!(decode_schema_object(&entries).is_none()),
        _ => unreachable!(),
    }
    let overflow = obj(vec![("maxItems", Json::Num("4294967296".to_string()))]);
    match overflow {
        Json::Obj(entries) => assert!(decode_schema_object(&entries).is_none()),
        _ => unreachable!(),
    }
}

#[test]
fn required_names_are_sorted_and_deduplicated() {
    let input = obj(vec![(
        "required",
        Json::Arr(vec![sv("b"), sv("a"), sv("b")]),
    )]);
    let m = decode_obj(input);
    let object = m.object.as_ref().expect("object keywords");
    assert_eq!(object.required, vec!["a".to_string(), "b".to_string()]);
}

#[test]
fn unknown_keywords_are_preserved_verbatim() {
    let input = obj(vec![
        ("title", sv("Widget")),
        ("type", sv("object")),
        ("x-kubernetes-int-or-string", Json::Bool(true)),
    ]);
    let mut doc = structural_schema::json::json_clone(&input);
    StructuralSchemaRewriter.transform(&mut doc).expect("no violation");
    assert_eq!(doc, input);
}

#[test]
fn nullable_enum_keeps_sole_null_value() {
    let input = obj(vec![
        ("enum", Json::Arr(vec![Json::Null])),
        ("nullable", Json::Bool(true)),
    ]);
    let mut m = decode_obj(structural_schema::json::json_clone(&input));
    remove_optional_enum_null_variant(&mut m);
    assert_eq!(m, decode_obj(input));
}

#[test]
fn only_item_distinguishes_list_lengths() {
    let none: Vec<u32> = vec![];
    let one = vec![7u32];
    let two = vec![7u32, 8u32];
    assert!(only_item(&none).is_none());
    assert_eq!(only_item(&one), Some(&7u32));
    assert!(only_item(&two).is_none());
}

#[test]
fn merge_metadata_keeps_and_checks_types() {
    let mut established: Option<TypeList> = None;
    merge_metadata(&mut established, Some(TypeList::Single(InstanceType::String)))
        .expect("first type is adopted");
    assert_eq!(established, Some(TypeList::Single(InstanceType::String)));
    merge_metadata(&mut established, None).expect("absent variant type says nothing");
    assert_eq!(established, Some(TypeList::Single(InstanceType::String)));
    merge_metadata(&mut established, Some(TypeList::Single(InstanceType::String)))
        .expect("matching type is kept");
    let err = merge_metadata(&mut established, Some(TypeList::Single(InstanceType::Integer)))
        .expect_err("conflicting type");
    assert!(matches!(err, Error::TypeMismatch { .. }));
}
