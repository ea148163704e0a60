use structural_schema::error::Error;
use structural_schema::json::Json;
use structural_schema::rewriter::StructuralSchemaRewriter;

fn obj(entries: Vec<(&str, Json)>) -> Json {
    Json::Obj(entries.into_iter().map(|(k, v)| (k.to_string(), v)).collect())
}

fn sv(x: &str) -> Json {
    Json::Str(x.to_string())
}

fn rewrite(j: &Json) -> Json {
    let mut out = clone_json(j);
    StructuralSchemaRewriter.transform(&mut out).expect("no violation");
    out
}

fn clone_json(j: &Json) -> Json {
    structural_schema::json::json_clone(j)
}

#[test]
fn one_of_enum_union_example() {
    let input = obj(vec![(
        "oneOf",
        Json::Arr(vec![
            obj(vec![("enum", Json::Arr(vec![sv("C"), sv("D")])), ("type", sv("string"))]),
            obj(vec![
                ("description", sv("first")),
                ("enum", Json::Arr(vec![sv("A")])),
                ("type", sv("string")),
            ]),
        ]),
    )]);
    let expected = obj(vec![
        ("enum", Json::Arr(vec![sv("C"), sv("D"), sv("A")])),
        ("type", sv("string")),
    ]);
    assert_eq!(rewrite(&input), expected);
}

#[test]
fn any_of_untagged_union_example() {
    let input = obj(vec![(
        "anyOf",
        Json::Arr(vec![
            obj(vec![
                ("properties", obj(vec![("one", obj(vec![("type", sv("string"))]))])),
                ("required", Json::Arr(vec![sv("one")])),
                ("type", sv("object")),
            ]),
            obj(vec![
                ("properties", obj(vec![("two", obj(vec![("type", sv("string"))]))])),
                ("required", Json::Arr(vec![sv("two")])),
                ("type", sv("object")),
            ]),
        ]),
    )]);
    let expected = obj(vec![
        ("anyOf", Json::Arr(vec![
            obj(vec![("required", Json::Arr(vec![sv("one")]))]),
            obj(vec![("required", Json::Arr(vec![sv("two")]))]),
        ])),
        ("properties", obj(vec![
            ("one", obj(vec![("type", sv("string"))])),
            ("two", obj(vec![("type", sv("string"))])),
        ])),
        ("type", sv("object")),
    ]);
    assert_eq!(rewrite(&input), expected);
}

#[test]
fn flattened_map_example() {
    let input = obj(vec![
        ("additionalProperties", Json::Bool(true)),
        ("properties", obj(vec![("a", obj(vec![("type", sv("string"))]))])),
    ]);
    let expected = obj(vec![
        ("properties", obj(vec![("a", obj(vec![("type", sv("string"))]))])),
        ("x-kubernetes-preserve-unknown-fields", Json::Bool(true)),
    ]);
    assert_eq!(rewrite(&input), expected);
}

#[test]
fn nullable_option_enum_pair() {
    let input = obj(vec![(
        "anyOf",
        Json::Arr(vec![
            obj(vec![
                ("description", sv("a colour")),
                ("enum", Json::Arr(vec![sv("red"), sv("green")])),
                ("type", sv("string")),
            ]),
            obj(vec![("enum", Json::Arr(vec![Json::Null])), ("nullable", Json::Bool(true))]),
        ]),
    )]);
    let expected = obj(vec![
        ("description", sv("a colour")),
        ("enum", Json::Arr(vec![sv("red"), sv("green")])),
        ("nullable", Json::Bool(true)),
        ("type", sv("string")),
    ]);
    assert_eq!(rewrite(&input), expected);
}

#[test]
fn unique_items_always_removed() {
    let input = obj(vec![
        ("items", obj(vec![("type", sv("string"))])),
        ("type", sv("array")),
        ("uniqueItems", Json::Bool(true)),
    ]);
    let expected = obj(vec![
        ("items", obj(vec![("type", sv("string"))])),
        ("type", sv("array")),
    ]);
    assert_eq!(rewrite(&input), expected);
    let off = obj(vec![
        ("type", sv("array")),
        ("uniqueItems", Json::Bool(false)),
    ]);
    assert_eq!(rewrite(&off), obj(vec![("type", sv("array"))]));
}

#[test]
fn pipeline_twice_on_enum_union() {
    let input = obj(vec![(
        "oneOf",
        Json::Arr(vec![
            obj(vec![("enum", Json::Arr(vec![sv("C"), sv("D")])), ("type", sv("string"))]),
            obj(vec![
                ("description", sv("first")),
                ("enum", Json::Arr(vec![sv("A")])),
                ("type", sv("string")),
            ]),
        ]),
    )]);
    let once = rewrite(&input);
    let twice = rewrite(&once);
    assert_eq!(twice, once);
}

#[test]
fn pipeline_twice_on_untagged_union() {
    let input = obj(vec![(
        "anyOf",
        Json::Arr(vec![
            obj(vec![
                ("properties", obj(vec![("one", obj(vec![("type", sv("string"))]))])),
                ("required", Json::Arr(vec![sv("one")])),
                ("type", sv("object")),
            ]),
            obj(vec![
                ("properties", obj(vec![("two", obj(vec![("type", sv("string"))]))])),
                ("required", Json::Arr(vec![sv("two")])),
                ("type", sv("object")),
            ]),
        ]),
    )]);
    let once = rewrite(&input);
    let twice = rewrite(&once);
    assert_eq!(twice, once);
}

#[test]
fn pipeline_twice_on_flattened_map() {
    let input = obj(vec![
        ("additionalProperties", Json::Bool(true)),
        ("properties", obj(vec![("a", obj(vec![("type", sv("string"))]))])),
    ]);
    let once = rewrite(&input);
    let twice = rewrite(&once);
    assert_eq!(twice, once);
}

#[test]
fn nested_children_are_rewritten_first() {
    let inner_union = obj(vec![(
        "oneOf",
        Json::Arr(vec![
            obj(vec![("enum", Json::Arr(vec![sv("A")])), ("type", sv("string"))]),
            obj(vec![("enum", Json::Arr(vec![sv("B")])), ("type", sv("string"))]),
        ]),
    )]);
    let input = obj(vec![
        ("properties", obj(vec![("kind", inner_union)])),
        ("type", sv("object")),
    ]);
    let expected = obj(vec![
        ("properties", obj(vec![(
            "kind",
            obj(vec![("enum", Json::Arr(vec![sv("A"), sv("B")])), ("type", sv("string"))]),
        )])),
        ("type", sv("object")),
    ]);
    assert_eq!(rewrite(&input), expected);
}

#[test]
fn node_that_does_not_decode_is_left_untouched() {
    let input = obj(vec![("enum", sv("not-an-array")), ("type", sv("string"))]);
    assert_eq!(rewrite(&input), input);
    let scalar = sv("just a string");
    assert_eq!(rewrite(&scalar), scalar);
}

#[test]
fn bool_variant_aborts() {
    let input = obj(vec![(
        "oneOf",
        Json::Arr(vec![Json::Bool(true)]),
    )]);
    let mut doc = input;
    let err = StructuralSchemaRewriter.transform(&mut doc).expect_err("violation");
    assert_eq!(err, Error::BoolVariant);
}

#[test]
fn untyped_variant_aborts() {
    let input = obj(vec![(
        "oneOf",
        Json::Arr(vec![obj(vec![("enum", Json::Arr(vec![sv("A")]))])]),
    )]);
    let mut doc = input;
    let err = StructuralSchemaRewriter.transform(&mut doc).expect_err("violation");
    match err {
        Error::UntypedVariant { variant } => {
            assert!(variant.enum_values.is_some());
        },
        other => panic!("unexpected violation {:?}", other),
    }
}

#[test]
fn mismatched_variant_types_abort() {
    let input = obj(vec![(
        "oneOf",
        Json::Arr(vec![
            obj(vec![("enum", Json::Arr(vec![sv("A")])), ("type", sv("string"))]),
            obj(vec![("enum", Json::Arr(vec![Json::Num("1".to_string())])), ("type", sv("integer"))]),
        ]),
    )]);
    let mut doc = input;
    let err = StructuralSchemaRewriter.transform(&mut doc).expect_err("violation");
    assert!(matches!(err, Error::TypeMismatch { .. }));
}

#[test]
fn variant_without_enum_or_const_aborts() {
    let input = obj(vec![(
        "oneOf",
        Json::Arr(vec![
            obj(vec![("type", sv("string"))]),
        ]),
    )]);
    let mut doc = input;
    let err = StructuralSchemaRewriter.transform(&mut doc).expect_err("violation");
    match err {
        Error::MissingEnumOrConst { variant } => {
            assert!(variant.instance_type.is_some());
        },
        other => panic!("unexpected violation {:?}", other),
    }
}

#[test]
fn const_values_are_hoisted() {
    let input = obj(vec![(
        "oneOf",
        Json::Arr(vec![
            obj(vec![("const", sv("A")), ("type", sv("string"))]),
            obj(vec![("enum", Json::Arr(vec![sv("B"), sv("C")])), ("type", sv("string"))]),
        ]),
    )]);
    let expected = obj(vec![
        ("enum", Json::Arr(vec![sv("A"), sv("B"), sv("C")])),
        ("type", sv("string")),
    ]);
    assert_eq!(rewrite(&input), expected);
}

#[test]
fn two_null_markers_abort() {
    let marker = || obj(vec![("enum", Json::Arr(vec![Json::Null])), ("nullable", Json::Bool(true))]);
    let input = obj(vec![("anyOf", Json::Arr(vec![marker(), marker()]))]);
    let mut doc = input;
    let err = StructuralSchemaRewriter.transform(&mut doc).expect_err("violation");
    assert_eq!(err, Error::DoubleNullMarker);
}

#[test]
fn document_is_unchanged_after_abort() {
    let input = obj(vec![(
        "oneOf",
        Json::Arr(vec![Json::Bool(false)]),
    )]);
    let mut doc = clone_json(&input);
    StructuralSchemaRewriter.transform(&mut doc).expect_err("violation");
    assert_eq!(doc, input);
}
