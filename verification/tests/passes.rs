use structural_schema::decode::{decode_schema, decode_schema_object};
use structural_schema::encode::encode_schema_object;
use structural_schema::json::json_eq;
use structural_schema::error::Error;
use structural_schema::json::Json;
use structural_schema::model::{InstanceType, Schema, SchemaObject, TypeList};
use structural_schema::subschema_hoist::{hoist_subschema_enum_values, hoist_subschema_properties};
use structural_schema::transform_optional_enum_with_null::remove_optional_enum_null_variant;
use structural_schema::transform_properties::hoist_properties_for_any_of_subschemas;
use structural_schema::transforms::hoist_one_of_enum_with_unit_variants;

fn obj(entries: Vec<(&str, Json)>) -> Json {
    Json::Obj(entries.into_iter().map(|(k, v)| (k.to_string(), v)).collect())
}

fn sv(x: &str) -> Json {
    Json::Str(x.to_string())
}

fn decode_obj(j: Json) -> SchemaObject {
    match j {
        Json::Obj(entries) => decode_schema_object(&entries).expect("valid schema object"),
        _ => panic!("not an object"),
    }
}

fn nested_enum_property() -> Json {
    obj(vec![
        ("description", sv("A very simple enum with unit variants")),
        (
            "oneOf",
            Json::Arr(vec![
                obj(vec![("enum", Json::Arr(vec![sv("C"), sv("D")])), ("type", sv("string"))]),
                obj(vec![
                    ("description", sv("First variant doc-comment")),
                    ("enum", Json::Arr(vec![sv("A")])),
                    ("type", sv("string")),
                ]),
                obj(vec![
                    ("description", sv("Second variant doc-comment")),
                    ("enum", Json::Arr(vec![sv("B")])),
                    ("type", sv("string")),
                ]),
            ]),
        ),
    ])
}

#[test]
fn optional_enum_with_null() {
    let original = obj(vec![
        (
            "description",
            sv("A very simple enum with unit variants without descriptions"),
        ),
        (
            "enum",
            Json::Arr(vec![sv("A"), sv("B"), sv("C"), sv("D"), Json::Null]),
        ),
        ("nullable", Json::Bool(true)),
    ]);
    let expected = obj(vec![
        (
            "description",
            sv("A very simple enum with unit variants without descriptions"),
        ),
        ("enum", Json::Arr(vec![sv("A"), sv("B"), sv("C"), sv("D")])),
        ("nullable", Json::Bool(true)),
    ]);
    let mut actual = decode_obj(original);
    remove_optional_enum_null_variant(&mut actual);
    assert_eq!(actual, decode_obj(expected));
}

#[test]
fn untagged_enum_with_empty_variant_before_one_of_hoisting() {
    let original = obj(vec![
        ("anyOf", Json::Arr(vec![
            obj(vec![
                ("description", sv("Used in case the `one` field is present")),
                ("properties", obj(vec![("one", obj(vec![("type", sv("string"))]))])),
                ("required", Json::Arr(vec![sv("one")])),
                ("type", sv("object")),
            ]),
            obj(vec![
                ("description", sv("Used in case the `two` field is present")),
                ("properties", obj(vec![("two", nested_enum_property())])),
                ("required", Json::Arr(vec![sv("two")])),
                ("type", sv("object")),
            ]),
            obj(vec![
                ("description", sv("Used in case no fields are present")),
                ("type", sv("object")),
            ]),
        ])),
        ("description", sv("An untagged enum with a nested enum inside")),
    ]);
    let expected = obj(vec![
        ("anyOf", Json::Arr(vec![
            obj(vec![("required", Json::Arr(vec![sv("one")]))]),
            obj(vec![("required", Json::Arr(vec![sv("two")]))]),
            obj(vec![]),
        ])),
        ("description", sv("An untagged enum with a nested enum inside")),
        ("properties", obj(vec![
            ("one", obj(vec![("type", sv("string"))])),
            ("two", nested_enum_property()),
        ])),
        ("type", sv("object")),
    ]);
    let mut actual = decode_obj(original);
    hoist_properties_for_any_of_subschemas(&mut actual).expect("no conflicts");
    assert_eq!(actual, decode_obj(expected));
}

#[test]
fn untagged_enum_with_duplicate_field_of_same_shape() {
    let original = obj(vec![
        ("anyOf", Json::Arr(vec![
            obj(vec![
                ("description", sv("Comment for struct ProductImageCustom")),
                ("properties", obj(vec![
                    ("custom", obj(vec![
                        ("description", sv("Comment for custom field")),
                        ("type", sv("string")),
                    ])),
                    ("productVersion", obj(vec![
                        (
                            "description",
                            sv("Comment for product_version field (same on both structs)"),
                        ),
                        ("type", sv("string")),
                    ])),
                ])),
                ("required", Json::Arr(vec![sv("productVersion"), sv("custom")])),
                ("type", sv("object")),
            ]),
            obj(vec![
                ("description", sv("Comment for struct ProductImageVersion")),
                ("properties", obj(vec![
                    ("productVersion", obj(vec![
                        (
                            "description",
                            sv("Comment for product_version field (same on both structs)"),
                        ),
                        ("type", sv("string")),
                    ])),
                    ("repo", obj(vec![
                        ("description", sv("Comment for repo field")),
                        ("nullable", Json::Bool(true)),
                        ("type", sv("string")),
                    ])),
                ])),
                ("required", Json::Arr(vec![sv("productVersion")])),
                ("type", sv("object")),
            ]),
        ])),
        ("description", sv("Comment for untagged enum ProductImageSelection")),
    ]);
    let expected = obj(vec![
        ("anyOf", Json::Arr(vec![
            obj(vec![("required", Json::Arr(vec![sv("custom"), sv("productVersion")]))]),
            obj(vec![("required", Json::Arr(vec![sv("productVersion")]))]),
        ])),
        ("description", sv("Comment for untagged enum ProductImageSelection")),
        ("properties", obj(vec![
            ("custom", obj(vec![
                ("description", sv("Comment for custom field")),
                ("type", sv("string")),
            ])),
            ("productVersion", obj(vec![
                (
                    "description",
                    sv("Comment for product_version field (same on both structs)"),
                ),
                ("type", sv("string")),
            ])),
            ("repo", obj(vec![
                ("description", sv("Comment for repo field")),
                ("nullable", Json::Bool(true)),
                ("type", sv("string")),
            ])),
        ])),
        ("type", sv("object")),
    ]);
    let mut actual = decode_obj(original);
    hoist_properties_for_any_of_subschemas(&mut actual).expect("no conflicts");
    assert_eq!(actual, decode_obj(expected));
}

#[test]
fn invalid_untagged_enum_with_conflicting_variant_fields_before_one_of_hosting() {
    let original = obj(vec![
        ("anyOf", Json::Arr(vec![
            obj(vec![
                ("description", sv("Used in case the `one` field is present")),
                ("properties", obj(vec![
                    ("one", obj(vec![("type", sv("string"))])),
                    ("two", obj(vec![("type", sv("integer"))])),
                ])),
                ("required", Json::Arr(vec![sv("one"), sv("two")])),
                ("type", sv("object")),
            ]),
            obj(vec![
                ("description", sv("Used in case the `two` field is present")),
                ("properties", obj(vec![("two", nested_enum_property())])),
                ("required", Json::Arr(vec![sv("two")])),
                ("type", sv("object")),
            ]),
            obj(vec![
                ("description", sv("Used in case no fields are present")),
                ("type", sv("object")),
            ]),
        ])),
        ("description", sv("An untagged enum with a nested enum inside")),
    ]);
    let mut actual = decode_obj(original);
    let err = hoist_properties_for_any_of_subschemas(&mut actual).expect_err("conflict");
    match err {
        Error::PropertyConflict { name, .. } => assert_eq!(name, "two"),
        other => panic!("unexpected violation {:?}", other),
    }
}

#[test]
fn invalid_untagged_enum_with_conflicting_variant_fields_after_one_of_hosting() {
    let original = obj(vec![
        ("anyOf", Json::Arr(vec![
            obj(vec![
                ("description", sv("Used in case the `one` field is present")),
                ("properties", obj(vec![
                    ("one", obj(vec![("type", sv("string"))])),
                    ("two", obj(vec![("type", sv("string"))])),
                ])),
                ("required", Json::Arr(vec![sv("one"), sv("two")])),
                ("type", sv("object")),
            ]),
            obj(vec![
                ("description", sv("Used in case the `two` field is present")),
                ("properties", obj(vec![
                    ("two", obj(vec![
                        ("description", sv("A very simple enum with unit variants")),
                        ("enum", Json::Arr(vec![sv("C"), sv("D"), sv("A"), sv("B")])),
                        ("type", sv("string")),
                    ])),
                ])),
                ("required", Json::Arr(vec![sv("two")])),
                ("type", sv("object")),
            ]),
            obj(vec![
                ("description", sv("Used in case no fields are present")),
                ("type", sv("object")),
            ]),
        ])),
        ("description", sv("An untagged enum with a nested enum inside")),
    ]);
    let mut actual = decode_obj(original);
    let err = hoist_properties_for_any_of_subschemas(&mut actual).expect_err("conflict");
    match err {
        Error::PropertyConflict { name, .. } => assert_eq!(name, "two"),
        other => panic!("unexpected violation {:?}", other),
    }
}

#[test]
fn tagged_enum_with_unit_variants() {
    let original = obj(vec![
        ("description", sv("A very simple enum with unit variants")),
        (
            "oneOf",
            Json::Arr(vec![
                obj(vec![("enum", Json::Arr(vec![sv("C"), sv("D")])), ("type", sv("string"))]),
                obj(vec![
                    ("description", sv("First variant doc-comment")),
                    ("enum", Json::Arr(vec![sv("A")])),
                    ("type", sv("string")),
                ]),
                obj(vec![
                    ("description", sv("Second variant doc-comment")),
                    ("enum", Json::Arr(vec![sv("B")])),
                    ("type", sv("string")),
                ]),
            ]),
        ),
    ]);
    let expected = obj(vec![
        ("description", sv("A very simple enum with unit variants")),
        ("enum", Json::Arr(vec![sv("C"), sv("D"), sv("A"), sv("B")])),
        ("type", sv("string")),
    ]);
    let mut actual = decode_obj(original);
    hoist_one_of_enum_with_unit_variants(&mut actual).expect("no violation");
    // compared through the wire form, where an emptied subschema group
    // and an absent one are the same document
    assert!(json_eq(&encode_schema_object(&actual), &encode_schema_object(&decode_obj(expected))));
}

#[test]
fn tagged_enum_with_struct_variants_relocates_descriptions() {
    let original = obj(vec![(
        "oneOf",
        Json::Arr(vec![
            obj(vec![
                ("description", sv("Used in case the `a` field is present")),
                ("properties", obj(vec![("a", obj(vec![("type", sv("string"))]))])),
                ("required", Json::Arr(vec![sv("a")])),
                ("type", sv("object")),
            ]),
            obj(vec![
                ("description", sv("Used in case the `b` field is present")),
                ("properties", obj(vec![("b", obj(vec![("type", sv("integer"))]))])),
                ("required", Json::Arr(vec![sv("b")])),
                ("type", sv("object")),
            ]),
        ]),
    )]);
    let expected = obj(vec![
        ("oneOf", Json::Arr(vec![
            obj(vec![("required", Json::Arr(vec![sv("a")]))]),
            obj(vec![("required", Json::Arr(vec![sv("b")]))]),
        ])),
        ("properties", obj(vec![
            ("a", obj(vec![
                ("description", sv("Used in case the `a` field is present")),
                ("type", sv("string")),
            ])),
            ("b", obj(vec![
                ("description", sv("Used in case the `b` field is present")),
                ("type", sv("integer")),
            ])),
        ])),
        ("type", sv("object")),
    ]);
    let mut actual = decode_obj(original);
    hoist_properties_for_any_of_subschemas(&mut actual).expect("no conflicts");
    assert_eq!(actual, decode_obj(expected));
}

#[test]
fn tagged_variant_with_two_properties_aborts() {
    let original = obj(vec![(
        "oneOf",
        Json::Arr(vec![obj(vec![
            ("properties", obj(vec![
                ("a", obj(vec![("type", sv("string"))])),
                ("b", obj(vec![("type", sv("string"))])),
            ])),
            ("type", sv("object")),
        ])]),
    )]);
    let mut actual = decode_obj(original);
    let err = hoist_properties_for_any_of_subschemas(&mut actual).expect_err("two properties");
    assert_eq!(err, Error::TaggedVariantPropertyCount { count: 2 });
}

#[test]
fn tagged_variant_property_with_own_metadata_aborts() {
    let original = obj(vec![(
        "oneOf",
        Json::Arr(vec![obj(vec![
            ("description", sv("the variant")),
            ("properties", obj(vec![(
                "a",
                obj(vec![("description", sv("already documented")), ("type", sv("string"))]),
            )])),
            ("type", sv("object")),
        ])]),
    )]);
    let mut actual = decode_obj(original);
    let err = hoist_properties_for_any_of_subschemas(&mut actual).expect_err("metadata set");
    assert_eq!(err, Error::PropertyMetadataAlreadySet);
}

#[test]
fn simultaneous_one_of_and_any_of_aborts() {
    let original = obj(vec![
        ("anyOf", Json::Arr(vec![])),
        ("oneOf", Json::Arr(vec![obj(vec![
            ("properties", obj(vec![("a", obj(vec![("type", sv("string"))]))])),
            ("type", sv("object")),
        ])])),
    ]);
    let mut actual = decode_obj(original);
    let err = hoist_properties_for_any_of_subschemas(&mut actual).expect_err("both populated");
    assert_eq!(err, Error::OneOfAnyOfConflict);
}

fn decode_variant(j: Json) -> Schema {
    decode_schema(&j).expect("valid schema")
}

#[test]
fn pipeline_tagged_hoist_relocates_description() {
    let mut variants = vec![decode_variant(obj(vec![
        ("description", sv("the colour variant")),
        ("properties", obj(vec![("colour", obj(vec![("type", sv("string"))]))])),
        ("required", Json::Arr(vec![sv("colour")])),
        ("type", sv("object")),
    ]))];
    let mut parent: Option<structural_schema::model::ObjectValidation> = None;
    let mut ty: Option<TypeList> = None;
    hoist_subschema_properties(&mut variants, &mut parent, &mut ty, true).expect("no violation");
    let parent = parent.expect("parent object keywords created");
    assert_eq!(parent.properties.len(), 1);
    let (name, hoisted) = &parent.properties[0];
    assert_eq!(name, "colour");
    match hoisted {
        Schema::Object(p) => {
            let md = p.metadata.as_ref().expect("description relocated");
            assert_eq!(md.description.as_deref(), Some("the colour variant"));
        },
        _ => panic!("hoisted property is not an object schema"),
    }
    assert_eq!(ty, Some(TypeList::Single(InstanceType::Object)));
}

#[test]
fn pipeline_untagged_hoist_drops_description() {
    let mut variants = vec![decode_variant(obj(vec![
        ("description", sv("the colour variant")),
        ("properties", obj(vec![("colour", obj(vec![("type", sv("string"))]))])),
        ("required", Json::Arr(vec![sv("colour")])),
        ("type", sv("object")),
    ]))];
    let mut parent: Option<structural_schema::model::ObjectValidation> = None;
    let mut ty: Option<TypeList> = None;
    hoist_subschema_properties(&mut variants, &mut parent, &mut ty, false).expect("no violation");
    let parent = parent.expect("parent object keywords created");
    let (_, hoisted) = &parent.properties[0];
    match hoisted {
        Schema::Object(p) => assert!(p.metadata.is_none(), "untagged descriptions are dropped"),
        _ => panic!("hoisted property is not an object schema"),
    }
    match &variants[0] {
        Schema::Object(v) => match &v.metadata {
            None => {},
            Some(md) => assert!(md.description.is_none(), "variant description is dropped"),
        },
        _ => panic!("variant is not an object schema"),
    }
}

#[test]
fn pipeline_tagged_hoist_requires_single_property() {
    let mut variants = vec![decode_variant(obj(vec![
        ("properties", obj(vec![
            ("a", obj(vec![("type", sv("string"))])),
            ("b", obj(vec![("type", sv("string"))])),
        ])),
        ("type", sv("object")),
    ]))];
    let mut parent: Option<structural_schema::model::ObjectValidation> = None;
    let mut ty: Option<TypeList> = None;
    let err = hoist_subschema_properties(&mut variants, &mut parent, &mut ty, true)
        .expect_err("two properties in a tagged variant");
    assert_eq!(err, Error::TaggedVariantPropertyCount { count: 2 });
}

#[test]
fn enum_value_hoist_names_mismatching_variant() {
    let mut variants = vec![
        decode_variant(obj(vec![
            ("enum", Json::Arr(vec![sv("A")])),
            ("type", sv("string")),
        ])),
        decode_variant(obj(vec![
            ("enum", Json::Arr(vec![Json::Num("1".to_string())])),
            ("type", sv("integer")),
        ])),
    ];
    let mut evs: Option<Vec<Json>> = None;
    let mut ty: Option<TypeList> = None;
    let err = hoist_subschema_enum_values(&mut variants, &mut evs, &mut ty)
        .expect_err("variant types differ");
    match err {
        Error::EnumVariantTypeMismatch { values, expected, found } => {
            assert_eq!(values, vec![Json::Num("1".to_string())]);
            assert_eq!(expected, TypeList::Single(InstanceType::String));
            assert_eq!(found, TypeList::Single(InstanceType::Integer));
        },
        other => panic!("unexpected violation {:?}", other),
    }
}
