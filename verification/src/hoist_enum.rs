//! Enum hoisting passes.
//!
//! `hoist_one_of_enum` collapses a `oneOf` union of enum/const variants
//! into a single root-level `type` + `enum`. `hoist_any_of_option_enum`
//! collapses an `anyOf` pair of which one entry is the canonical null
//! marker `{"enum":[null],"nullable":true}` into a nullable root schema.

use vstd::prelude::*;

use crate::error::{error_view, Error, ErrorV};
use crate::json::{
    arr_view, json_clone, json_list_clone, json_map_get, json_map_insert, json_view,
    lemma_arr_view_concat, obj_view, spec_map_get, spec_map_insert, Json, JsonV,
};
use crate::model::{
    schema_object_clone, schema_object_view, schema_view, schemas_view, type_list_clone,
    type_list_eq, type_list_view,
    Metadata, MetadataV, Schema, SchemaObject, SchemaObjectV, SchemaV, SubschemaValidation,
    SubschemasV, TypeListV,
};

verus! {

broadcast use vstd::std_specs::vec::group_vec_axioms, vstd::seq::group_seq_axioms,
    vstd::seq_lib::group_seq_lib_default;

/// The `type` a union variant declares: a boolean variant and an untyped
/// variant are hard violations.
pub open spec fn spec_variant_type(v: SchemaV) -> Result<TypeListV, ErrorV> {
    match v {
        SchemaV::Bool(_) => Err(ErrorV::BoolVariant),
        SchemaV::Object(m) => match m.instance_type {
            Some(t) => Ok(t),
            None => Err(ErrorV::UntypedVariant { variant: m }),
        },
    }
}

/// The first violation among the variants' types: a malformed variant, or
/// one whose type differs from `expected`.
pub open spec fn spec_check_types(vars: Seq<SchemaV>, expected: TypeListV) -> Option<ErrorV>
    decreases vars.len(),
{
    if vars.len() == 0 {
        None
    } else {
        match spec_variant_type(vars[0]) {
            Err(e) => Some(e),
            Ok(t) => if t != expected {
                Some(ErrorV::TypeMismatch { expected, found: t })
            } else {
                spec_check_types(vars.drop_first(), expected)
            },
        }
    }
}

/// The concatenation, in variant order, of each variant's enum values or
/// its single `const` value; a variant providing neither is a hard
/// violation.
pub open spec fn spec_collect_enums(vars: Seq<SchemaV>) -> Result<Seq<JsonV>, ErrorV>
    decreases vars.len(),
{
    if vars.len() == 0 {
        Ok(Seq::empty())
    } else {
        match vars[0] {
            SchemaV::Bool(_) => Err(ErrorV::BoolVariant),
            SchemaV::Object(m) => {
                let head = match m.enum_values {
                    Some(e) => Ok(e),
                    None => match spec_map_get(m.other, "const"@) {
                        Some(c) => Ok(seq![c]),
                        None => Err(ErrorV::MissingEnumOrConst { variant: m }),
                    },
                };
                match head {
                    Err(e) => Err(e),
                    Ok(h) => match spec_collect_enums(vars.drop_first()) {
                        Err(e) => Err(e),
                        Ok(rest) => Ok(h + rest),
                    },
                }
            },
        }
    }
}

/// What hoisting a `oneOf` enum union yields: the node unchanged when
/// there is no non-empty `oneOf`; otherwise the root `type` is set to the
/// variants' common type, the root `enum` is extended by the variants'
/// values in variant order, and `oneOf` is cleared. Mismatched or
/// malformed variants are hard violations.
pub open spec fn spec_hoist_one_of_enum(m: SchemaObjectV) -> Result<SchemaObjectV, ErrorV> {
    match m.subschemas {
        None => Ok(m),
        Some(subs) => match subs.one_of {
            None => Ok(m),
            Some(one_of) => if one_of.len() == 0 {
                Ok(m)
            } else {
                match spec_variant_type(one_of[0]) {
                    Err(e) => Err(e),
                    Ok(t0) => match spec_check_types(one_of.drop_first(), t0) {
                        Some(e) => Err(e),
                        None => match spec_collect_enums(one_of) {
                            Err(e) => Err(e),
                            Ok(vals) => Ok(
                                SchemaObjectV {
                                    instance_type: Some(t0),
                                    enum_values: Some(
                                        (match m.enum_values {
                                            Some(ev) => ev,
                                            None => Seq::empty(),
                                        }) + vals,
                                    ),
                                    subschemas: Some(SubschemasV { one_of: None, ..subs }),
                                    ..m
                                },
                            ),
                        },
                    },
                }
            },
        },
    }
}

/// Hoist a `oneOf` union of enum/const variants into the root `type` and
/// `enum`, clearing `oneOf`. Variant descriptions are discarded.
#[verifier::loop_isolation(false)]
pub fn hoist_one_of_enum(incoming: SchemaObject) -> (r: Result<SchemaObject, Error>)
    ensures
        match r {
            Ok(out) => {
                &&& spec_hoist_one_of_enum(schema_object_view(incoming)) matches Ok(v)
                &&& schema_object_view(out) == v
            },
            Err(e) => {
                &&& spec_hoist_one_of_enum(schema_object_view(incoming)) matches Err(ev)
                &&& error_view(e) == ev
            },
        },
{
    let ghost mv = schema_object_view(incoming);
    let subs = match &incoming.subschemas {
        None => {
            return Ok(incoming);
        },
        Some(s) => s,
    };
    let one_of = match &subs.one_of {
        None => {
            return Ok(incoming);
        },
        Some(v) => v,
    };
    if one_of.len() == 0 {
        return Ok(incoming);
    }
    let ghost vs = schemas_view(one_of@);
    proof {
        assert(vs[0] == schema_view(one_of@[0]));
    }
    let t0 = match &one_of[0] {
        Schema::Bool(_) => {
            return Err(Error::BoolVariant);
        },
        Schema::Object(m0) => match &m0.instance_type {
            None => {
                return Err(Error::UntypedVariant { variant: Box::new(schema_object_clone(m0)) });
            },
            Some(t) => type_list_clone(t),
        },
    };
    let ghost t0v = type_list_view(t0);
    let mut i: usize = 1;
    while i < one_of.len()
        invariant
            1 <= i <= one_of.len(),
            type_list_view(t0) == t0v,
            spec_check_types(vs.drop_first(), t0v) == spec_check_types(vs.skip(i as int), t0v),
        decreases one_of.len() - i,
    {
        proof {
            assert(vs.skip(i as int)[0] == vs[i as int]);
            assert(vs[i as int] == schema_view(one_of@[i as int]));
        }
        match &one_of[i] {
            Schema::Bool(_) => {
                return Err(Error::BoolVariant);
            },
            Schema::Object(mi) => match &mi.instance_type {
                None => {
                    return Err(Error::UntypedVariant { variant: Box::new(schema_object_clone(mi)) });
                },
                Some(ti) => {
                    if !type_list_eq(ti, &t0) {
                        return Err(
                            Error::TypeMismatch {
                                expected: t0,
                                found: type_list_clone(ti),
                            },
                        );
                    }
                },
            },
        }
        proof {
            assert(vs.skip(i as int).drop_first() =~= vs.skip(i as int + 1));
        }
        i += 1;
    }
    proof {
        assert(vs.skip(one_of@.len() as int) =~= Seq::<SchemaV>::empty());
        assert(spec_check_types(vs.drop_first(), t0v) is None);
    }
    let mut new_enums: Vec<Json> = Vec::new();
    let mut i: usize = 0;
    proof {
        assert(vs.skip(0) =~= vs);
        let r0 = spec_collect_enums(vs);
        if r0 is Ok {
            assert(arr_view(new_enums@) + r0->Ok_0 =~= r0->Ok_0);
        }
    }
    while i < one_of.len()
        invariant
            0 <= i <= one_of.len(),
            spec_collect_enums(vs) == (match spec_collect_enums(vs.skip(i as int)) {
                Ok(rest) => Ok::<Seq<JsonV>, ErrorV>(arr_view(new_enums@) + rest),
                Err(e) => Err(e),
            }),
        decreases one_of.len() - i,
    {
        proof {
            assert(vs.skip(i as int)[0] == vs[i as int]);
            assert(vs[i as int] == schema_view(one_of@[i as int]));
            assert(vs.skip(i as int).drop_first() =~= vs.skip(i as int + 1));
        }
        match &one_of[i] {
            Schema::Bool(_) => {
                return Err(Error::BoolVariant);
            },
            Schema::Object(mi) => match &mi.enum_values {
                Some(e) => {
                    let ghost acc0 = new_enums@;
                    let mut c = json_list_clone(e);
                    let ghost cv = c@;
                    new_enums.append(&mut c);
                    proof {
                        lemma_arr_view_concat(acc0, cv);
                        assert(arr_view(new_enums@) =~= arr_view(acc0) + arr_view(e@));
                        let rest_r = spec_collect_enums(vs.skip(i as int + 1));
                        if rest_r is Ok {
                            assert(arr_view(acc0) + (arr_view(e@) + rest_r->Ok_0) =~= arr_view(
                                new_enums@,
                            ) + rest_r->Ok_0);
                        }
                    }
                },
                None => match json_map_get(&mi.other, "const") {
                    Some(cj) => {
                        let ghost acc0 = arr_view(new_enums@);
                        let c = json_clone(cj);
                        let ghost cv = json_view(c);
                        new_enums.push(c);
                        proof {
                            assert(arr_view(new_enums@) =~= acc0 + seq![cv]);
                            let rest_r = spec_collect_enums(vs.skip(i as int + 1));
                            if rest_r is Ok {
                                assert(acc0 + (seq![cv] + rest_r->Ok_0) =~= arr_view(new_enums@)
                                    + rest_r->Ok_0);
                            }
                        }
                    },
                    None => {
                        return Err(
                            Error::MissingEnumOrConst { variant: Box::new(schema_object_clone(mi)) },
                        );
                    },
                },
            },
        }
        i += 1;
    }
    proof {
        assert(vs.skip(one_of@.len() as int) =~= Seq::<SchemaV>::empty());
        assert(spec_collect_enums(vs) == Ok::<Seq<JsonV>, ErrorV>(
            arr_view(new_enums@) + Seq::empty(),
        ));
        assert(arr_view(new_enums@) + Seq::<JsonV>::empty() =~= arr_view(new_enums@));
    }
    let SchemaObject {
        metadata,
        instance_type: _,
        format,
        enum_values,
        subschemas,
        array,
        object,
        extensions,
        other,
    } = incoming;
    let subs_own = match subschemas {
        Some(s) => s,
        None => {
            proof {
                assert(false);
            }
            return Err(Error::BoolVariant);
        },
    };
    let SubschemaValidation { any_of, one_of: _ } = subs_own;
    let combined = match enum_values {
        Some(mut ev) => {
            let ghost ev0 = ev@;
            let ghost nv = new_enums@;
            ev.append(&mut new_enums);
            proof {
                lemma_arr_view_concat(ev0, nv);
                assert(arr_view(ev@) =~= arr_view(ev0) + arr_view(nv));
            }
            ev
        },
        None => new_enums,
    };
    let out = SchemaObject {
        metadata,
        instance_type: Some(t0),
        format,
        enum_values: Some(combined),
        subschemas: Some(SubschemaValidation { any_of, one_of: None }),
        array,
        object,
        extensions,
        other,
    };
    proof {
        let spec_out = spec_hoist_one_of_enum(mv)->Ok_0;
        assert(schema_object_view(out) =~~= spec_out);
    }
    Ok(out)
}

/// Whether a schema is exactly the canonical null marker
/// `{"enum":[null],"nullable":true}`.
pub open spec fn spec_is_null_marker(s: SchemaV) -> bool {
    match s {
        SchemaV::Bool(_) => false,
        SchemaV::Object(m) => {
            &&& m.metadata is None
            &&& m.instance_type is None
            &&& m.format is None
            &&& m.enum_values == Some(seq![JsonV::Null])
            &&& m.subschemas is None
            &&& m.array is None
            &&& m.object is None
            &&& m.extensions == seq![("nullable"@, JsonV::Bool(true))]
            &&& m.other == Seq::<(Seq<char>, JsonV)>::empty()
        },
    }
}

/// Whether a schema is exactly the canonical null marker.
pub fn is_null_marker(s: &Schema) -> (r: bool)
    ensures
        r == spec_is_null_marker(schema_view(*s)),
{
    match s {
        Schema::Bool(_) => false,
        Schema::Object(m) => {
            if m.metadata.is_some() || m.instance_type.is_some() || m.format.is_some()
                || m.subschemas.is_some() || m.array.is_some() || m.object.is_some() {
                return false;
            }
            let ev = match &m.enum_values {
                Some(e) => e,
                None => {
                    return false;
                },
            };
            if ev.len() != 1 {
                proof {
                    assert(arr_view(ev@).len() == ev@.len());
                    assert(seq![JsonV::Null].len() == 1);
                }
                return false;
            }
            match &ev[0] {
                Json::Null => {},
                _ => {
                    proof {
                        assert(arr_view(ev@)[0] == json_view(ev@[0]));
                        assert(seq![JsonV::Null][0] == JsonV::Null);
                    }
                    return false;
                },
            }
            if m.extensions.len() != 1 {
                proof {
                    assert(obj_view(m.extensions@).len() == m.extensions@.len());
                    assert(seq![("nullable"@, JsonV::Bool(true))].len() == 1);
                }
                return false;
            }
            let ent = &m.extensions[0];
            let val_ok = match &ent.1 {
                Json::Bool(true) => true,
                _ => false,
            };
            if !crate::json::str_eq(ent.0.as_str(), "nullable") || !val_ok {
                proof {
                    assert(obj_view(m.extensions@)[0] == (m.extensions@[0].0@, json_view(
                        m.extensions@[0].1,
                    )));
                    assert(seq![("nullable"@, JsonV::Bool(true))][0] == (
                        "nullable"@,
                        JsonV::Bool(true),
                    ));
                }
                return false;
            }
            if m.other.len() != 0 {
                proof {
                    assert(obj_view(m.other@).len() == m.other@.len());
                }
                return false;
            }
            proof {
                assert(arr_view(ev@) =~= seq![JsonV::Null]);
                assert(obj_view(m.extensions@) =~= seq![("nullable"@, JsonV::Bool(true))]);
                assert(obj_view(m.other@) =~= Seq::<(Seq<char>, JsonV)>::empty());
            }
            true
        },
    }
}

/// What hoisting an `anyOf` nullable-optional pair yields: the node
/// unchanged unless `anyOf` has exactly two entries of which exactly one
/// is the canonical null marker; then the other entry's description,
/// type and enum replace the root's, the `nullable` extension is set, and
/// `anyOf` is cleared. Two markers are a hard violation.
pub open spec fn spec_hoist_any_of_option_enum(m: SchemaObjectV) -> Result<SchemaObjectV, ErrorV> {
    match m.subschemas {
        None => Ok(m),
        Some(subs) => match subs.any_of {
            None => Ok(m),
            Some(any_of) => if any_of.len() != 2 {
                Ok(m)
            } else {
                let is0 = spec_is_null_marker(any_of[0]);
                let is1 = spec_is_null_marker(any_of[1]);
                if is0 && is1 {
                    Err(ErrorV::DoubleNullMarker)
                } else if !is0 && !is1 {
                    Ok(m)
                } else {
                    let to_hoist = if is0 {
                        any_of[1]
                    } else {
                        any_of[0]
                    };
                    match to_hoist {
                        SchemaV::Bool(_) => Err(ErrorV::BoolVariant),
                        SchemaV::Object(h) => Ok(
                            SchemaObjectV {
                                metadata: Some(
                                    MetadataV {
                                        description: match h.metadata {
                                            Some(hm) => hm.description,
                                            None => None,
                                        },
                                        default: match m.metadata {
                                            Some(im) => im.default,
                                            None => None,
                                        },
                                    },
                                ),
                                instance_type: h.instance_type,
                                enum_values: h.enum_values,
                                subschemas: Some(SubschemasV { any_of: None, ..subs }),
                                extensions: spec_map_insert(
                                    m.extensions,
                                    "nullable"@,
                                    JsonV::Bool(true),
                                ),
                                ..m
                            },
                        ),
                    }
                }
            },
        },
    }
}

/// Hoist the non-marker entry of a nullable-optional `anyOf` pair into
/// the root, set the `nullable` extension and clear `anyOf`.
pub fn hoist_any_of_option_enum(incoming: SchemaObject) -> (r: Result<SchemaObject, Error>)
    ensures
        match r {
            Ok(out) => {
                &&& spec_hoist_any_of_option_enum(schema_object_view(incoming)) matches Ok(v)
                &&& schema_object_view(out) == v
            },
            Err(e) => {
                &&& spec_hoist_any_of_option_enum(schema_object_view(incoming)) matches Err(ev)
                &&& error_view(e) == ev
            },
        },
{
    let ghost mv = schema_object_view(incoming);
    let subs = match &incoming.subschemas {
        None => {
            return Ok(incoming);
        },
        Some(s) => s,
    };
    let any_of = match &subs.any_of {
        None => {
            return Ok(incoming);
        },
        Some(v) => v,
    };
    if any_of.len() != 2 {
        return Ok(incoming);
    }
    proof {
        assert(schemas_view(any_of@)[0] == schema_view(any_of@[0]));
        assert(schemas_view(any_of@)[1] == schema_view(any_of@[1]));
    }
    let is0 = is_null_marker(&any_of[0]);
    let is1 = is_null_marker(&any_of[1]);
    if is0 && is1 {
        return Err(Error::DoubleNullMarker);
    }
    if !is0 && !is1 {
        return Ok(incoming);
    }
    let hoist_idx: usize = if is0 {
        1
    } else {
        0
    };
    let h = match &any_of[hoist_idx] {
        Schema::Bool(_) => {
            return Err(Error::BoolVariant);
        },
        Schema::Object(h) => h,
    };
    let new_desc = match &h.metadata {
        Some(hm) => match &hm.description {
            Some(d) => Some(d.clone()),
            None => None,
        },
        None => None,
    };
    let new_type = match &h.instance_type {
        Some(t) => Some(type_list_clone(t)),
        None => None,
    };
    let new_enum = match &h.enum_values {
        Some(e) => Some(json_list_clone(e)),
        None => None,
    };
    let SchemaObject {
        metadata,
        instance_type: _,
        format,
        enum_values: _,
        subschemas,
        array,
        object,
        mut extensions,
        other,
    } = incoming;
    let subs_own = match subschemas {
        Some(s) => s,
        None => {
            proof {
                assert(false);
            }
            return Err(Error::BoolVariant);
        },
    };
    let SubschemaValidation { any_of: _, one_of } = subs_own;
    let old_default = match metadata {
        Some(md) => md.default,
        None => None,
    };
    json_map_insert(&mut extensions, "nullable".to_owned(), Json::Bool(true));
    let out = SchemaObject {
        metadata: Some(Metadata { description: new_desc, default: old_default }),
        instance_type: new_type,
        format,
        enum_values: new_enum,
        subschemas: Some(SubschemaValidation { any_of: None, one_of }),
        array,
        object,
        extensions,
        other,
    };
    proof {
        let spec_out = spec_hoist_any_of_option_enum(mv)->Ok_0;
        assert(schema_object_view(out) =~~= spec_out);
    }
    Ok(out)
}

} // verus!
