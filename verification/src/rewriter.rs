//! The rewrite pipeline and the recursive transform driver.
//!
//! Every child-schema slot of a node is transformed before the node
//! itself. At each node the driver attempts to decode the node into the
//! typed model; a node that does not decode is left untouched. A decoded
//! node runs through the passes in fixed order and is re-encoded. A hard
//! structural violation aborts the whole run and the document is left as
//! it was.

use vstd::prelude::*;

use crate::decode::{decode_schema_object, spec_dec_schema_object};
use crate::encode::{encode_schema_object, spec_enc_schema_object};
use crate::error::{error_view, Error, ErrorV};
use crate::hoist_enum::{
    hoist_any_of_option_enum, hoist_one_of_enum, spec_hoist_any_of_option_enum,
    spec_hoist_one_of_enum,
};
use crate::json::{
    arr_view, json_clone, json_map_insert, json_view, obj_view, spec_map_insert, str_eq, Json,
    JsonV,
};
use crate::model::{
    schema_object_view, schemas_view, ObjectValidationV, Schema, SchemaObject,
    SchemaObjectV, SchemaV, SubschemaValidation, SubschemasV,
};
use crate::subschema_hoist::{
    hoist_subschema_enum_values, hoist_subschema_properties, spec_hoist_enum_values,
    spec_hoist_props,
};

verus! {

broadcast use vstd::std_specs::vec::group_vec_axioms, vstd::seq::group_seq_axioms,
    vstd::seq_lib::group_seq_lib_default;

/// What the subschema hoisting steps yield: with a populated `oneOf`,
/// its object properties (tagged treatment, discriminant descriptions
/// preserved) and then its plain enum values are hoisted and an emptied
/// `oneOf` is cleared; with a populated `anyOf`, its object properties
/// are hoisted without description preservation. Both populated at once
/// is a hard violation.
pub open spec fn spec_subschema_steps(m: SchemaObjectV) -> Result<SchemaObjectV, ErrorV> {
    match m.subschemas {
        None => Ok(m),
        Some(subs) => {
            let both = match (subs.any_of, subs.one_of) {
                (Some(a), Some(o)) => a.len() > 0 && o.len() > 0,
                _ => false,
            };
            if both {
                Err(ErrorV::OneOfAnyOfConflict)
            } else {
                let step3 = match subs.one_of {
                    None => Ok((m.object, m.instance_type, m.enum_values, None::<Seq<SchemaV>>)),
                    Some(one_of) => match spec_hoist_props(
                        one_of,
                        m.object,
                        m.instance_type,
                        true,
                    ) {
                        Err(e) => Err(e),
                        Ok((one_of1, obj1, ty1)) => match spec_hoist_enum_values(
                            one_of1,
                            m.enum_values,
                            ty1,
                        ) {
                            Err(e) => Err(e),
                            Ok((one_of2, evs2, ty2)) => Ok(
                                (
                                    obj1,
                                    ty2,
                                    evs2,
                                    if one_of2.len() == 0 {
                                        None
                                    } else {
                                        Some(one_of2)
                                    },
                                ),
                            ),
                        },
                    },
                };
                match step3 {
                    Err(e) => Err(e),
                    Ok((obj1, ty1, evs1, one_of1)) => {
                        let step4 = match subs.any_of {
                            None => Ok((obj1, ty1, None::<Seq<SchemaV>>)),
                            Some(any_of) => match spec_hoist_props(any_of, obj1, ty1, false) {
                                Err(e) => Err(e),
                                Ok((any_of1, obj2, ty2)) => Ok((obj2, ty2, Some(any_of1))),
                            },
                        };
                        match step4 {
                            Err(e) => Err(e),
                            Ok((obj2, ty2, any_of1)) => Ok(
                                SchemaObjectV {
                                    instance_type: ty2,
                                    enum_values: evs1,
                                    subschemas: Some(
                                        SubschemasV { any_of: any_of1, one_of: one_of1 },
                                    ),
                                    object: obj2,
                                    ..m
                                },
                            ),
                        }
                    },
                }
            }
        },
    }
}

/// What the keyword fixups yield: `additionalProperties == true` beside
/// non-empty `properties` is replaced by the preserve-unknown-fields
/// extension, and `uniqueItems` is always cleared.
pub open spec fn spec_fixups(m: SchemaObjectV) -> SchemaObjectV {
    let m1 = match m.object {
        Some(ov) => if ov.properties.len() > 0 && (ov.additional_properties matches Some(b)
            && *b == SchemaV::Bool(true)) {
            SchemaObjectV {
                object: Some(ObjectValidationV { additional_properties: None, ..ov }),
                extensions: spec_map_insert(
                    m.extensions,
                    "x-kubernetes-preserve-unknown-fields"@,
                    JsonV::Bool(true),
                ),
                ..m
            }
        } else {
            m
        },
        None => m,
    };
    match m1.array {
        Some(av) => SchemaObjectV {
            array: Some(crate::model::ArrayValidationV { unique_items: None, ..av }),
            ..m1
        },
        None => m1,
    }
}

/// What one node's pass pipeline yields, in fixed order: the `oneOf`
/// enum hoist, the `anyOf` nullable-optional hoist, the subschema
/// property and enum hoists, and the keyword fixups.
pub open spec fn spec_apply_passes(m: SchemaObjectV) -> Result<SchemaObjectV, ErrorV> {
    match spec_hoist_one_of_enum(m) {
        Err(e) => Err(e),
        Ok(m1) => match spec_hoist_any_of_option_enum(m1) {
            Err(e) => Err(e),
            Ok(m2) => match spec_subschema_steps(m2) {
                Err(e) => Err(e),
                Ok(m3) => Ok(spec_fixups(m3)),
            },
        },
    }
}

/// Run one node's pass pipeline.
#[verifier::rlimit(100)]
pub fn apply_passes(m: SchemaObject) -> (r: Result<SchemaObject, Error>)
    ensures
        match r {
            Ok(out) => {
                &&& spec_apply_passes(schema_object_view(m)) matches Ok(v)
                &&& schema_object_view(out) == v
            },
            Err(e) => {
                &&& spec_apply_passes(schema_object_view(m)) matches Err(ev)
                &&& error_view(e) == ev
            },
        },
{
    let ghost mv = schema_object_view(m);
    let m1 = match hoist_one_of_enum(m) {
        Ok(x) => x,
        Err(e) => {
            return Err(e);
        },
    };
    let m2 = match hoist_any_of_option_enum(m1) {
        Ok(x) => x,
        Err(e) => {
            return Err(e);
        },
    };
    let ghost m2v = schema_object_view(m2);
    let SchemaObject {
        metadata,
        instance_type,
        format,
        enum_values,
        subschemas,
        array,
        object,
        extensions,
        other,
    } = m2;
    let mut instance_type = instance_type;
    let mut enum_values = enum_values;
    let mut object = object;
    let mut extensions = extensions;
    let subschemas = match subschemas {
        None => None,
        Some(SubschemaValidation { any_of, one_of }) => {
            let both = match (&any_of, &one_of) {
                (Some(a), Some(o)) => a.len() > 0 && o.len() > 0,
                _ => false,
            };
            if both {
                return Err(Error::OneOfAnyOfConflict);
            }
            let one_of = match one_of {
                None => None,
                Some(mut v) => {
                    match hoist_subschema_properties(&mut v, &mut object, &mut instance_type, true)
                        {
                        Ok(()) => {},
                        Err(e) => {
                            return Err(e);
                        },
                    }
                    match hoist_subschema_enum_values(&mut v, &mut enum_values, &mut instance_type)
                        {
                        Ok(()) => {},
                        Err(e) => {
                            return Err(e);
                        },
                    }
                    if v.len() == 0 {
                        proof {
                            assert(schemas_view(v@) =~= Seq::<SchemaV>::empty());
                        }
                        None
                    } else {
                        Some(v)
                    }
                },
            };
            let any_of = match any_of {
                None => None,
                Some(mut v) => {
                    match hoist_subschema_properties(
                        &mut v,
                        &mut object,
                        &mut instance_type,
                        false,
                    ) {
                        Ok(()) => {},
                        Err(e) => {
                            return Err(e);
                        },
                    }
                    Some(v)
                },
            };
            Some(SubschemaValidation { any_of, one_of })
        },
    };
    // map-shape fixup
    let object = match object {
        Some(mut ov) => {
            let is_true_schema = match &ov.additional_properties {
                Some(b) => match &**b {
                    Schema::Bool(true) => true,
                    _ => false,
                },
                None => false,
            };
            if ov.properties.len() > 0 && is_true_schema {
                ov.additional_properties = None;
                json_map_insert(
                    &mut extensions,
                    "x-kubernetes-preserve-unknown-fields".to_owned(),
                    Json::Bool(true),
                );
            }
            Some(ov)
        },
        None => None,
    };
    // array fixup
    let array = match array {
        Some(mut av) => {
            av.unique_items = None;
            Some(av)
        },
        None => None,
    };
    let out = SchemaObject {
        metadata,
        instance_type,
        format,
        enum_values,
        subschemas,
        array,
        object,
        extensions,
        other,
    };
    proof {
        let sv = spec_apply_passes(mv)->Ok_0;
        assert(schema_object_view(out) =~~= sv);
    }
    Ok(out)
}

/// What transforming one child-schema slot yields: `anyOf`/`oneOf` and
/// an array-shaped `items` transform each element, `properties` and
/// `patternProperties` transform each member value, and the remaining
/// single-schema slots transform their value directly. Any other keyword
/// is left as it is.
pub open spec fn spec_transform_slot(k: Seq<char>, v: JsonV) -> Result<JsonV, ErrorV>
    decreases v, 10int,
{
    if k == "anyOf"@ || k == "oneOf"@ {
        match v {
            JsonV::Arr(a) => match spec_transform_seq(a) {
                Ok(a1) => Ok(JsonV::Arr(a1)),
                Err(e) => Err(e),
            },
            _ => Ok(v),
        }
    } else if k == "items"@ {
        match v {
            JsonV::Arr(a) => match spec_transform_seq(a) {
                Ok(a1) => Ok(JsonV::Arr(a1)),
                Err(e) => Err(e),
            },
            _ => spec_transform(v),
        }
    } else if k == "additionalItems"@ || k == "contains"@ || k == "additionalProperties"@
        || k == "propertyNames"@ {
        spec_transform(v)
    } else if k == "properties"@ || k == "patternProperties"@ {
        match v {
            JsonV::Obj(po) => match spec_transform_obj_values(po) {
                Ok(po1) => Ok(JsonV::Obj(po1)),
                Err(e) => Err(e),
            },
            _ => Ok(v),
        }
    } else {
        Ok(v)
    }
}

/// The elements of a list, each transformed.
pub open spec fn spec_transform_seq(a: Seq<JsonV>) -> Result<Seq<JsonV>, ErrorV>
    decreases a, 10int,
{
    if a.len() == 0 {
        Ok(Seq::empty())
    } else {
        match spec_transform(a[0]) {
            Err(e) => Err(e),
            Ok(v1) => match spec_transform_seq(a.drop_first()) {
                Err(e) => Err(e),
                Ok(rest) => Ok(seq![v1] + rest),
            },
        }
    }
}

/// The member values of an object, each transformed; keys are kept.
pub open spec fn spec_transform_obj_values(po: Seq<(Seq<char>, JsonV)>) -> Result<
    Seq<(Seq<char>, JsonV)>,
    ErrorV,
>
    decreases po, 10int,
{
    if po.len() == 0 {
        Ok(Seq::empty())
    } else {
        match spec_transform(po[0].1) {
            Err(e) => Err(e),
            Ok(v1) => match spec_transform_obj_values(po.drop_first()) {
                Err(e) => Err(e),
                Ok(rest) => Ok(seq![(po[0].0, v1)] + rest),
            },
        }
    }
}

/// The entries of a node with every child-schema slot transformed.
pub open spec fn spec_transform_entries(entries: Seq<(Seq<char>, JsonV)>) -> Result<
    Seq<(Seq<char>, JsonV)>,
    ErrorV,
>
    decreases entries, 9int,
{
    if entries.len() == 0 {
        Ok(Seq::empty())
    } else {
        match spec_transform_slot(entries[0].0, entries[0].1) {
            Err(e) => Err(e),
            Ok(v1) => match spec_transform_entries(entries.drop_first()) {
                Err(e) => Err(e),
                Ok(rest) => Ok(seq![(entries[0].0, v1)] + rest),
            },
        }
    }
}

/// A node with its children transformed; a node that is not an object
/// has no child-schema slots.
pub open spec fn spec_transform_children(j: JsonV) -> Result<JsonV, ErrorV>
    decreases j, 8int,
{
    match j {
        JsonV::Obj(entries) => match spec_transform_entries(entries) {
            Ok(es) => Ok(JsonV::Obj(es)),
            Err(e) => Err(e),
        },
        _ => Ok(j),
    }
}

/// What transforming a node yields: its children are transformed first;
/// then, if the node decodes into the typed model, the pass pipeline
/// runs and the result is re-encoded; a node that does not decode is
/// left as it stands.
pub open spec fn spec_transform(j: JsonV) -> Result<JsonV, ErrorV>
    decreases j, 9int,
{
    match spec_transform_children(j) {
        Err(e) => Err(e),
        Ok(j1) => match j1 {
            JsonV::Obj(entries) => match spec_dec_schema_object(entries) {
                None => Ok(j1),
                Some(m) => match spec_apply_passes(m) {
                    Err(e) => Err(e),
                    Ok(m2) => Ok(spec_enc_schema_object(m2)),
                },
            },
            _ => Ok(j1),
        },
    }
}

/// Transform one child-schema slot.
#[verifier::loop_isolation(false)]
pub fn transform_slot(k: &str, v: &Json) -> (r: Result<Json, Error>)
    ensures
        match r {
            Ok(out) => {
                &&& spec_transform_slot(k@, json_view(*v)) matches Ok(ov)
                &&& json_view(out) == ov
            },
            Err(e) => {
                &&& spec_transform_slot(k@, json_view(*v)) matches Err(ev)
                &&& error_view(e) == ev
            },
        },
    decreases v, 10int,
{
    if str_eq(k, "anyOf") || str_eq(k, "oneOf") {
        match v {
            Json::Arr(a) => match transform_seq(a) {
                Ok(a1) => Ok(Json::Arr(a1)),
                Err(e) => Err(e),
            },
            _ => Ok(json_clone(v)),
        }
    } else if str_eq(k, "items") {
        match v {
            Json::Arr(a) => match transform_seq(a) {
                Ok(a1) => Ok(Json::Arr(a1)),
                Err(e) => Err(e),
            },
            _ => transform_json(v),
        }
    } else if str_eq(k, "additionalItems") || str_eq(k, "contains") || str_eq(
        k,
        "additionalProperties",
    ) || str_eq(k, "propertyNames") {
        transform_json(v)
    } else if str_eq(k, "properties") || str_eq(k, "patternProperties") {
        match v {
            Json::Obj(po) => match transform_obj_values(po) {
                Ok(po1) => Ok(Json::Obj(po1)),
                Err(e) => Err(e),
            },
            _ => Ok(json_clone(v)),
        }
    } else {
        Ok(json_clone(v))
    }
}

/// Transform the elements of a list.
#[verifier::loop_isolation(false)]
pub fn transform_seq(a: &Vec<Json>) -> (r: Result<Vec<Json>, Error>)
    ensures
        match r {
            Ok(out) => {
                &&& spec_transform_seq(arr_view(a@)) matches Ok(ov)
                &&& arr_view(out@) == ov
            },
            Err(e) => {
                &&& spec_transform_seq(arr_view(a@)) matches Err(ev)
                &&& error_view(e) == ev
            },
        },
    decreases a, 10int,
{
    let ghost av = arr_view(a@);
    let mut out: Vec<Json> = Vec::new();
    let mut i: usize = 0;
    proof {
        assert(av.skip(0) =~= av);
        let r0 = spec_transform_seq(av);
        if r0 is Ok {
            assert(arr_view(out@) + r0->Ok_0 =~= r0->Ok_0);
        }
    }
    while i < a.len()
        invariant
            0 <= i <= a.len(),
            spec_transform_seq(av) == (match spec_transform_seq(av.skip(i as int)) {
                Ok(rest) => Ok::<_, ErrorV>(arr_view(out@) + rest),
                Err(e) => Err(e),
            }),
        decreases a.len() - i,
    {
        let ghost out0 = arr_view(out@);
        proof {
            assert(av.skip(i as int)[0] == av[i as int]);
            assert(av[i as int] == json_view(a@[i as int]));
            assert(av.skip(i as int).drop_first() =~= av.skip(i as int + 1));
        }
        match transform_json(&a[i]) {
            Ok(v1) => {
                out.push(v1);
                proof {
                    assert(arr_view(out@) =~= out0 + seq![json_view(out@[out@.len() - 1])]);
                    let restr = spec_transform_seq(av.skip(i as int + 1));
                    if restr is Ok {
                        assert(out0 + (seq![json_view(out@[out@.len() - 1])] + restr->Ok_0)
                            =~= arr_view(out@) + restr->Ok_0);
                    }
                }
            },
            Err(e) => {
                return Err(e);
            },
        }
        i += 1;
    }
    proof {
        assert(av.skip(a@.len() as int) =~= Seq::<JsonV>::empty());
        assert(arr_view(out@) + Seq::<JsonV>::empty() =~= arr_view(out@));
    }
    Ok(out)
}

/// Transform the member values of an object.
#[verifier::loop_isolation(false)]
pub fn transform_obj_values(po: &Vec<(String, Json)>) -> (r: Result<Vec<(String, Json)>, Error>)
    ensures
        match r {
            Ok(out) => {
                &&& spec_transform_obj_values(obj_view(po@)) matches Ok(ov)
                &&& obj_view(out@) == ov
            },
            Err(e) => {
                &&& spec_transform_obj_values(obj_view(po@)) matches Err(ev)
                &&& error_view(e) == ev
            },
        },
    decreases po, 10int,
{
    let ghost pv = obj_view(po@);
    let mut out: Vec<(String, Json)> = Vec::new();
    let mut i: usize = 0;
    proof {
        assert(pv.skip(0) =~= pv);
        let r0 = spec_transform_obj_values(pv);
        if r0 is Ok {
            assert(obj_view(out@) + r0->Ok_0 =~= r0->Ok_0);
        }
    }
    while i < po.len()
        invariant
            0 <= i <= po.len(),
            spec_transform_obj_values(pv) == (match spec_transform_obj_values(pv.skip(i as int)) {
                Ok(rest) => Ok::<_, ErrorV>(obj_view(out@) + rest),
                Err(e) => Err(e),
            }),
        decreases po.len() - i,
    {
        let ghost out0 = obj_view(out@);
        proof {
            assert(pv.skip(i as int)[0] == pv[i as int]);
            assert(pv[i as int] == (po@[i as int].0@, json_view(po@[i as int].1)));
            assert(pv.skip(i as int).drop_first() =~= pv.skip(i as int + 1));
        }
        let entry = &po[i];
        match transform_json(&entry.1) {
            Ok(v1) => {
                let ck = entry.0.clone();
                out.push((ck, v1));
                proof {
                    assert(obj_view(out@) =~= out0 + seq![
                        (out@[out@.len() - 1].0@, json_view(out@[out@.len() - 1].1)),
                    ]);
                    let restr = spec_transform_obj_values(pv.skip(i as int + 1));
                    if restr is Ok {
                        assert(out0 + (seq![
                            (pv[i as int].0, json_view(out@[out@.len() - 1].1)),
                        ] + restr->Ok_0) =~= obj_view(out@) + restr->Ok_0);
                    }
                }
            },
            Err(e) => {
                return Err(e);
            },
        }
        i += 1;
    }
    proof {
        assert(pv.skip(po@.len() as int) =~= Seq::<(Seq<char>, JsonV)>::empty());
        assert(obj_view(out@) + Seq::<(Seq<char>, JsonV)>::empty() =~= obj_view(out@));
    }
    Ok(out)
}

/// Transform a node, children first, then the node itself.
#[verifier::loop_isolation(false)]
pub fn transform_json(j: &Json) -> (r: Result<Json, Error>)
    ensures
        match r {
            Ok(out) => {
                &&& spec_transform(json_view(*j)) matches Ok(ov)
                &&& json_view(out) == ov
            },
            Err(e) => {
                &&& spec_transform(json_view(*j)) matches Err(ev)
                &&& error_view(e) == ev
            },
        },
    decreases j, 9int,
{
    let j1 = match j {
        Json::Obj(entries) => {
            let ghost ev = obj_view(entries@);
            let mut out: Vec<(String, Json)> = Vec::new();
            let mut i: usize = 0;
            proof {
                assert(ev.skip(0) =~= ev);
                let r0 = spec_transform_entries(ev);
                if r0 is Ok {
                    assert(obj_view(out@) + r0->Ok_0 =~= r0->Ok_0);
                }
            }
            while i < entries.len()
                invariant
                    0 <= i <= entries.len(),
                    spec_transform_entries(ev) == (match spec_transform_entries(
                        ev.skip(i as int),
                    ) {
                        Ok(rest) => Ok::<_, ErrorV>(obj_view(out@) + rest),
                        Err(e) => Err(e),
                    }),
                decreases entries.len() - i,
            {
                let ghost out0 = obj_view(out@);
                proof {
                    assert(ev.skip(i as int)[0] == ev[i as int]);
                    assert(ev[i as int] == (entries@[i as int].0@, json_view(
                        entries@[i as int].1,
                    )));
                    assert(ev.skip(i as int).drop_first() =~= ev.skip(i as int + 1));
                }
                let entry = &entries[i];
                match transform_slot(entry.0.as_str(), &entry.1) {
                    Ok(v1) => {
                        let ck = entry.0.clone();
                        out.push((ck, v1));
                        proof {
                            assert(obj_view(out@) =~= out0 + seq![
                                (out@[out@.len() - 1].0@, json_view(out@[out@.len() - 1].1)),
                            ]);
                            let restr = spec_transform_entries(ev.skip(i as int + 1));
                            if restr is Ok {
                                assert(out0 + (seq![
                                    (ev[i as int].0, json_view(out@[out@.len() - 1].1)),
                                ] + restr->Ok_0) =~= obj_view(out@) + restr->Ok_0);
                            }
                        }
                    },
                    Err(e) => {
                        return Err(e);
                    },
                }
                i += 1;
            }
            proof {
                assert(ev.skip(entries@.len() as int) =~= Seq::<(Seq<char>, JsonV)>::empty());
                assert(obj_view(out@) + Seq::<(Seq<char>, JsonV)>::empty() =~= obj_view(out@));
            }
            Json::Obj(out)
        },
        _ => json_clone(j),
    };
    match &j1 {
        Json::Obj(es) => match decode_schema_object(es) {
            None => Ok(j1),
            Some(m) => match apply_passes(m) {
                Ok(m2) => Ok(encode_schema_object(&m2)),
                Err(e) => Err(e),
            },
        },
        _ => Ok(j1),
    }
}

/// Rewrites a schema document to conform to the structural-schema rules:
/// enums are hoisted from `oneOf`, untagged unions from `anyOf`, and
/// `additionalProperties == true` beside declared properties becomes the
/// preserve-unknown-fields extension.
pub struct StructuralSchemaRewriter;

impl StructuralSchemaRewriter {
    /// Rewrite a whole document in place, children before parents. On a
    /// hard structural violation the document is left as it was and the
    /// violation is returned.
    pub fn transform(&mut self, schema: &mut Json) -> (r: Result<(), Error>)
        ensures
            match r {
                Ok(()) => {
                    &&& spec_transform(json_view(*old(schema))) matches Ok(ov)
                    &&& json_view(*final(schema)) == ov
                },
                Err(e) => {
                    &&& spec_transform(json_view(*old(schema))) matches Err(ev)
                    &&& error_view(e) == ev
                    &&& *final(schema) == *old(schema)
                },
            },
    {
        match transform_json(schema) {
            Ok(out) => {
                *schema = out;
                Ok(())
            },
            Err(e) => Err(e),
        }
    }
}

} // verus!
