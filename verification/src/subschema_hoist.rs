//! Hoisting of subschema-level declarations into the parent node.
//!
//! `hoist_subschema_properties` moves every property declared by an
//! object-shaped union variant into the parent's property map. In the
//! tagged (`oneOf`) invocation a variant must declare exactly one
//! property, onto which its description is relocated first; in the
//! untagged (`anyOf`) invocation descriptions are dropped. Conflicting
//! redeclarations are hard violations.
//! `hoist_subschema_enum_values` moves each enum-bearing variant's values
//! into the parent's `enum` and removes the variant.

use vstd::prelude::*;

use crate::error::{error_view, Error, ErrorV};
use crate::json::{arr_view, json_list_clone, spec_map_get, spec_map_insert, Json, JsonV};
use crate::model::{
    merge_metadata, metadata_clone, only_item, opt_obj_view, opt_type_list_view, props_view,
    schema_clone, schema_map_get, schema_map_insert, schema_object_clone, schema_object_view,
    schema_view, schemas_view, spec_empty_object, spec_merge_metadata, type_list_clone,
    type_list_eq, InstanceType, Metadata, MetadataV, ObjectValidation, ObjectValidationV, Schema,
    SchemaObjectV, SchemaV, TypeList, TypeListV,
};

verus! {

broadcast use vstd::std_specs::vec::group_vec_axioms, vstd::seq::group_seq_axioms,
    vstd::seq_lib::group_seq_lib_default;

/// Where a tagged variant's description goes before its properties are
/// hoisted: onto its single object-shaped property, when there is exactly
/// one; otherwise it is discarded. The variant's own description is
/// cleared either way.
pub open spec fn spec_relocate_desc(m: SchemaObjectV, vo: ObjectValidationV) -> (
    Option<MetadataV>,
    Seq<(Seq<char>, SchemaV)>,
) {
    match m.metadata {
        None => (None, vo.properties),
        Some(md) => match md.description {
            None => (Some(md), vo.properties),
            Some(desc) => {
                let props = vo.properties;
                if props.len() == 1 && props[0].1 is Object {
                    let po = props[0].1->Object_0;
                    let po1 = SchemaObjectV {
                        metadata: Some(
                            MetadataV {
                                description: Some(desc),
                                default: match po.metadata {
                                    Some(pm) => pm.default,
                                    None => None,
                                },
                            },
                        ),
                        ..po
                    };
                    (
                        Some(MetadataV { description: None, ..md }),
                        props.update(0, (props[0].0, SchemaV::Object(po1))),
                    )
                } else {
                    (Some(MetadataV { description: None, ..md }), props)
                }
            },
        },
    }
}

/// Move every entry of `src` into `dst`: a fresh name is inserted in key
/// order; a name already present must map to an identical schema, and any
/// difference is a hard violation naming the property.
pub open spec fn spec_move_props(
    src: Seq<(Seq<char>, SchemaV)>,
    dst: Seq<(Seq<char>, SchemaV)>,
) -> Result<Seq<(Seq<char>, SchemaV)>, ErrorV>
    decreases src.len(),
{
    if src.len() == 0 {
        Ok(dst)
    } else {
        let k = src[0].0;
        let p = src[0].1;
        match spec_map_get(dst, k) {
            None => spec_move_props(src.drop_first(), spec_map_insert(dst, k, p)),
            Some(existing) => if existing == p {
                spec_move_props(src.drop_first(), dst)
            } else {
                Err(ErrorV::PropertyConflict { name: k, existing, incoming: p })
            },
        }
    }
}

/// What processing one union variant yields: an object-shaped variant has
/// its properties moved to the parent, its `additionalProperties` and
/// `type` cleared, and its type merged into the parent's. In the tagged
/// case the variant must declare exactly one property — anything else is
/// a hard violation — and its description is relocated onto it; in the
/// untagged case descriptions are dropped. A variant without object
/// keywords whose type is exactly `object` is stripped to the empty
/// branch; anything else is untouched.
pub open spec fn spec_props_step(
    v: SchemaV,
    obj: Option<ObjectValidationV>,
    ty: Option<TypeListV>,
    tagged: bool,
) -> Result<(SchemaV, Option<ObjectValidationV>, Option<TypeListV>), ErrorV> {
    match v {
        SchemaV::Bool(_) => Ok((v, obj, ty)),
        SchemaV::Object(m) => match m.object {
            Some(vo) => if tagged && vo.properties.len() != 1 {
                Err(ErrorV::TaggedVariantPropertyCount { count: vo.properties.len() as usize })
            } else {
                let obj0 = match obj {
                    Some(o) => o,
                    None => spec_empty_object(),
                };
                let (vm1, props1) = if tagged {
                    spec_relocate_desc(m, vo)
                } else {
                    (
                        match m.metadata {
                            None => None,
                            Some(md) => Some(MetadataV { description: None, ..md }),
                        },
                        vo.properties,
                    )
                };
                match spec_move_props(props1, obj0.properties) {
                    Err(e) => Err(e),
                    Ok(newprops) => {
                        let v1 = SchemaV::Object(
                            SchemaObjectV {
                                metadata: vm1,
                                instance_type: None,
                                object: Some(
                                    ObjectValidationV {
                                        properties: Seq::empty(),
                                        additional_properties: None,
                                        ..vo
                                    },
                                ),
                                ..m
                            },
                        );
                        match spec_merge_metadata(ty, m.instance_type) {
                            Err(e) => Err(e),
                            Ok(ty1) => Ok(
                                (v1, Some(ObjectValidationV { properties: newprops, ..obj0 }), ty1),
                            ),
                        }
                    },
                }
            },
            None => if m.instance_type == Some(TypeListV::Single(InstanceType::Object)) {
                Ok((SchemaV::Object(SchemaObjectV { metadata: None, instance_type: None, ..m }), obj, ty))
            } else {
                Ok((v, obj, ty))
            },
        },
    }
}

/// What hoisting subschema properties yields: the variants processed in
/// order by `spec_props_step`, threading the parent's object keywords and
/// type through.
pub open spec fn spec_hoist_props(
    vars: Seq<SchemaV>,
    obj: Option<ObjectValidationV>,
    ty: Option<TypeListV>,
    tagged: bool,
) -> Result<(Seq<SchemaV>, Option<ObjectValidationV>, Option<TypeListV>), ErrorV>
    decreases vars.len(),
{
    if vars.len() == 0 {
        Ok((Seq::empty(), obj, ty))
    } else {
        match spec_props_step(vars[0], obj, ty, tagged) {
            Err(e) => Err(e),
            Ok((v1, obj1, ty1)) => match spec_hoist_props(vars.drop_first(), obj1, ty1, tagged) {
                Err(e) => Err(e),
                Ok((rest, obj2, ty2)) => Ok((seq![v1] + rest, obj2, ty2)),
            },
        }
    }
}

/// Bring all property definitions from subschemas up to the parent, since
/// the target format does not allow subschemas to define properties.
/// `tagged` selects the tagged (`oneOf`) treatment — exactly one property
/// per variant, description relocated onto it — over the untagged
/// (`anyOf`) treatment, which drops descriptions. On a hard violation the
/// targets are left mid-rewrite and the caller discards them.
#[verifier::loop_isolation(false)]
#[verifier::rlimit(100)]
pub fn hoist_subschema_properties(
    subschemas: &mut Vec<Schema>,
    common_obj: &mut Option<ObjectValidation>,
    instance_type: &mut Option<TypeList>,
    tagged: bool,
) -> (r: Result<(), Error>)
    ensures
        match r {
            Ok(()) => {
                &&& spec_hoist_props(
                    schemas_view(old(subschemas)@),
                    opt_obj_view(*old(common_obj)),
                    opt_type_list_view(*old(instance_type)),
                    tagged,
                ) matches Ok(st)
                &&& schemas_view(final(subschemas)@) == st.0
                &&& opt_obj_view(*final(common_obj)) == st.1
                &&& opt_type_list_view(*final(instance_type)) == st.2
            },
            Err(e) => {
                &&& spec_hoist_props(
                    schemas_view(old(subschemas)@),
                    opt_obj_view(*old(common_obj)),
                    opt_type_list_view(*old(instance_type)),
                    tagged,
                ) matches Err(ev)
                &&& error_view(e) == ev
            },
        },
{
    let ghost vs = schemas_view(subschemas@);
    let ghost obj0v = opt_obj_view(*common_obj);
    let ghost ty0v = opt_type_list_view(*instance_type);
    let mut cur: Option<ObjectValidation> = common_obj.take();
    let mut new_vars: Vec<Schema> = Vec::new();
    let mut i: usize = 0;
    proof {
        assert(vs.skip(0) =~= vs);
        let r0 = spec_hoist_props(vs, obj0v, ty0v, tagged);
        if r0 is Ok {
            assert(schemas_view(new_vars@) + r0->Ok_0.0 =~= r0->Ok_0.0);
        }
    }
    while i < subschemas.len()
        invariant
            0 <= i <= subschemas.len(),
            subschemas@ == old(subschemas)@,
            spec_hoist_props(vs, obj0v, ty0v, tagged) == (match spec_hoist_props(
                vs.skip(i as int),
                opt_obj_view(cur),
                opt_type_list_view(*instance_type),
                tagged,
            ) {
                Ok((rest, o2, t2)) => Ok::<_, ErrorV>(
                    (schemas_view(new_vars@) + rest, o2, t2),
                ),
                Err(e) => Err(e),
            }),
        decreases subschemas.len() - i,
    {
        let ghost objv_before = opt_obj_view(cur);
        let ghost tyv_before = opt_type_list_view(*instance_type);
        let ghost nv_before = schemas_view(new_vars@);
        proof {
            assert(vs.skip(i as int)[0] == vs[i as int]);
            assert(vs[i as int] == schema_view(subschemas@[i as int]));
            assert(vs.skip(i as int).drop_first() =~= vs.skip(i as int + 1));
        }
        match &subschemas[i] {
            Schema::Bool(b) => {
                new_vars.push(Schema::Bool(*b));
            },
            Schema::Object(m) => {
                match &m.object {
                    Some(vo) => {
                        if tagged && vo.properties.len() != 1 {
                            return Err(
                                Error::TaggedVariantPropertyCount { count: vo.properties.len() },
                            );
                        }
                        let mut co = match cur.take() {
                            Some(o) => o,
                            None => crate::model::empty_object_validation(),
                        };
                        // tagged case: relocate the variant description onto
                        // its single property
                        let mut props_vec = crate::model::props_clone(&vo.properties);
                        let ghost props_before = props_view(props_vec@);
                        let vm1: Option<Metadata> = match &m.metadata {
                            None => None,
                            Some(md) => match &md.description {
                                None => Some(metadata_clone(md)),
                                Some(desc) => {
                                    let is_single_obj = match only_item(&props_vec) {
                                        Some((_, Schema::Object(_))) => true,
                                        _ => false,
                                    };
                                    if tagged && is_single_obj {
                                        let (k0, p0) = props_vec.remove(0);
                                        match p0 {
                                            Schema::Object(mut po) => {
                                                let pd = match po.metadata {
                                                    Some(pm) => pm.default,
                                                    None => None,
                                                };
                                                po.metadata = Some(
                                                    Metadata {
                                                        description: Some(desc.clone()),
                                                        default: pd,
                                                    },
                                                );
                                                props_vec.insert(0, (k0, Schema::Object(po)));
                                            },
                                            Schema::Bool(b) => {
                                                proof {
                                                    assert(false);
                                                }
                                                props_vec.insert(0, (k0, Schema::Bool(b)));
                                            },
                                        }
                                        proof {
                                            let (svm, sprops) = spec_relocate_desc(
                                                schema_object_view(*m),
                                                crate::model::object_validation_view(*vo),
                                            );
                                            assert(props_view(props_vec@) =~~= sprops);
                                        }
                                    }
                                    Some(
                                        Metadata {
                                            description: None,
                                            default: match &md.default {
                                                Some(d) => Some(crate::json::json_clone(d)),
                                                None => None,
                                            },
                                        },
                                    )
                                },
                            },
                        };
                        // move every property into the parent map
                        let ghost src0 = props_view(props_vec@);
                        let ghost dst0 = props_view(co.properties@);
                        let ghost co0v = crate::model::object_validation_view(co);
                        while props_vec.len() > 0
                            invariant
                                spec_move_props(src0, dst0) == spec_move_props(
                                    props_view(props_vec@),
                                    props_view(co.properties@),
                                ),
                                crate::model::object_validation_view(co) == (ObjectValidationV {
                                    properties: props_view(co.properties@),
                                    ..co0v
                                }),
                            decreases props_vec.len(),
                        {
                            let ghost pv = props_vec@;
                            let (k, p) = props_vec.remove(0);
                            proof {
                                assert(props_view(pv)[0] == (pv[0].0@, schema_view(pv[0].1)));
                                assert(pv.remove(0) =~= pv.drop_first());
                                assert(props_view(pv).drop_first() =~= props_view(
                                    pv.drop_first(),
                                ));
                            }
                            match schema_map_get(&co.properties, k.as_str()) {
                                Some(existing) => {
                                    if !crate::model::schema_eq(&p, existing) {
                                        return Err(
                                            Error::PropertyConflict {
                                                name: k,
                                                existing: Box::new(schema_clone(existing)),
                                                incoming: Box::new(p),
                                            },
                                        );
                                    }
                                },
                                None => {
                                    schema_map_insert(&mut co.properties, k, p);
                                },
                            }
                        }
                        proof {
                            assert(props_view(props_vec@) =~= Seq::<(Seq<char>, SchemaV)>::empty());
                        }
                        // rebuild the variant: no type, no properties, no
                        // additionalProperties
                        let mut vm = schema_object_clone(m);
                        vm.instance_type = None;
                        vm.metadata = vm1;
                        let mut voc = match vm.object {
                            Some(o) => o,
                            None => {
                                proof {
                                    assert(false);
                                }
                                crate::model::empty_object_validation()
                            },
                        };
                        voc.properties = Vec::new();
                        voc.additional_properties = None;
                        vm.object = Some(voc);
                        let vt = match &m.instance_type {
                            Some(t) => Some(type_list_clone(t)),
                            None => None,
                        };
                        cur = Some(co);
                        match merge_metadata(instance_type, vt) {
                            Ok(()) => {},
                            Err(e) => {
                                return Err(e);
                            },
                        }
                        proof {
                            assert(props_view(Seq::<(String, Schema)>::empty())
                                =~= Seq::<(Seq<char>, SchemaV)>::empty());
                        }
                        new_vars.push(Schema::Object(vm));
                        proof {
                            let stepr = spec_props_step(
                                vs[i as int],
                                objv_before,
                                tyv_before,
                                tagged,
                            );
                            assert(stepr is Ok);
                            assert(schema_view(new_vars@[new_vars@.len() - 1]) =~~= stepr->Ok_0.0);
                            assert(opt_obj_view(cur) =~~= stepr->Ok_0.1);
                        }
                    },
                    None => {
                        let strip = match &m.instance_type {
                            Some(TypeList::Single(InstanceType::Object)) => true,
                            _ => false,
                        };
                        let mut vm = schema_object_clone(m);
                        if strip {
                            vm.instance_type = None;
                            vm.metadata = None;
                        }
                        new_vars.push(Schema::Object(vm));
                    },
                }
            },
        }
        proof {
            assert(schemas_view(new_vars@) =~= nv_before + seq![
                schema_view(new_vars@[new_vars@.len() - 1]),
            ]);
            let stepr = spec_props_step(vs[i as int], objv_before, tyv_before, tagged);
            if stepr is Ok {
                let restr = spec_hoist_props(
                    vs.skip(i as int + 1),
                    stepr->Ok_0.1,
                    stepr->Ok_0.2,
                    tagged,
                );
                if restr is Ok {
                    assert(nv_before + (seq![stepr->Ok_0.0] + restr->Ok_0.0) =~= schemas_view(
                        new_vars@,
                    ) + restr->Ok_0.0);
                }
            }
        }
        i += 1;
    }
    proof {
        assert(vs.skip(subschemas@.len() as int) =~= Seq::<SchemaV>::empty());
        let rfin = spec_hoist_props(vs, obj0v, ty0v, tagged);
        if rfin is Ok {
            assert(schemas_view(new_vars@) + Seq::<SchemaV>::empty() =~= schemas_view(new_vars@));
        }
    }
    *subschemas = new_vars;
    *common_obj = cur;
    Ok(())
}

/// What hoisting plain enum values yields: each variant that carries an
/// `enum` has its values appended to the parent's `enum` and is removed;
/// its `type`, if declared, must agree with the parent's, and a
/// disagreement is a hard violation naming the variant's enum values and
/// both types. Variants without an `enum` are kept unchanged.
pub open spec fn spec_hoist_enum_values(
    vars: Seq<SchemaV>,
    evs: Option<Seq<JsonV>>,
    ty: Option<TypeListV>,
) -> Result<(Seq<SchemaV>, Option<Seq<JsonV>>, Option<TypeListV>), ErrorV>
    decreases vars.len(),
{
    if vars.len() == 0 {
        Ok((Seq::empty(), evs, ty))
    } else {
        match vars[0] {
            SchemaV::Object(m) => match m.enum_values {
                Some(ve) => {
                    let ty1r = match m.instance_type {
                        None => Ok(ty),
                        Some(vt) => match ty {
                            None => Ok(Some(vt)),
                            Some(t) => if t == vt {
                                Ok(ty)
                            } else {
                                Err(
                                    ErrorV::EnumVariantTypeMismatch {
                                        values: ve,
                                        expected: t,
                                        found: vt,
                                    },
                                )
                            },
                        },
                    };
                    match ty1r {
                        Err(e) => Err(e),
                        Ok(ty1) => {
                            let evs1 = Some(
                                (match evs {
                                    Some(e) => e,
                                    None => Seq::empty(),
                                }) + ve,
                            );
                            spec_hoist_enum_values(vars.drop_first(), evs1, ty1)
                        },
                    }
                },
                None => match spec_hoist_enum_values(vars.drop_first(), evs, ty) {
                    Err(e) => Err(e),
                    Ok((rest, e2, t2)) => Ok((seq![vars[0]] + rest, e2, t2)),
                },
            },
            SchemaV::Bool(_) => match spec_hoist_enum_values(vars.drop_first(), evs, ty) {
                Err(e) => Err(e),
                Ok((rest, e2, t2)) => Ok((seq![vars[0]] + rest, e2, t2)),
            },
        }
    }
}

/// Bring all plain enum values up to the parent schema, since the target
/// format does not allow subschemas to define enum options. On a hard
/// violation the targets are left mid-rewrite and the caller discards
/// them.
#[verifier::loop_isolation(false)]
pub fn hoist_subschema_enum_values(
    subschemas: &mut Vec<Schema>,
    common_enum_values: &mut Option<Vec<Json>>,
    instance_type: &mut Option<TypeList>,
) -> (r: Result<(), Error>)
    ensures
        match r {
            Ok(()) => {
                &&& spec_hoist_enum_values(
                    schemas_view(old(subschemas)@),
                    opt_enum_view(*old(common_enum_values)),
                    opt_type_list_view(*old(instance_type)),
                ) matches Ok(st)
                &&& schemas_view(final(subschemas)@) == st.0
                &&& opt_enum_view(*final(common_enum_values)) == st.1
                &&& opt_type_list_view(*final(instance_type)) == st.2
            },
            Err(e) => {
                &&& spec_hoist_enum_values(
                    schemas_view(old(subschemas)@),
                    opt_enum_view(*old(common_enum_values)),
                    opt_type_list_view(*old(instance_type)),
                ) matches Err(ev)
                &&& error_view(e) == ev
            },
        },
{
    let ghost vs = schemas_view(subschemas@);
    let ghost evs0 = opt_enum_view(*common_enum_values);
    let ghost ty0 = opt_type_list_view(*instance_type);
    let mut cur_evs: Option<Vec<Json>> = common_enum_values.take();
    let mut new_vars: Vec<Schema> = Vec::new();
    let mut i: usize = 0;
    proof {
        assert(vs.skip(0) =~= vs);
        let r0 = spec_hoist_enum_values(vs, evs0, ty0);
        if r0 is Ok {
            assert(schemas_view(new_vars@) + r0->Ok_0.0 =~= r0->Ok_0.0);
        }
    }
    while i < subschemas.len()
        invariant
            0 <= i <= subschemas.len(),
            subschemas@ == old(subschemas)@,
            spec_hoist_enum_values(vs, evs0, ty0) == (match spec_hoist_enum_values(
                vs.skip(i as int),
                opt_enum_view(cur_evs),
                opt_type_list_view(*instance_type),
            ) {
                Ok((rest, e2, t2)) => Ok::<_, ErrorV>(
                    (schemas_view(new_vars@) + rest, e2, t2),
                ),
                Err(e) => Err(e),
            }),
        decreases subschemas.len() - i,
    {
        let ghost evs_before = opt_enum_view(cur_evs);
        let ghost ty_before = opt_type_list_view(*instance_type);
        let ghost nv_before = schemas_view(new_vars@);
        proof {
            assert(vs.skip(i as int)[0] == vs[i as int]);
            assert(vs[i as int] == schema_view(subschemas@[i as int]));
            assert(vs.skip(i as int).drop_first() =~= vs.skip(i as int + 1));
        }
        let mut hoisted = false;
        match &subschemas[i] {
            Schema::Object(m) => match &m.enum_values {
                Some(ve) => {
                    match &m.instance_type {
                        None => {},
                        Some(vt) => {
                            let established = instance_type.take();
                            match established {
                                None => {
                                    *instance_type = Some(type_list_clone(vt));
                                },
                                Some(ct) => {
                                    if type_list_eq(&ct, vt) {
                                        *instance_type = Some(ct);
                                    } else {
                                        let r = Error::EnumVariantTypeMismatch {
                                            values: json_list_clone(ve),
                                            expected: type_list_clone(&ct),
                                            found: type_list_clone(vt),
                                        };
                                        *instance_type = Some(ct);
                                        return Err(r);
                                    }
                                },
                            }
                        },
                    }
                    let mut acc = match cur_evs.take() {
                        Some(e) => e,
                        None => Vec::new(),
                    };
                    let ghost acc0 = acc@;
                    let mut c = json_list_clone(ve);
                    let ghost cv = c@;
                    acc.append(&mut c);
                    proof {
                        crate::json::lemma_arr_view_concat(acc0, cv);
                        assert(arr_view(acc@) =~= arr_view(acc0) + arr_view(ve@));
                        if evs_before is None {
                            assert(arr_view(acc0) =~= Seq::<JsonV>::empty());
                            assert(Seq::<JsonV>::empty() + arr_view(ve@) =~= arr_view(ve@));
                        }
                    }
                    cur_evs = Some(acc);
                    hoisted = true;
                },
                None => {
                    let vm = schema_object_clone(m);
                    new_vars.push(Schema::Object(vm));
                },
            },
            Schema::Bool(b) => {
                new_vars.push(Schema::Bool(*b));
            },
        }
        proof {
            if !hoisted {
                assert(schemas_view(new_vars@) =~= nv_before + seq![
                    schema_view(new_vars@[new_vars@.len() - 1]),
                ]);
            }
            let restr = spec_hoist_enum_values(
                vs.skip(i as int + 1),
                opt_enum_view(cur_evs),
                opt_type_list_view(*instance_type),
            );
            if !hoisted && restr is Ok {
                assert(nv_before + (seq![vs[i as int]] + restr->Ok_0.0) =~= schemas_view(new_vars@)
                    + restr->Ok_0.0);
            }
        }
        i += 1;
    }
    proof {
        assert(vs.skip(subschemas@.len() as int) =~= Seq::<SchemaV>::empty());
        let rfin = spec_hoist_enum_values(vs, evs0, ty0);
        if rfin is Ok {
            assert(schemas_view(new_vars@) + Seq::<SchemaV>::empty() =~= schemas_view(new_vars@));
        }
    }
    *subschemas = new_vars;
    *common_enum_values = cur_evs;
    Ok(())
}

/// The model of an optional enum value list.
pub open spec fn opt_enum_view(e: Option<Vec<Json>>) -> Option<Seq<JsonV>> {
    match e {
        Some(v) => Some(arr_view(v@)),
        None => None,
    }
}

} // verus!
