//! Property hoisting for whole nodes, covering both the tagged (`oneOf`)
//! and untagged (`anyOf`) cases.
//!
//! Every property declared by a union variant moves into the node's own
//! property map; a tagged variant's description is first relocated onto
//! its single property. Conflicting redeclarations, a tagged variant with
//! other than one property, and simultaneous `oneOf`+`anyOf` are hard
//! violations, on which the node is left unchanged.

use vstd::prelude::*;

use crate::error::{error_view, Error, ErrorV};
use crate::hoist_enum::{is_null_marker, spec_is_null_marker};
use crate::json::{spec_map_get, spec_map_insert};
use crate::model::{
    metadata_clone, object_clone, opt_obj_view, props_clone, props_view, schema_clone,
    schema_eq, schema_map_get, schema_map_insert, schema_object_clone, schema_object_view,
    schema_view, schemas_view, spec_empty_object, InstanceType, ObjectValidation,
    ObjectValidationV, Schema, SchemaObject, SchemaObjectV, SchemaV, SubschemaValidation,
    SubschemasV, TypeList, TypeListV,
};

verus! {

broadcast use vstd::std_specs::vec::group_vec_axioms, vstd::seq::group_seq_axioms,
    vstd::seq_lib::group_seq_lib_default;

/// What the property-moving loop yields: entries of `src` are taken from
/// the front; an object-shaped entry is hoisted into the parent (created
/// on first use), where a fresh name is inserted in key order and an
/// existing name must map to an identical schema; a boolean entry is
/// discarded and stops the loop, leaving the rest in place.
pub open spec fn spec_pop_props(
    src: Seq<(Seq<char>, SchemaV)>,
    parent: Option<ObjectValidationV>,
) -> Result<(Seq<(Seq<char>, SchemaV)>, Option<ObjectValidationV>), ErrorV>
    decreases src.len(),
{
    if src.len() == 0 {
        Ok((src, parent))
    } else {
        let k = src[0].0;
        let p = src[0].1;
        match p {
            SchemaV::Bool(_) => Ok((src.drop_first(), parent)),
            SchemaV::Object(_) => {
                let par0 = match parent {
                    Some(o) => o,
                    None => spec_empty_object(),
                };
                match spec_map_get(par0.properties, k) {
                    Some(existing) => if existing == p {
                        spec_pop_props(src.drop_first(), Some(par0))
                    } else {
                        Err(ErrorV::PropertyConflict { name: k, existing, incoming: p })
                    },
                    None => spec_pop_props(
                        src.drop_first(),
                        Some(
                            ObjectValidationV {
                                properties: spec_map_insert(par0.properties, k, p),
                                ..par0
                            },
                        ),
                    ),
                }
            },
        }
    }
}

/// What processing one variant yields: its metadata and type are
/// stripped; if it has object keywords, its `additionalProperties` is
/// cleared and its properties are hoisted into the parent — in the tagged
/// case after the variant's metadata has been relocated onto its single
/// property, which must not already carry metadata.
pub open spec fn spec_any_step(
    v: SchemaV,
    parent: Option<ObjectValidationV>,
    preserve: bool,
) -> Result<(SchemaV, Option<ObjectValidationV>), ErrorV> {
    match v {
        SchemaV::Bool(_) => Err(ErrorV::BoolVariant),
        SchemaV::Object(m) => match m.object {
            None => Ok(
                (SchemaV::Object(SchemaObjectV { metadata: None, instance_type: None, ..m }), parent),
            ),
            Some(vo) => if preserve && vo.properties.len() != 1 {
                Err(ErrorV::TaggedVariantPropertyCount { count: vo.properties.len() as usize })
            } else {
                let props1r = if preserve {
                    let pk = vo.properties[0].0;
                    match vo.properties[0].1 {
                        SchemaV::Object(po) => if po.metadata is Some {
                            Err(ErrorV::PropertyMetadataAlreadySet)
                        } else {
                            Ok(
                                seq![
                                    (pk, SchemaV::Object(SchemaObjectV { metadata: m.metadata, ..po })),
                                ],
                            )
                        },
                        SchemaV::Bool(_) => Ok(vo.properties),
                    }
                } else {
                    Ok(vo.properties)
                };
                match props1r {
                    Err(e) => Err(e),
                    Ok(props1) => match spec_pop_props(props1, parent) {
                        Err(e) => Err(e),
                        Ok((remaining, parent1)) => Ok(
                            (
                                SchemaV::Object(
                                    SchemaObjectV {
                                        metadata: None,
                                        instance_type: None,
                                        object: Some(
                                            ObjectValidationV {
                                                properties: remaining,
                                                additional_properties: None,
                                                ..vo
                                            },
                                        ),
                                        ..m
                                    },
                                ),
                                parent1,
                            ),
                        ),
                    },
                }
            },
        },
    }
}

/// The variants processed in order by `spec_any_step`, threading the
/// parent's object keywords through.
pub open spec fn spec_any_fold(
    vars: Seq<SchemaV>,
    parent: Option<ObjectValidationV>,
    preserve: bool,
) -> Result<(Seq<SchemaV>, Option<ObjectValidationV>), ErrorV>
    decreases vars.len(),
{
    if vars.len() == 0 {
        Ok((Seq::empty(), parent))
    } else {
        match spec_any_step(vars[0], parent, preserve) {
            Err(e) => Err(e),
            Ok((v1, parent1)) => match spec_any_fold(vars.drop_first(), parent1, preserve) {
                Err(e) => Err(e),
                Ok((rest, parent2)) => Ok((seq![v1] + rest, parent2)),
            },
        }
    }
}

/// What hoisting into the node yields for one union list: nothing when
/// the list is empty or is a two-entry list containing the canonical null
/// marker; a hard violation when a variant is a boolean schema; otherwise
/// the variants are folded, the node's type becomes `object`, and the
/// transformed list replaces the original.
pub open spec fn spec_hoist_into(
    m: SchemaObjectV,
    subs: SubschemasV,
    vars: Seq<SchemaV>,
    is_one_of: bool,
    preserve: bool,
) -> Result<SchemaObjectV, ErrorV> {
    if vars.len() == 0 {
        Ok(m)
    } else if vars.len() == 2 && (spec_is_null_marker(vars[0]) || spec_is_null_marker(vars[1])) {
        Ok(m)
    } else if exists|i: int| 0 <= i < vars.len() && vars[i] is Bool {
        Err(ErrorV::BoolVariant)
    } else {
        match spec_any_fold(vars, m.object, preserve) {
            Err(e) => Err(e),
            Ok((vars1, parent1)) => Ok(
                SchemaObjectV {
                    instance_type: Some(TypeListV::Single(InstanceType::Object)),
                    subschemas: Some(
                        if is_one_of {
                            SubschemasV { one_of: Some(vars1), ..subs }
                        } else {
                            SubschemasV { any_of: Some(vars1), ..subs }
                        },
                    ),
                    object: parent1,
                    ..m
                },
            ),
        }
    }
}

/// What hoisting subschema properties yields for a whole node: the
/// `oneOf` list is hoisted preserving discriminant descriptions, or the
/// `anyOf` list without; both populated at once is a hard violation.
pub open spec fn spec_hoist_properties_any_of(m: SchemaObjectV) -> Result<SchemaObjectV, ErrorV> {
    match m.subschemas {
        None => Ok(m),
        Some(subs) => match (subs.any_of, subs.one_of) {
            (None, None) => Ok(m),
            (Some(_), Some(_)) => Err(ErrorV::OneOfAnyOfConflict),
            (None, Some(one_of)) => spec_hoist_into(m, subs, one_of, true, true),
            (Some(any_of), None) => spec_hoist_into(m, subs, any_of, false, false),
        },
    }
}

/// Take `oneOf` or `anyOf` subschema properties and move them into the
/// node's own properties. On a hard violation the node is unchanged.
#[verifier::loop_isolation(false)]
#[verifier::rlimit(100)]
pub fn hoist_properties_for_any_of_subschemas(kube_schema: &mut SchemaObject) -> (r: Result<
    (),
    Error,
>)
    ensures
        match r {
            Ok(()) => {
                &&& spec_hoist_properties_any_of(schema_object_view(*old(kube_schema)))
                    matches Ok(v)
                &&& schema_object_view(*final(kube_schema)) == v
            },
            Err(e) => {
                &&& spec_hoist_properties_any_of(schema_object_view(*old(kube_schema)))
                    matches Err(ev)
                &&& error_view(e) == ev
                &&& *final(kube_schema) == *old(kube_schema)
            },
        },
{
    let ghost mv = schema_object_view(*kube_schema);
    let subs = match &kube_schema.subschemas {
        None => {
            return Ok(());
        },
        Some(s) => s,
    };
    let (vars, preserve, is_one_of): (&Vec<Schema>, bool, bool) = match (
        &subs.any_of,
        &subs.one_of,
    ) {
        (None, None) => {
            return Ok(());
        },
        (Some(_), Some(_)) => {
            return Err(Error::OneOfAnyOfConflict);
        },
        (None, Some(v)) => (v, true, true),
        (Some(v), None) => (v, false, false),
    };
    let ghost vs = schemas_view(vars@);
    if vars.len() == 0 {
        return Ok(());
    }
    if vars.len() == 2 {
        proof {
            assert(vs[0] == schema_view(vars@[0]));
            assert(vs[1] == schema_view(vars@[1]));
        }
        if is_null_marker(&vars[0]) || is_null_marker(&vars[1]) {
            return Ok(());
        }
    }
    let mut i: usize = 0;
    while i < vars.len()
        invariant
            0 <= i <= vars.len(),
            forall|j: int| 0 <= j < i ==> !((#[trigger] vs[j]) is Bool),
        decreases vars.len() - i,
    {
        proof {
            assert(vs[i as int] == schema_view(vars@[i as int]));
        }
        match &vars[i] {
            Schema::Bool(_) => {
                return Err(Error::BoolVariant);
            },
            _ => {},
        }
        i += 1;
    }
    proof {
        assert(!(exists|j: int| 0 <= j < vs.len() && vs[j] is Bool));
    }
    let mut parent: Option<ObjectValidation> = match &kube_schema.object {
        Some(o) => Some(object_clone(o)),
        None => None,
    };
    let mut new_vars: Vec<Schema> = Vec::new();
    let mut i: usize = 0;
    proof {
        assert(vs.skip(0) =~= vs);
        let r0 = spec_any_fold(vs, mv.object, preserve);
        if r0 is Ok {
            assert(schemas_view(new_vars@) + r0->Ok_0.0 =~= r0->Ok_0.0);
        }
    }
    while i < vars.len()
        invariant
            0 <= i <= vars.len(),
            spec_any_fold(vs, mv.object, preserve) == (match spec_any_fold(
                vs.skip(i as int),
                opt_obj_view(parent),
                preserve,
            ) {
                Ok((rest, p2)) => Ok::<_, ErrorV>((schemas_view(new_vars@) + rest, p2)),
                Err(e) => Err(e),
            }),
        decreases vars.len() - i,
    {
        let ghost par_before = opt_obj_view(parent);
        let ghost nv_before = schemas_view(new_vars@);
        proof {
            assert(vs.skip(i as int)[0] == vs[i as int]);
            assert(vs[i as int] == schema_view(vars@[i as int]));
            assert(vs.skip(i as int).drop_first() =~= vs.skip(i as int + 1));
        }
        match &vars[i] {
            Schema::Bool(_) => {
                proof {
                    assert(false);
                }
                return Err(Error::BoolVariant);
            },
            Schema::Object(m) => {
                match &m.object {
                    None => {
                        let mut vm = schema_object_clone(m);
                        vm.metadata = None;
                        vm.instance_type = None;
                        new_vars.push(Schema::Object(vm));
                    },
                    Some(vo) => {
                        if preserve && vo.properties.len() != 1 {
                            return Err(
                                Error::TaggedVariantPropertyCount { count: vo.properties.len() },
                            );
                        }
                        let mut props_vec = props_clone(&vo.properties);
                        if preserve {
                            let (pk, pv) = props_vec.remove(0);
                            match pv {
                                Schema::Object(mut po) => {
                                    if po.metadata.is_some() {
                                        return Err(Error::PropertyMetadataAlreadySet);
                                    }
                                    po.metadata = match &m.metadata {
                                        Some(md) => Some(metadata_clone(md)),
                                        None => None,
                                    };
                                    props_vec.insert(0, (pk, Schema::Object(po)));
                                },
                                Schema::Bool(b) => {
                                    props_vec.insert(0, (pk, Schema::Bool(b)));
                                },
                            }
                        }
                        let ghost step = spec_any_step(vs[i as int], par_before, preserve);
                        let ghost props1 = match vs[i as int]->Object_0.object {
                            Some(vov) => spec_step_props1(
                                vs[i as int]->Object_0,
                                vov,
                                preserve,
                            ),
                            None => Seq::empty(),
                        };
                        proof {
                            assert(props_view(props_vec@) =~~= props1);
                        }
                        let ghost src0 = props_view(props_vec@);
                        let ghost par0 = opt_obj_view(parent);
                        let mut done = false;
                        while !done && props_vec.len() > 0
                            invariant
                                !done ==> spec_pop_props(src0, par0) == spec_pop_props(
                                    props_view(props_vec@),
                                    opt_obj_view(parent),
                                ),
                                done ==> spec_pop_props(src0, par0) == Ok::<_, ErrorV>(
                                    (props_view(props_vec@), opt_obj_view(parent)),
                                ),
                            decreases props_vec.len(),
                        {
                            let ghost pv_g = props_vec@;
                            let (k, p) = props_vec.remove(0);
                            proof {
                                assert(props_view(pv_g)[0] == (pv_g[0].0@, schema_view(
                                    pv_g[0].1,
                                )));
                                assert(pv_g.remove(0) =~= pv_g.drop_first());
                                assert(props_view(pv_g).drop_first() =~= props_view(
                                    pv_g.drop_first(),
                                ));
                            }
                            match p {
                                Schema::Bool(_) => {
                                    done = true;
                                },
                                Schema::Object(_) => {
                                    let mut par = match parent.take() {
                                        Some(o) => o,
                                        None => crate::model::empty_object_validation(),
                                    };
                                    let ghost parv = crate::model::object_validation_view(par);
                                    match schema_map_get(&par.properties, k.as_str()) {
                                        Some(existing) => {
                                            if !schema_eq(&p, existing) {
                                                return Err(
                                                    Error::PropertyConflict {
                                                        name: k,
                                                        existing: Box::new(schema_clone(existing)),
                                                        incoming: Box::new(p),
                                                    },
                                                );
                                            }
                                        },
                                        None => {
                                            schema_map_insert(&mut par.properties, k, p);
                                            proof {
                                                assert(crate::model::object_validation_view(par)
                                                    =~~= (ObjectValidationV {
                                                    properties: spec_map_insert(
                                                        parv.properties,
                                                        pv_g[0].0@,
                                                        schema_view(pv_g[0].1),
                                                    ),
                                                    ..parv
                                                }));
                                            }
                                        },
                                    }
                                    parent = Some(par);
                                },
                            }
                        }
                        proof {
                            if !done {
                                assert(props_view(props_vec@) =~= Seq::<(Seq<char>, SchemaV)>::empty());
                            }
                        }
                        let mut vm = schema_object_clone(m);
                        vm.metadata = None;
                        vm.instance_type = None;
                        let mut voc = match vm.object {
                            Some(o) => o,
                            None => {
                                proof {
                                    assert(false);
                                }
                                crate::model::empty_object_validation()
                            },
                        };
                        voc.properties = props_vec;
                        voc.additional_properties = None;
                        vm.object = Some(voc);
                        new_vars.push(Schema::Object(vm));
                        proof {
                            assert(step is Ok);
                            assert(schema_view(new_vars@[new_vars@.len() - 1]) =~~= step->Ok_0.0);
                            assert(opt_obj_view(parent) =~~= step->Ok_0.1);
                        }
                    },
                }
            },
        }
        proof {
            assert(schemas_view(new_vars@) =~= nv_before + seq![
                schema_view(new_vars@[new_vars@.len() - 1]),
            ]);
            let stepr = spec_any_step(vs[i as int], par_before, preserve);
            if stepr is Ok {
                let restr = spec_any_fold(vs.skip(i as int + 1), stepr->Ok_0.1, preserve);
                if restr is Ok {
                    assert(nv_before + (seq![stepr->Ok_0.0] + restr->Ok_0.0) =~= schemas_view(
                        new_vars@,
                    ) + restr->Ok_0.0);
                }
            }
        }
        i += 1;
    }
    proof {
        assert(vs.skip(vars@.len() as int) =~= Seq::<SchemaV>::empty());
        let rfin = spec_any_fold(vs, mv.object, preserve);
        if rfin is Ok {
            assert(schemas_view(new_vars@) + Seq::<SchemaV>::empty() =~= schemas_view(new_vars@));
        }
    }
    let subs_own = match kube_schema.subschemas.take() {
        Some(s) => s,
        None => {
            proof {
                assert(false);
            }
            return Err(Error::BoolVariant);
        },
    };
    let SubschemaValidation { any_of, one_of } = subs_own;
    if is_one_of {
        kube_schema.subschemas = Some(SubschemaValidation { any_of, one_of: Some(new_vars) });
    } else {
        kube_schema.subschemas = Some(SubschemaValidation { any_of: Some(new_vars), one_of });
    }
    kube_schema.object = parent;
    kube_schema.instance_type = Some(TypeList::Single(InstanceType::Object));
    proof {
        let spec_out = spec_hoist_properties_any_of(mv)->Ok_0;
        assert(schema_object_view(*kube_schema) =~~= spec_out);
    }
    Ok(())
}

/// The variant's property list after the tagged-case description
/// relocation, assuming its checks have passed.
pub open spec fn spec_step_props1(m: SchemaObjectV, vo: ObjectValidationV, preserve: bool) -> Seq<
    (Seq<char>, SchemaV),
> {
    if preserve {
        match vo.properties[0].1 {
            SchemaV::Object(po) => seq![
                (vo.properties[0].0, SchemaV::Object(SchemaObjectV { metadata: m.metadata, ..po })),
            ],
            SchemaV::Bool(_) => vo.properties,
        }
    } else {
        vo.properties
    }
}

} // verus!
