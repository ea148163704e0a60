//! Null-variant cleanup.
//!
//! A nullable enum often carries a redundant literal-`null` entry beside
//! its `nullable` flag. The duplicate marker is removed to keep the
//! document compact — unless `null` is the only value, which is the
//! canonical "optional, no other values yet" shape and is kept.

use vstd::prelude::*;

use crate::json::{arr_view, json_clone, json_map_get, json_view, spec_map_get, Json, JsonV};
use crate::model::{schema_object_view, SchemaObject, SchemaObjectV};

verus! {

broadcast use vstd::std_specs::vec::group_vec_axioms, vstd::seq::group_seq_axioms,
    vstd::seq_lib::group_seq_lib_default;

/// The values with every literal `null` removed, in order.
pub open spec fn spec_remove_null(vals: Seq<JsonV>) -> Seq<JsonV>
    decreases vals.len(),
{
    if vals.len() == 0 {
        Seq::empty()
    } else if vals[0] == JsonV::Null {
        spec_remove_null(vals.drop_first())
    } else {
        seq![vals[0]] + spec_remove_null(vals.drop_first())
    }
}

/// What the cleanup yields: when the node has an `enum`, its `nullable`
/// extension is `true` and the enum has more than one value, the literal
/// `null` entries are removed; otherwise the node is unchanged.
pub open spec fn spec_remove_optional_enum_null_variant(m: SchemaObjectV) -> SchemaObjectV {
    match m.enum_values {
        None => m,
        Some(ev) => if spec_map_get(m.extensions, "nullable"@) == Some(JsonV::Bool(true))
            && ev.len() > 1 {
            SchemaObjectV { enum_values: Some(spec_remove_null(ev)), ..m }
        } else {
            m
        },
    }
}

/// Remove the redundant literal-`null` entry from a nullable enum; the
/// sole last value is never removed.
#[verifier::loop_isolation(false)]
pub fn remove_optional_enum_null_variant(kube_schema: &mut SchemaObject)
    ensures
        schema_object_view(*final(kube_schema)) == spec_remove_optional_enum_null_variant(
            schema_object_view(*old(kube_schema)),
        ),
{
    let nullable = match json_map_get(&kube_schema.extensions, "nullable") {
        Some(Json::Bool(true)) => true,
        _ => false,
    };
    if !nullable {
        return ;
    }
    let ev = match kube_schema.enum_values.take() {
        None => {
            return ;
        },
        Some(v) => v,
    };
    if ev.len() <= 1 {
        kube_schema.enum_values = Some(ev);
        return ;
    }
    let ghost ev0 = arr_view(ev@);
    let mut out: Vec<Json> = Vec::new();
    let mut i: usize = 0;
    proof {
        assert(ev0.skip(0) =~= ev0);
        assert(arr_view(out@) + spec_remove_null(ev0) =~= spec_remove_null(ev0));
    }
    while i < ev.len()
        invariant
            0 <= i <= ev.len(),
            spec_remove_null(ev0) == arr_view(out@) + spec_remove_null(ev0.skip(i as int)),
        decreases ev.len() - i,
    {
        proof {
            assert(ev0.skip(i as int)[0] == ev0[i as int]);
            assert(ev0[i as int] == json_view(ev@[i as int]));
            assert(ev0.skip(i as int).drop_first() =~= ev0.skip(i as int + 1));
        }
        match &ev[i] {
            Json::Null => {},
            v => {
                let ghost out0 = arr_view(out@);
                let c = json_clone(v);
                out.push(c);
                proof {
                    assert(arr_view(out@) =~= out0 + seq![ev0[i as int]]);
                    assert(out0 + (seq![ev0[i as int]] + spec_remove_null(ev0.skip(i as int + 1)))
                        =~= arr_view(out@) + spec_remove_null(ev0.skip(i as int + 1)));
                }
            },
        }
        i += 1;
    }
    proof {
        assert(ev0.skip(ev@.len() as int) =~= Seq::<JsonV>::empty());
        assert(arr_view(out@) + Seq::<JsonV>::empty() =~= arr_view(out@));
    }
    kube_schema.enum_values = Some(out);
}

} // verus!
