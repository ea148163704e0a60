//! Laws of the rewrite passes, stated over the models that the passes'
//! own contracts use and proved once for all inputs.

use vstd::prelude::*;

use crate::error::ErrorV;
use crate::hoist_enum::{
    spec_check_types, spec_collect_enums, spec_hoist_any_of_option_enum, spec_hoist_one_of_enum,
    spec_is_null_marker, spec_variant_type,
};
use crate::json::{
    lemma_map_insert_get, lemma_map_insert_get_other, spec_map_get, spec_map_insert, JsonV,
};
use crate::model::SchemaObjectV;
use crate::model::SchemaV;
use crate::rewriter::{spec_apply_passes, spec_fixups};
use crate::subschema_hoist::spec_move_props;
use crate::transform_optional_enum_with_null::{
    spec_remove_null, spec_remove_optional_enum_null_variant,
};

verus! {

broadcast use vstd::seq::group_seq_axioms, vstd::seq_lib::group_seq_lib_default;

/// All variants are object schemas that declare the expected type.
pub open spec fn all_variants_typed(vars: Seq<SchemaV>, t: crate::model::TypeListV) -> bool {
    forall|i: int|
        0 <= i < vars.len() ==> ((#[trigger] vars[i]) matches SchemaV::Object(vm)
            && vm.instance_type == Some(t))
}

/// All variants provide `enum` or a `const` extra keyword.
pub open spec fn all_variants_valued(vars: Seq<SchemaV>) -> bool {
    forall|i: int|
        0 <= i < vars.len() ==> ((#[trigger] vars[i]) matches SchemaV::Object(vm)
            && (vm.enum_values is Some || spec_map_get(vm.other, "const"@) is Some))
}

/// Identically-typed variants pass the type check.
proof fn lemma_check_types_ok(vars: Seq<SchemaV>, t: crate::model::TypeListV)
    requires
        all_variants_typed(vars, t),
    ensures
        spec_check_types(vars, t) is None,
    decreases vars.len(),
{
    if vars.len() > 0 {
        assert(vars[0] matches SchemaV::Object(vm) && vm.instance_type == Some(t));
        assert(forall|i: int|
            0 <= i < vars.drop_first().len() ==> vars.drop_first()[i] == vars[i + 1]);
        lemma_check_types_ok(vars.drop_first(), t);
    }
}

/// Variants that all provide `enum` or `const` collect successfully.
proof fn lemma_collect_enums_ok(vars: Seq<SchemaV>)
    requires
        all_variants_valued(vars),
    ensures
        spec_collect_enums(vars) is Ok,
    decreases vars.len(),
{
    if vars.len() > 0 {
        assert(vars[0] matches SchemaV::Object(vm) && (vm.enum_values is Some || spec_map_get(
            vm.other,
            "const"@,
        ) is Some));
        assert(forall|i: int|
            0 <= i < vars.drop_first().len() ==> vars.drop_first()[i] == vars[i + 1]);
        lemma_collect_enums_ok(vars.drop_first());
    }
}

/// Law: for a `oneOf` of one or more identically-typed enum/const-only
/// variants, the hoist succeeds, the output carries no `oneOf`, its
/// `type` is the common variant type, and its `enum` is the existing
/// root enum extended by the concatenation, in variant order, of each
/// variant's values.
pub proof fn lemma_one_of_enum_hoist(m: SchemaObjectV, t: crate::model::TypeListV)
    requires
        m.subschemas matches Some(subs) && subs.one_of matches Some(one_of) && one_of.len() >= 1,
        all_variants_typed(m.subschemas->Some_0.one_of->Some_0, t),
        all_variants_valued(m.subschemas->Some_0.one_of->Some_0),
    ensures
        spec_hoist_one_of_enum(m) matches Ok(v) && {
            let one_of = m.subschemas->Some_0.one_of->Some_0;
            &&& v.subschemas->Some_0.one_of is None
            &&& v.instance_type == Some(t)
            &&& spec_collect_enums(one_of) matches Ok(vals) && v.enum_values == Some(
                (match m.enum_values {
                    Some(ev) => ev,
                    None => Seq::<JsonV>::empty(),
                }) + vals,
            )
        },
{
    let one_of = m.subschemas->Some_0.one_of->Some_0;
    assert(one_of[0] matches SchemaV::Object(vm) && vm.instance_type == Some(t));
    assert(spec_variant_type(one_of[0]) == Ok::<_, ErrorV>(t));
    assert(forall|i: int|
        0 <= i < one_of.drop_first().len() ==> one_of.drop_first()[i] == one_of[i + 1]);
    lemma_check_types_ok(one_of.drop_first(), t);
    lemma_collect_enums_ok(one_of);
}

/// Law: for an `anyOf` of exactly two entries of which exactly one is
/// the canonical null marker `{"enum":[null],"nullable":true}`, the
/// hoist succeeds, the output carries no `anyOf`, its `nullable`
/// extension is `true`, and its `type`, `enum` and `description` are
/// those of the other entry.
pub proof fn lemma_any_of_nullable_hoist(m: SchemaObjectV)
    requires
        m.subschemas matches Some(subs) && subs.any_of matches Some(ao) && ao.len() == 2,
        spec_is_null_marker(m.subschemas->Some_0.any_of->Some_0[0]) != spec_is_null_marker(
            m.subschemas->Some_0.any_of->Some_0[1],
        ),
        (if spec_is_null_marker(m.subschemas->Some_0.any_of->Some_0[0]) {
            m.subschemas->Some_0.any_of->Some_0[1]
        } else {
            m.subschemas->Some_0.any_of->Some_0[0]
        }) is Object,
    ensures
        spec_hoist_any_of_option_enum(m) matches Ok(v) && {
            let h = (if spec_is_null_marker(m.subschemas->Some_0.any_of->Some_0[0]) {
                m.subschemas->Some_0.any_of->Some_0[1]
            } else {
                m.subschemas->Some_0.any_of->Some_0[0]
            })->Object_0;
            &&& v.subschemas->Some_0.any_of is None
            &&& spec_map_get(v.extensions, "nullable"@) == Some(JsonV::Bool(true))
            &&& v.instance_type == h.instance_type
            &&& v.enum_values == h.enum_values
            &&& v.metadata matches Some(md) && md.description == (match h.metadata {
                Some(hm) => hm.description,
                None => None,
            })
        },
{
    lemma_map_insert_get(m.extensions, "nullable"@, JsonV::Bool(true));
}

/// Whether a property list holds pairwise distinct names.
pub open spec fn distinct_keys(src: Seq<(Seq<char>, SchemaV)>) -> bool {
    forall|i: int, j: int| 0 <= i < j < src.len() ==> src[i].0 != src[j].0
}

/// Whether every entry of `src` is fresh in `dst` or maps to an
/// identical schema there.
pub open spec fn compatible_with(src: Seq<(Seq<char>, SchemaV)>, dst: Seq<(Seq<char>, SchemaV)>) -> bool {
    forall|i: int|
        0 <= i < src.len() ==> (spec_map_get(dst, (#[trigger] src[i]).0) is None || spec_map_get(
            dst,
            src[i].0,
        ) == Some(src[i].1))
}

/// Whether `src` declares the name `k`.
pub open spec fn has_key(src: Seq<(Seq<char>, SchemaV)>, k: Seq<char>) -> bool {
    exists|i: int| 0 <= i < src.len() && (#[trigger] src[i]).0 == k
}

/// Law: moving variant properties whose overlapping names carry
/// identical shapes succeeds, and the result is the union: every moved
/// name maps to the variant's schema, and every other name keeps the
/// parent's schema.
pub proof fn lemma_move_props_union(src: Seq<(Seq<char>, SchemaV)>, dst: Seq<(Seq<char>, SchemaV)>)
    requires
        distinct_keys(src),
        compatible_with(src, dst),
    ensures
        spec_move_props(src, dst) matches Ok(res) && {
            &&& forall|i: int|
                0 <= i < src.len() ==> spec_map_get(res, (#[trigger] src[i]).0) == Some(src[i].1)
            &&& forall|k: Seq<char>| !has_key(src, k) ==> spec_map_get(res, k) == spec_map_get(dst, k)
        },
    decreases src.len(),
{
    if src.len() == 0 {
    } else {
        let k0 = src[0].0;
        let p0 = src[0].1;
        assert(forall|i: int|
            0 <= i < src.drop_first().len() ==> src.drop_first()[i] == src[i + 1]);
        match spec_map_get(dst, k0) {
            None => {
                let dst1 = spec_map_insert(dst, k0, p0);
                lemma_map_insert_get(dst, k0, p0);
                assert forall|i: int| 0 <= i < src.drop_first().len() implies (spec_map_get(
                    dst1,
                    (#[trigger] src.drop_first()[i]).0,
                ) is None || spec_map_get(dst1, src.drop_first()[i].0) == Some(
                    src.drop_first()[i].1,
                )) by {
                    assert(src.drop_first()[i] == src[i + 1]);
                    assert(src[i + 1].0 != k0);
                    lemma_map_insert_get_other(dst, k0, p0, src[i + 1].0);
                }
                lemma_move_props_union(src.drop_first(), dst1);
                let res = spec_move_props(src.drop_first(), dst1)->Ok_0;
                assert(!has_key(src.drop_first(), k0));
                assert(spec_map_get(res, k0) == spec_map_get(dst1, k0));
                assert forall|k: Seq<char>| !has_key(src, k) implies spec_map_get(res, k)
                    == spec_map_get(dst, k) by {
                    assert(k != k0);
                    assert(!has_key(src.drop_first(), k));
                    lemma_map_insert_get_other(dst, k0, p0, k);
                }
                assert forall|i: int| 0 <= i < src.len() implies spec_map_get(
                    res,
                    (#[trigger] src[i]).0,
                ) == Some(src[i].1) by {
                    if i > 0 {
                        assert(src.drop_first()[i - 1] == src[i]);
                    }
                }
            },
            Some(existing) => {
                assert(existing == p0);
                assert forall|i: int| 0 <= i < src.drop_first().len() implies (spec_map_get(
                    dst,
                    (#[trigger] src.drop_first()[i]).0,
                ) is None || spec_map_get(dst, src.drop_first()[i].0) == Some(
                    src.drop_first()[i].1,
                )) by {
                    assert(src.drop_first()[i] == src[i + 1]);
                }
                lemma_move_props_union(src.drop_first(), dst);
                let res = spec_move_props(src.drop_first(), dst)->Ok_0;
                assert(!has_key(src.drop_first(), k0));
                assert forall|i: int| 0 <= i < src.len() implies spec_map_get(
                    res,
                    (#[trigger] src[i]).0,
                ) == Some(src[i].1) by {
                    if i > 0 {
                        assert(src.drop_first()[i - 1] == src[i]);
                    } else {
                        assert(spec_map_get(res, k0) == spec_map_get(dst, k0));
                    }
                }
            },
        }
    }
}

/// Law: when some variant property redeclares a parent name with a
/// different shape, and the properties before it are fresh or
/// identical, the move aborts naming that property and both shapes.
pub proof fn lemma_move_props_abort(
    src: Seq<(Seq<char>, SchemaV)>,
    dst: Seq<(Seq<char>, SchemaV)>,
    i: int,
)
    requires
        distinct_keys(src),
        0 <= i < src.len(),
        forall|j: int|
            0 <= j < i ==> (spec_map_get(dst, (#[trigger] src[j]).0) is None || spec_map_get(
                dst,
                src[j].0,
            ) == Some(src[j].1)),
        spec_map_get(dst, src[i].0) matches Some(x) && x != src[i].1,
    ensures
        spec_move_props(src, dst) == Err::<Seq<(Seq<char>, SchemaV)>, ErrorV>(
            ErrorV::PropertyConflict {
                name: src[i].0,
                existing: spec_map_get(dst, src[i].0)->Some_0,
                incoming: src[i].1,
            },
        ),
    decreases i,
{
    assert(forall|j: int| 0 <= j < src.drop_first().len() ==> src.drop_first()[j] == src[j + 1]);
    if i == 0 {
    } else {
        let k0 = src[0].0;
        let p0 = src[0].1;
        assert(k0 != src[i].0);
        match spec_map_get(dst, k0) {
            None => {
                let dst1 = spec_map_insert(dst, k0, p0);
                assert forall|j: int| 0 <= j < i - 1 implies (spec_map_get(
                    dst1,
                    (#[trigger] src.drop_first()[j]).0,
                ) is None || spec_map_get(dst1, src.drop_first()[j].0) == Some(
                    src.drop_first()[j].1,
                )) by {
                    assert(src.drop_first()[j] == src[j + 1]);
                    assert(src[j + 1].0 != k0);
                    lemma_map_insert_get_other(dst, k0, p0, src[j + 1].0);
                }
                lemma_map_insert_get_other(dst, k0, p0, src[i].0);
                lemma_move_props_abort(src.drop_first(), dst1, i - 1);
            },
            Some(existing) => {
                assert(existing == p0);
                lemma_move_props_abort(src.drop_first(), dst, i - 1);
            },
        }
    }
}

/// Law: with non-empty `properties` beside the boolean-`true`
/// `additionalProperties`, the fixups drop `additionalProperties` and
/// set the preserve-unknown-fields extension to `true`.
pub proof fn lemma_map_shape_fixup(m: SchemaObjectV)
    requires
        m.object matches Some(ov) && ov.properties.len() > 0 && (ov.additional_properties
            matches Some(b) && *b == SchemaV::Bool(true)),
    ensures
        spec_fixups(m).object matches Some(ov) && ov.additional_properties is None,
        spec_map_get(spec_fixups(m).extensions, "x-kubernetes-preserve-unknown-fields"@) == Some(
            JsonV::Bool(true),
        ),
{
    lemma_map_insert_get(
        m.extensions,
        "x-kubernetes-preserve-unknown-fields"@,
        JsonV::Bool(true),
    );
}

/// Law: whatever the input, a node that comes out of the pass pipeline
/// never carries `uniqueItems`.
pub proof fn lemma_no_unique_items(m: SchemaObjectV)
    ensures
        spec_apply_passes(m) matches Ok(v) ==> (v.array matches Some(av) ==> av.unique_items
            is None),
{
}

/// The removal leaves no literal `null` behind.
pub proof fn lemma_remove_null_complete(vals: Seq<JsonV>)
    ensures
        forall|i: int| 0 <= i < spec_remove_null(vals).len() ==> spec_remove_null(vals)[i]
            != JsonV::Null,
    decreases vals.len(),
{
    if vals.len() > 0 {
        lemma_remove_null_complete(vals.drop_first());
        if vals[0] != JsonV::Null {
            let r = seq![vals[0]] + spec_remove_null(vals.drop_first());
            assert(forall|i: int|
                1 <= i < r.len() ==> r[i] == spec_remove_null(vals.drop_first())[i - 1]);
        }
    }
}

/// Law: for a nullable enum with more than one value, the cleanup
/// removes every literal `null`; a sole `null` value is retained.
pub proof fn lemma_null_variant_cleanup(m: SchemaObjectV)
    requires
        m.enum_values matches Some(ev),
        spec_map_get(m.extensions, "nullable"@) == Some(JsonV::Bool(true)),
    ensures
        m.enum_values->Some_0.len() > 1 ==> {
            let v = spec_remove_optional_enum_null_variant(m);
            &&& v.enum_values matches Some(out)
            &&& out == spec_remove_null(m.enum_values->Some_0)
            &&& forall|i: int| 0 <= i < out.len() ==> out[i] != JsonV::Null
        },
        m.enum_values->Some_0.len() <= 1 ==> spec_remove_optional_enum_null_variant(m) == m,
{
    lemma_remove_null_complete(m.enum_values->Some_0);
}

/// Removing nulls from a null-free list changes nothing.
proof fn lemma_remove_null_stable(vals: Seq<JsonV>)
    requires
        forall|i: int| 0 <= i < vals.len() ==> vals[i] != JsonV::Null,
    ensures
        spec_remove_null(vals) == vals,
    decreases vals.len(),
{
    if vals.len() > 0 {
        assert(forall|i: int|
            0 <= i < vals.drop_first().len() ==> vals.drop_first()[i] == vals[i + 1]);
        lemma_remove_null_stable(vals.drop_first());
        assert(seq![vals[0]] + vals.drop_first() =~= vals);
    }
}

/// Partial idempotence law: running the null-variant cleanup twice
/// yields what running it once does.
pub proof fn lemma_null_cleanup_idempotent(m: SchemaObjectV)
    ensures
        spec_remove_optional_enum_null_variant(spec_remove_optional_enum_null_variant(m))
            == spec_remove_optional_enum_null_variant(m),
{
    let v = spec_remove_optional_enum_null_variant(m);
    if m.enum_values is Some {
        let ev = m.enum_values->Some_0;
        if spec_map_get(m.extensions, "nullable"@) == Some(JsonV::Bool(true)) && ev.len() > 1 {
            lemma_remove_null_complete(ev);
            if spec_remove_null(ev).len() > 1 {
                lemma_remove_null_stable(spec_remove_null(ev));
                assert(spec_remove_optional_enum_null_variant(v) =~~= v);
            }
        }
    }
}

/// Partial idempotence law: running the keyword fixups twice yields
/// what running them once does.
pub proof fn lemma_fixups_idempotent(m: SchemaObjectV)
    ensures
        spec_fixups(spec_fixups(m)) == spec_fixups(m),
{
    assert(spec_fixups(spec_fixups(m)) =~~= spec_fixups(m));
}

/// Law: whatever the input, a node that comes out of the pass pipeline
/// never carries `oneOf`: an enum union was hoisted, and an emptied list
/// was cleared.
pub proof fn lemma_no_one_of_left(m: SchemaObjectV)
    ensures
        spec_apply_passes(m) matches Ok(v) ==> (v.subschemas matches Some(s) ==> s.one_of is None),
{
    if spec_apply_passes(m) is Ok {
        let m1 = spec_hoist_one_of_enum(m)->Ok_0;
        assert(m1.subschemas matches Some(s) ==> (s.one_of is None || s.one_of->Some_0.len()
            == 0));
        let m2 = spec_hoist_any_of_option_enum(m1)->Ok_0;
        assert(m2.subschemas matches Some(s) ==> (s.one_of is None || s.one_of->Some_0.len()
            == 0));
        let m3 = crate::rewriter::spec_subschema_steps(m2)->Ok_0;
        assert(m3.subschemas matches Some(s) ==> s.one_of is None);
    }
}

/// Law: whatever the input, a node that comes out of the pass pipeline
/// never carries the boolean-`true` `additionalProperties` beside
/// non-empty `properties`.
pub proof fn lemma_no_open_map_left(m: SchemaObjectV)
    ensures
        spec_apply_passes(m) matches Ok(v) ==> !(v.object matches Some(ov) && ov.properties.len()
            > 0 && (ov.additional_properties matches Some(b) && *b == SchemaV::Bool(true))),
{
}

/// Partial idempotence law: whatever the `oneOf` enum hoist yields, a
/// second run leaves it unchanged.
pub proof fn lemma_one_of_hoist_idempotent(m: SchemaObjectV)
    ensures
        spec_hoist_one_of_enum(m) matches Ok(v) ==> spec_hoist_one_of_enum(v) == Ok::<
            SchemaObjectV,
            ErrorV,
        >(v),
{
}

/// Partial idempotence law: whatever the `anyOf` nullable-optional hoist
/// yields, a second run leaves it unchanged.
pub proof fn lemma_any_of_hoist_idempotent(m: SchemaObjectV)
    ensures
        spec_hoist_any_of_option_enum(m) matches Ok(v) ==> spec_hoist_any_of_option_enum(v) == Ok::<
            SchemaObjectV,
            ErrorV,
        >(v),
{
}

} // verus!
