//! Decoding a generic JSON node into the typed schema model.
//!
//! Decoding is fallible on purpose: a node that uses shapes the model
//! does not represent (a non-string `type` entry, a non-array `enum`,
//! and so on) yields nothing, and the caller leaves that node untouched.
//! Keywords the model does not know go to `extensions` (the `nullable`
//! flag and `x-` vendor names) or to `other`, preserved verbatim.

use vstd::prelude::*;

use crate::json::{
    arr_view, json_clone, json_list_clone, json_map_get, json_view, keys_view, obj_view,
    spec_map_get, spec_set_insert, str_eq, string_set_insert, Json, JsonV,
};
use crate::model::{
    items_view, object_validation_view, props_view, schema_object_view,
    schema_view, schemas_view, type_list_view, ArrayValidation, InstanceType, Items, ItemsV,
    Metadata, MetadataV, ObjectValidation, ObjectValidationV, Schema, SchemaObject, SchemaObjectV,
    SchemaV, SubschemaValidation, SubschemasV, TypeList, TypeListV,
};

verus! {

broadcast use vstd::std_specs::vec::group_vec_axioms, vstd::seq::group_seq_axioms,
    vstd::seq_lib::group_seq_lib_default;

/// A value found by `spec_map_get` sits inside the entry list.
pub proof fn lemma_map_get_decreases<V>(m: Seq<(Seq<char>, V)>, k: Seq<char>)
    ensures
        spec_map_get(m, k) matches Some(v) ==> decreases_to!(m => v),
    decreases m.len(),
{
    if m.len() > 0 {
        if m[0].0 == k {
            assert(decreases_to!(m => m[0]));
            assert(decreases_to!(m[0] => m[0].1));
        } else {
            lemma_map_get_decreases(m.drop_first(), k);
            assert(decreases_to!(m => m.drop_first()));
        }
    }
}

/// Whether a key names a keyword the model represents.
pub open spec fn spec_known_key(k: Seq<char>) -> bool {
    ||| k == "description"@
    ||| k == "default"@
    ||| k == "type"@
    ||| k == "format"@
    ||| k == "enum"@
    ||| k == "anyOf"@
    ||| k == "oneOf"@
    ||| k == "items"@
    ||| k == "additionalItems"@
    ||| k == "maxItems"@
    ||| k == "minItems"@
    ||| k == "uniqueItems"@
    ||| k == "contains"@
    ||| k == "maxProperties"@
    ||| k == "minProperties"@
    ||| k == "required"@
    ||| k == "properties"@
    ||| k == "patternProperties"@
    ||| k == "additionalProperties"@
    ||| k == "propertyNames"@
}

/// Whether a key names a vendor keyword (`nullable` or an `x-` name).
pub open spec fn spec_vendor_key(k: Seq<char>) -> bool {
    ||| k == "nullable"@
    ||| (k.len() >= 2 && k[0] == 'x' && k[1] == '-')
}

/// The entries that decode into `extensions`, in order.
pub open spec fn spec_extension_entries(entries: Seq<(Seq<char>, JsonV)>) -> Seq<
    (Seq<char>, JsonV),
>
    decreases entries.len(),
{
    if entries.len() == 0 {
        Seq::empty()
    } else if !spec_known_key(entries[0].0) && spec_vendor_key(entries[0].0) {
        seq![entries[0]] + spec_extension_entries(entries.drop_first())
    } else {
        spec_extension_entries(entries.drop_first())
    }
}

/// The entries that decode into `other`, in order.
pub open spec fn spec_other_entries(entries: Seq<(Seq<char>, JsonV)>) -> Seq<(Seq<char>, JsonV)>
    decreases entries.len(),
{
    if entries.len() == 0 {
        Seq::empty()
    } else if !spec_known_key(entries[0].0) && !spec_vendor_key(entries[0].0) {
        seq![entries[0]] + spec_other_entries(entries.drop_first())
    } else {
        spec_other_entries(entries.drop_first())
    }
}

/// The instance type a type name decodes to.
pub open spec fn spec_dec_instance_type(s: Seq<char>) -> Option<InstanceType> {
    if s == "null"@ {
        Some(InstanceType::Null)
    } else if s == "boolean"@ {
        Some(InstanceType::Boolean)
    } else if s == "object"@ {
        Some(InstanceType::Object)
    } else if s == "array"@ {
        Some(InstanceType::Array)
    } else if s == "number"@ {
        Some(InstanceType::Number)
    } else if s == "string"@ {
        Some(InstanceType::String)
    } else if s == "integer"@ {
        Some(InstanceType::Integer)
    } else {
        None
    }
}

/// The instance types a list of type names decodes to.
pub open spec fn spec_dec_type_names(a: Seq<JsonV>) -> Option<Seq<InstanceType>>
    decreases a.len(),
{
    if a.len() == 0 {
        Some(Seq::empty())
    } else {
        match a[0] {
            JsonV::Str(s) => match spec_dec_instance_type(s) {
                Some(t) => match spec_dec_type_names(a.drop_first()) {
                    Some(rest) => Some(seq![t] + rest),
                    None => None,
                },
                None => None,
            },
            _ => None,
        }
    }
}

/// What a `type` value decodes to: a name, or a list of names.
pub open spec fn spec_dec_type_list(v: JsonV) -> Option<TypeListV> {
    match v {
        JsonV::Str(s) => match spec_dec_instance_type(s) {
            Some(t) => Some(TypeListV::Single(t)),
            None => None,
        },
        JsonV::Arr(a) => match spec_dec_type_names(a) {
            Some(ts) => Some(TypeListV::Many(ts)),
            None => None,
        },
        _ => None,
    }
}

/// The value of a decimal digit string, bounded by `u32::MAX`.
pub open spec fn spec_parse_u32_rec(s: Seq<char>, acc: int) -> Option<int>
    decreases s.len(),
{
    if s.len() == 0 {
        Some(acc)
    } else if '0' <= s[0] && s[0] <= '9' {
        let acc2 = acc * 10 + (s[0] as int - '0' as int);
        if acc2 <= u32::MAX as int {
            spec_parse_u32_rec(s.drop_first(), acc2)
        } else {
            None
        }
    } else {
        None
    }
}

/// What a number literal decodes to as a `u32`: a non-empty digit string
/// whose value fits.
pub open spec fn spec_parse_u32(s: Seq<char>) -> Option<u32> {
    if s.len() == 0 {
        None
    } else {
        match spec_parse_u32_rec(s, 0) {
            Some(v) => Some(v as u32),
            None => None,
        }
    }
}

/// What a JSON value decodes to as a `u32` keyword.
pub open spec fn spec_dec_u32(v: JsonV) -> Option<u32> {
    match v {
        JsonV::Num(s) => spec_parse_u32(s),
        _ => None,
    }
}

/// What a `required` array decodes to: its names collected into a sorted
/// set, in encounter order.
pub open spec fn spec_dec_required_rec(a: Seq<JsonV>, acc: Seq<Seq<char>>) -> Option<
    Seq<Seq<char>>,
>
    decreases a.len(),
{
    if a.len() == 0 {
        Some(acc)
    } else {
        match a[0] {
            JsonV::Str(s) => spec_dec_required_rec(a.drop_first(), spec_set_insert(acc, s)),
            _ => None,
        }
    }
}

/// What a JSON value decodes to as a schema.
pub open spec fn spec_dec_schema(j: JsonV) -> Option<SchemaV>
    decreases j, 1int,
{
    match j {
        JsonV::Bool(b) => Some(SchemaV::Bool(b)),
        JsonV::Obj(entries) => match spec_dec_schema_object(entries) {
            Some(m) => Some(SchemaV::Object(m)),
            None => None,
        },
        _ => None,
    }
}

/// What a list of JSON values decodes to as a schema list.
pub open spec fn spec_dec_schemas(a: Seq<JsonV>) -> Option<Seq<SchemaV>>
    decreases a, 1int,
{
    if a.len() == 0 {
        Some(Seq::empty())
    } else {
        match spec_dec_schema(a[0]) {
            Some(s) => match spec_dec_schemas(a.drop_first()) {
                Some(rest) => Some(seq![s] + rest),
                None => None,
            },
            None => None,
        }
    }
}

/// What a JSON object decodes to as a properties map.
pub open spec fn spec_dec_props(po: Seq<(Seq<char>, JsonV)>) -> Option<Seq<(Seq<char>, SchemaV)>>
    decreases po, 1int,
{
    if po.len() == 0 {
        Some(Seq::empty())
    } else {
        match spec_dec_schema(po[0].1) {
            Some(s) => match spec_dec_props(po.drop_first()) {
                Some(rest) => Some(seq![(po[0].0, s)] + rest),
                None => None,
            },
            None => None,
        }
    }
}

/// What an `items` value decodes to: one schema, or a list of schemas.
pub open spec fn spec_dec_items(v: JsonV) -> Option<ItemsV>
    decreases v, 2int,
{
    match v {
        JsonV::Arr(a) => match spec_dec_schemas(a) {
            Some(ss) => Some(ItemsV::Many(ss)),
            None => None,
        },
        _ => match spec_dec_schema(v) {
            Some(s) => Some(ItemsV::Single(Box::new(s))),
            None => None,
        },
    }
}

/// What the `description` keyword decodes to.
pub open spec fn spec_dec_description(entries: Seq<(Seq<char>, JsonV)>) -> Option<
    Option<Seq<char>>,
> {
    match spec_map_get(entries, "description"@) {
        None => Some(None),
        Some(JsonV::Str(s)) => Some(Some(s)),
        Some(_) => None,
    }
}

/// What the `type` keyword decodes to.
pub open spec fn spec_dec_type_kw(entries: Seq<(Seq<char>, JsonV)>) -> Option<Option<TypeListV>> {
    match spec_map_get(entries, "type"@) {
        None => Some(None),
        Some(v) => match spec_dec_type_list(v) {
            Some(t) => Some(Some(t)),
            None => None,
        },
    }
}

/// What the `format` keyword decodes to.
pub open spec fn spec_dec_format(entries: Seq<(Seq<char>, JsonV)>) -> Option<Option<Seq<char>>> {
    match spec_map_get(entries, "format"@) {
        None => Some(None),
        Some(JsonV::Str(s)) => Some(Some(s)),
        Some(_) => None,
    }
}

/// What the `enum` keyword decodes to.
pub open spec fn spec_dec_enum(entries: Seq<(Seq<char>, JsonV)>) -> Option<Option<Seq<JsonV>>> {
    match spec_map_get(entries, "enum"@) {
        None => Some(None),
        Some(JsonV::Arr(a)) => Some(Some(a)),
        Some(_) => None,
    }
}

/// What the `anyOf` keyword decodes to.
pub open spec fn spec_dec_any_of(entries: Seq<(Seq<char>, JsonV)>) -> Option<Option<Seq<SchemaV>>>
    decreases entries, 2int,
    via spec_dec_any_of_decreases
{
    match spec_map_get(entries, "anyOf"@) {
        None => Some(None),
        Some(JsonV::Arr(a)) => match spec_dec_schemas(a) {
            Some(ss) => Some(Some(ss)),
            None => None,
        },
        Some(_) => None,
    }
}

#[via_fn]
proof fn spec_dec_any_of_decreases(entries: Seq<(Seq<char>, JsonV)>) {
    lemma_map_get_decreases(entries, "anyOf"@);
}

/// What the `oneOf` keyword decodes to.
pub open spec fn spec_dec_one_of(entries: Seq<(Seq<char>, JsonV)>) -> Option<Option<Seq<SchemaV>>>
    decreases entries, 2int,
    via spec_dec_one_of_decreases
{
    match spec_map_get(entries, "oneOf"@) {
        None => Some(None),
        Some(JsonV::Arr(a)) => match spec_dec_schemas(a) {
            Some(ss) => Some(Some(ss)),
            None => None,
        },
        Some(_) => None,
    }
}

#[via_fn]
proof fn spec_dec_one_of_decreases(entries: Seq<(Seq<char>, JsonV)>) {
    lemma_map_get_decreases(entries, "oneOf"@);
}

/// What the `items` keyword decodes to.
pub open spec fn spec_dec_items_kw(entries: Seq<(Seq<char>, JsonV)>) -> Option<Option<ItemsV>>
    decreases entries, 3int,
    via spec_dec_items_kw_decreases
{
    match spec_map_get(entries, "items"@) {
        None => Some(None),
        Some(v) => match spec_dec_items(v) {
            Some(it) => Some(Some(it)),
            None => None,
        },
    }
}

#[via_fn]
proof fn spec_dec_items_kw_decreases(entries: Seq<(Seq<char>, JsonV)>) {
    lemma_map_get_decreases(entries, "items"@);
}

/// What a keyword holding one schema decodes to.
pub open spec fn spec_dec_schema_kw(entries: Seq<(Seq<char>, JsonV)>, k: Seq<char>) -> Option<
    Option<SchemaV>,
>
    decreases entries, 2int,
    via spec_dec_schema_kw_decreases
{
    match spec_map_get(entries, k) {
        None => Some(None),
        Some(v) => match spec_dec_schema(v) {
            Some(s) => Some(Some(s)),
            None => None,
        },
    }
}

#[via_fn]
proof fn spec_dec_schema_kw_decreases(entries: Seq<(Seq<char>, JsonV)>, k: Seq<char>) {
    lemma_map_get_decreases(entries, k);
}

/// What a keyword holding a `u32` decodes to.
pub open spec fn spec_dec_u32_kw(entries: Seq<(Seq<char>, JsonV)>, k: Seq<char>) -> Option<
    Option<u32>,
> {
    match spec_map_get(entries, k) {
        None => Some(None),
        Some(v) => match spec_dec_u32(v) {
            Some(n) => Some(Some(n)),
            None => None,
        },
    }
}

/// What the `uniqueItems` keyword decodes to.
pub open spec fn spec_dec_unique(entries: Seq<(Seq<char>, JsonV)>) -> Option<Option<bool>> {
    match spec_map_get(entries, "uniqueItems"@) {
        None => Some(None),
        Some(JsonV::Bool(b)) => Some(Some(b)),
        Some(_) => None,
    }
}

/// What the `required` keyword decodes to.
pub open spec fn spec_dec_required_kw(entries: Seq<(Seq<char>, JsonV)>) -> Option<Seq<Seq<char>>> {
    match spec_map_get(entries, "required"@) {
        None => Some(Seq::empty()),
        Some(JsonV::Arr(a)) => spec_dec_required_rec(a, Seq::empty()),
        Some(_) => None,
    }
}

/// What a keyword holding a properties map decodes to.
pub open spec fn spec_dec_props_kw(entries: Seq<(Seq<char>, JsonV)>, k: Seq<char>) -> Option<
    Seq<(Seq<char>, SchemaV)>,
>
    decreases entries, 2int,
    via spec_dec_props_kw_decreases
{
    match spec_map_get(entries, k) {
        None => Some(Seq::empty()),
        Some(JsonV::Obj(po)) => spec_dec_props(po),
        Some(_) => None,
    }
}

#[via_fn]
proof fn spec_dec_props_kw_decreases(entries: Seq<(Seq<char>, JsonV)>, k: Seq<char>) {
    lemma_map_get_decreases(entries, k);
}

/// Whether the annotation and composition keywords decode.
pub open spec fn spec_dec_core_ok(entries: Seq<(Seq<char>, JsonV)>) -> bool
    decreases entries, 8int,
{
    &&& spec_dec_description(entries) is Some
    &&& spec_dec_type_kw(entries) is Some
    &&& spec_dec_format(entries) is Some
    &&& spec_dec_enum(entries) is Some
    &&& spec_dec_any_of(entries) is Some
    &&& spec_dec_one_of(entries) is Some
}

/// Whether the array keywords decode.
pub open spec fn spec_dec_array_ok(entries: Seq<(Seq<char>, JsonV)>) -> bool
    decreases entries, 8int,
{
    &&& spec_dec_items_kw(entries) is Some
    &&& spec_dec_schema_kw(entries, "additionalItems"@) is Some
    &&& spec_dec_u32_kw(entries, "maxItems"@) is Some
    &&& spec_dec_u32_kw(entries, "minItems"@) is Some
    &&& spec_dec_unique(entries) is Some
    &&& spec_dec_schema_kw(entries, "contains"@) is Some
}

/// Whether the object keywords decode.
pub open spec fn spec_dec_object_ok(entries: Seq<(Seq<char>, JsonV)>) -> bool
    decreases entries, 8int,
{
    &&& spec_dec_u32_kw(entries, "maxProperties"@) is Some
    &&& spec_dec_u32_kw(entries, "minProperties"@) is Some
    &&& spec_dec_required_kw(entries) is Some
    &&& spec_dec_props_kw(entries, "properties"@) is Some
    &&& spec_dec_props_kw(entries, "patternProperties"@) is Some
    &&& spec_dec_schema_kw(entries, "additionalProperties"@) is Some
    &&& spec_dec_schema_kw(entries, "propertyNames"@) is Some
}

/// Whether every keyword of an entry list decodes.
pub open spec fn spec_dec_ok(entries: Seq<(Seq<char>, JsonV)>) -> bool
    decreases entries, 9int,
{
    spec_dec_core_ok(entries) && spec_dec_array_ok(entries) && spec_dec_object_ok(entries)
}

/// The array keyword group an entry list decodes to.
pub open spec fn spec_dec_array_group(entries: Seq<(Seq<char>, JsonV)>) -> Option<
    crate::model::ArrayValidationV,
>
    decreases entries, 8int,
{
    let items = spec_dec_items_kw(entries)->Some_0;
    let additional_items = spec_dec_schema_kw(entries, "additionalItems"@)->Some_0;
    let max_items = spec_dec_u32_kw(entries, "maxItems"@)->Some_0;
    let min_items = spec_dec_u32_kw(entries, "minItems"@)->Some_0;
    let unique_items = spec_dec_unique(entries)->Some_0;
    let contains = spec_dec_schema_kw(entries, "contains"@)->Some_0;
    if items is Some || additional_items is Some || max_items is Some || min_items is Some
        || unique_items is Some || contains is Some {
        Some(
            crate::model::ArrayValidationV {
                items,
                additional_items: match additional_items {
                    Some(s) => Some(Box::new(s)),
                    None => None,
                },
                max_items,
                min_items,
                unique_items,
                contains: match contains {
                    Some(s) => Some(Box::new(s)),
                    None => None,
                },
            },
        )
    } else {
        None
    }
}

/// The object keyword group an entry list decodes to.
pub open spec fn spec_dec_object_group(entries: Seq<(Seq<char>, JsonV)>) -> Option<
    ObjectValidationV,
>
    decreases entries, 8int,
{
    let max_properties = spec_dec_u32_kw(entries, "maxProperties"@)->Some_0;
    let min_properties = spec_dec_u32_kw(entries, "minProperties"@)->Some_0;
    let required = spec_dec_required_kw(entries)->Some_0;
    let properties = spec_dec_props_kw(entries, "properties"@)->Some_0;
    let pattern_properties = spec_dec_props_kw(entries, "patternProperties"@)->Some_0;
    let additional_properties = spec_dec_schema_kw(entries, "additionalProperties"@)->Some_0;
    let property_names = spec_dec_schema_kw(entries, "propertyNames"@)->Some_0;
    if max_properties is Some || min_properties is Some || required.len() > 0
        || properties.len() > 0 || pattern_properties.len() > 0 || additional_properties is Some
        || property_names is Some {
        Some(
            ObjectValidationV {
                max_properties,
                min_properties,
                required,
                properties,
                pattern_properties,
                additional_properties: match additional_properties {
                    Some(s) => Some(Box::new(s)),
                    None => None,
                },
                property_names: match property_names {
                    Some(s) => Some(Box::new(s)),
                    None => None,
                },
            },
        )
    } else {
        None
    }
}

/// What an entry list decodes to as a schema object. Each keyword group
/// is present exactly when one of its keywords is present with a
/// non-default value; a keyword with a shape the model does not
/// represent makes the whole node undecodable.
pub open spec fn spec_dec_schema_object(entries: Seq<(Seq<char>, JsonV)>) -> Option<SchemaObjectV>
    decreases entries, 10int,
{
    if !spec_dec_ok(entries) {
        None
    } else {
        let description = spec_dec_description(entries)->Some_0;
        let default = spec_map_get(entries, "default"@);
        let any_of = spec_dec_any_of(entries)->Some_0;
        let one_of = spec_dec_one_of(entries)->Some_0;
        Some(
            SchemaObjectV {
                metadata: if description is Some || default is Some {
                    Some(MetadataV { description, default })
                } else {
                    None
                },
                instance_type: spec_dec_type_kw(entries)->Some_0,
                format: spec_dec_format(entries)->Some_0,
                enum_values: spec_dec_enum(entries)->Some_0,
                subschemas: if any_of is Some || one_of is Some {
                    Some(SubschemasV { any_of, one_of })
                } else {
                    None
                },
                array: spec_dec_array_group(entries),
                object: spec_dec_object_group(entries),
                extensions: spec_extension_entries(entries),
                other: spec_other_entries(entries),
            },
        )
    }
}

/// A value equal to some entry's value sits inside the entry list.
pub proof fn lemma_entry_value_height(es: Seq<(String, Json)>, v: Json)
    requires
        exists|j: int| 0 <= j < es.len() && v == #[trigger] es[j].1,
    ensures
        decreases_to!(es => v),
{
    let j = choose|j: int| 0 <= j < es.len() && v == es[j].1;
    assert(decreases_to!(es => es[j]));
    assert(decreases_to!(es[j] => es[j].1));
}

/// Decode one type name.
pub fn decode_instance_type(s: &str) -> (r: Option<InstanceType>)
    ensures
        r == spec_dec_instance_type(s@),
{
    if str_eq(s, "null") {
        Some(InstanceType::Null)
    } else if str_eq(s, "boolean") {
        Some(InstanceType::Boolean)
    } else if str_eq(s, "object") {
        Some(InstanceType::Object)
    } else if str_eq(s, "array") {
        Some(InstanceType::Array)
    } else if str_eq(s, "number") {
        Some(InstanceType::Number)
    } else if str_eq(s, "string") {
        Some(InstanceType::String)
    } else if str_eq(s, "integer") {
        Some(InstanceType::Integer)
    } else {
        None
    }
}

/// Decode a `type` value: one name or a list of names.
#[verifier::loop_isolation(false)]
pub fn decode_type_list(v: &Json) -> (r: Option<TypeList>)
    ensures
        match r {
            Some(t) => spec_dec_type_list(json_view(*v)) == Some(type_list_view(t)),
            None => spec_dec_type_list(json_view(*v)) is None,
        },
{
    match v {
        Json::Str(s) => match decode_instance_type(s.as_str()) {
            Some(t) => Some(TypeList::Single(t)),
            None => None,
        },
        Json::Arr(a) => {
            let ghost av = arr_view(a@);
            let mut out: Vec<InstanceType> = Vec::new();
            let mut i: usize = 0;
            proof {
                assert(av.skip(0) =~= av);
                let r0 = spec_dec_type_names(av);
                if r0 is Some {
                    assert(out@ + r0->Some_0 =~= r0->Some_0);
                }
            }
            while i < a.len()
                invariant
                    0 <= i <= a.len(),
                    spec_dec_type_names(av) == (match spec_dec_type_names(av.skip(i as int)) {
                        Some(rest) => Some(out@ + rest),
                        None => None::<Seq<InstanceType>>,
                    }),
                decreases a.len() - i,
            {
                proof {
                    assert(av.skip(i as int)[0] == av[i as int]);
                    assert(av[i as int] == json_view(a@[i as int]));
                    assert(av.skip(i as int).drop_first() =~= av.skip(i as int + 1));
                }
                match &a[i] {
                    Json::Str(s) => match decode_instance_type(s.as_str()) {
                        Some(t) => {
                            let ghost out0 = out@;
                            out.push(t);
                            proof {
                                let restr = spec_dec_type_names(av.skip(i as int + 1));
                                if restr is Some {
                                    assert(out0 + (seq![t] + restr->Some_0) =~= out@
                                        + restr->Some_0);
                                }
                            }
                        },
                        None => {
                            return None;
                        },
                    },
                    _ => {
                        return None;
                    },
                }
                i += 1;
            }
            proof {
                assert(av.skip(a@.len() as int) =~= Seq::<JsonV>::empty());
                assert(out@ + Seq::<InstanceType>::empty() =~= out@);
            }
            Some(TypeList::Many(out))
        },
        _ => None,
    }
}

/// Parse a non-empty decimal digit string whose value fits in a `u32`.
#[verifier::loop_isolation(false)]
pub fn parse_u32(s: &str) -> (r: Option<u32>)
    ensures
        r == spec_parse_u32(s@),
{
    let n = s.unicode_len();
    if n == 0 {
        return None;
    }
    let mut acc: u32 = 0;
    let mut i: usize = 0;
    proof {
        assert(s@.skip(0) =~= s@);
    }
    while i < n
        invariant
            0 <= i <= n,
            n == s@.len(),
            spec_parse_u32_rec(s@, 0) == spec_parse_u32_rec(s@.skip(i as int), acc as int),
        decreases n - i,
    {
        proof {
            assert(s@.skip(i as int)[0] == s@[i as int]);
            assert(s@.skip(i as int).drop_first() =~= s@.skip(i as int + 1));
        }
        let c = s.get_char(i);
        let cu = c as u32;
        proof {
            assert('0' as int == 48);
            assert('9' as int == 57);
        }
        if cu < 48 || cu > 57 {
            return None;
        }
        let d = cu - 48;
        let acc2 = acc as u64 * 10 + d as u64;
        if acc2 > u32::MAX as u64 {
            return None;
        }
        acc = acc2 as u32;
        i += 1;
    }
    proof {
        assert(s@.skip(s@.len() as int) =~= Seq::<char>::empty());
    }
    Some(acc)
}

/// Decode a `u32` keyword value.
pub fn decode_u32(v: &Json) -> (r: Option<u32>)
    ensures
        r == spec_dec_u32(json_view(*v)),
{
    match v {
        Json::Num(s) => parse_u32(s.as_str()),
        _ => None,
    }
}

/// Whether a key names a keyword the model represents.
pub fn is_known_key(k: &str) -> (r: bool)
    ensures
        r == spec_known_key(k@),
{
    str_eq(k, "description") || str_eq(k, "default") || str_eq(k, "type") || str_eq(k, "format")
        || str_eq(k, "enum") || str_eq(k, "anyOf") || str_eq(k, "oneOf") || str_eq(k, "items")
        || str_eq(k, "additionalItems") || str_eq(k, "maxItems") || str_eq(k, "minItems")
        || str_eq(k, "uniqueItems") || str_eq(k, "contains") || str_eq(k, "maxProperties")
        || str_eq(k, "minProperties") || str_eq(k, "required") || str_eq(k, "properties")
        || str_eq(k, "patternProperties") || str_eq(k, "additionalProperties") || str_eq(
        k,
        "propertyNames",
    )
}

/// Whether a key names a vendor keyword.
pub fn is_vendor_key(k: &str) -> (r: bool)
    ensures
        r == spec_vendor_key(k@),
{
    if str_eq(k, "nullable") {
        return true;
    }
    if k.unicode_len() >= 2 {
        let c0 = k.get_char(0);
        let c1 = k.get_char(1);
        c0 == 'x' && c1 == '-'
    } else {
        false
    }
}

/// Decode a JSON value as a schema.
pub fn decode_schema(j: &Json) -> (r: Option<Schema>)
    ensures
        match r {
            Some(s) => spec_dec_schema(json_view(*j)) == Some(schema_view(s)),
            None => spec_dec_schema(json_view(*j)) is None,
        },
    decreases j, 1int,
{
    match j {
        Json::Bool(b) => Some(Schema::Bool(*b)),
        Json::Obj(entries) => match decode_schema_object(entries) {
            Some(m) => Some(Schema::Object(m)),
            None => None,
        },
        _ => None,
    }
}

/// Decode a list of JSON values as a schema list.
#[verifier::loop_isolation(false)]
pub fn decode_schemas(a: &Vec<Json>) -> (r: Option<Vec<Schema>>)
    ensures
        match r {
            Some(v) => spec_dec_schemas(arr_view(a@)) == Some(schemas_view(v@)),
            None => spec_dec_schemas(arr_view(a@)) is None,
        },
    decreases a, 1int,
{
    let ghost av = arr_view(a@);
    let mut out: Vec<Schema> = Vec::new();
    let mut i: usize = 0;
    proof {
        assert(av.skip(0) =~= av);
        let r0 = spec_dec_schemas(av);
        if r0 is Some {
            assert(schemas_view(out@) + r0->Some_0 =~= r0->Some_0);
        }
    }
    while i < a.len()
        invariant
            0 <= i <= a.len(),
            spec_dec_schemas(av) == (match spec_dec_schemas(av.skip(i as int)) {
                Some(rest) => Some(schemas_view(out@) + rest),
                None => None::<Seq<SchemaV>>,
            }),
        decreases a.len() - i,
    {
        let ghost out0 = schemas_view(out@);
        proof {
            assert(av.skip(i as int)[0] == av[i as int]);
            assert(av[i as int] == json_view(a@[i as int]));
            assert(av.skip(i as int).drop_first() =~= av.skip(i as int + 1));
        }
        match decode_schema(&a[i]) {
            Some(sc) => {
                out.push(sc);
                proof {
                    assert(schemas_view(out@) =~= out0 + seq![
                        schema_view(out@[out@.len() - 1]),
                    ]);
                    let restr = spec_dec_schemas(av.skip(i as int + 1));
                    if restr is Some {
                        assert(out0 + (seq![schema_view(out@[out@.len() - 1])] + restr->Some_0)
                            =~= schemas_view(out@) + restr->Some_0);
                    }
                }
            },
            None => {
                return None;
            },
        }
        i += 1;
    }
    proof {
        assert(av.skip(a@.len() as int) =~= Seq::<JsonV>::empty());
        assert(schemas_view(out@) + Seq::<SchemaV>::empty() =~= schemas_view(out@));
    }
    Some(out)
}

/// Decode a JSON object as a properties map.
#[verifier::loop_isolation(false)]
pub fn decode_props(po: &Vec<(String, Json)>) -> (r: Option<Vec<(String, Schema)>>)
    ensures
        match r {
            Some(v) => spec_dec_props(obj_view(po@)) == Some(props_view(v@)),
            None => spec_dec_props(obj_view(po@)) is None,
        },
    decreases po, 1int,
{
    let ghost pv = obj_view(po@);
    let mut out: Vec<(String, Schema)> = Vec::new();
    let mut i: usize = 0;
    proof {
        assert(pv.skip(0) =~= pv);
        let r0 = spec_dec_props(pv);
        if r0 is Some {
            assert(props_view(out@) + r0->Some_0 =~= r0->Some_0);
        }
    }
    while i < po.len()
        invariant
            0 <= i <= po.len(),
            spec_dec_props(pv) == (match spec_dec_props(pv.skip(i as int)) {
                Some(rest) => Some(props_view(out@) + rest),
                None => None::<Seq<(Seq<char>, SchemaV)>>,
            }),
        decreases po.len() - i,
    {
        let ghost out0 = props_view(out@);
        proof {
            assert(pv.skip(i as int)[0] == pv[i as int]);
            assert(pv[i as int] == (po@[i as int].0@, json_view(po@[i as int].1)));
            assert(pv.skip(i as int).drop_first() =~= pv.skip(i as int + 1));
        }
        let entry = &po[i];
        match decode_schema(&entry.1) {
            Some(sc) => {
                let ck = entry.0.clone();
                out.push((ck, sc));
                proof {
                    assert(props_view(out@) =~= out0 + seq![
                        (out@[out@.len() - 1].0@, schema_view(out@[out@.len() - 1].1)),
                    ]);
                    let restr = spec_dec_props(pv.skip(i as int + 1));
                    if restr is Some {
                        assert(out0 + (seq![
                            (pv[i as int].0, schema_view(out@[out@.len() - 1].1)),
                        ] + restr->Some_0) =~= props_view(out@) + restr->Some_0);
                    }
                }
            },
            None => {
                return None;
            },
        }
        i += 1;
    }
    proof {
        assert(pv.skip(po@.len() as int) =~= Seq::<(Seq<char>, JsonV)>::empty());
        assert(props_view(out@) + Seq::<(Seq<char>, SchemaV)>::empty() =~= props_view(out@));
    }
    Some(out)
}

/// Decode an `items` value: one schema, or a list of schemas.
pub fn decode_items(v: &Json) -> (r: Option<Items>)
    ensures
        match r {
            Some(it) => spec_dec_items(json_view(*v)) == Some(items_view(it)),
            None => spec_dec_items(json_view(*v)) is None,
        },
    decreases v, 2int,
{
    match v {
        Json::Arr(a) => match decode_schemas(a) {
            Some(ss) => Some(Items::Many(ss)),
            None => None,
        },
        _ => match decode_schema(v) {
            Some(s) => Some(Items::Single(Box::new(s))),
            None => None,
        },
    }
}

/// Decode a `required` array into a sorted name set.
#[verifier::loop_isolation(false)]
pub fn decode_required(a: &Vec<Json>) -> (r: Option<Vec<String>>)
    ensures
        match r {
            Some(v) => spec_dec_required_rec(arr_view(a@), Seq::empty()) == Some(keys_view(v@)),
            None => spec_dec_required_rec(arr_view(a@), Seq::empty()) is None,
        },
{
    let ghost av = arr_view(a@);
    let mut acc: Vec<String> = Vec::new();
    let mut i: usize = 0;
    proof {
        assert(av.skip(0) =~= av);
        assert(keys_view(acc@) =~= Seq::<Seq<char>>::empty());
    }
    while i < a.len()
        invariant
            0 <= i <= a.len(),
            spec_dec_required_rec(av, Seq::empty()) == spec_dec_required_rec(
                av.skip(i as int),
                keys_view(acc@),
            ),
        decreases a.len() - i,
    {
        proof {
            assert(av.skip(i as int)[0] == av[i as int]);
            assert(av[i as int] == json_view(a@[i as int]));
            assert(av.skip(i as int).drop_first() =~= av.skip(i as int + 1));
        }
        match &a[i] {
            Json::Str(s) => {
                string_set_insert(&mut acc, s.clone());
            },
            _ => {
                return None;
            },
        }
        i += 1;
    }
    proof {
        assert(av.skip(a@.len() as int) =~= Seq::<JsonV>::empty());
    }
    Some(acc)
}

/// Split the unmodelled keywords of an entry list between the vendor
/// extensions and the rest, preserved verbatim.
#[verifier::loop_isolation(false)]
pub fn decode_unmodelled(entries: &Vec<(String, Json)>) -> (r: (
    Vec<(String, Json)>,
    Vec<(String, Json)>,
))
    ensures
        obj_view(r.0@) == spec_extension_entries(obj_view(entries@)),
        obj_view(r.1@) == spec_other_entries(obj_view(entries@)),
{
    let ghost ev = obj_view(entries@);
    let mut extensions: Vec<(String, Json)> = Vec::new();
    let mut other: Vec<(String, Json)> = Vec::new();
    let mut i: usize = 0;
    proof {
        assert(ev.skip(0) =~= ev);
        assert(obj_view(extensions@) + spec_extension_entries(ev) =~= spec_extension_entries(ev));
        assert(obj_view(other@) + spec_other_entries(ev) =~= spec_other_entries(ev));
    }
    while i < entries.len()
        invariant
            0 <= i <= entries.len(),
            spec_extension_entries(ev) == obj_view(extensions@) + spec_extension_entries(
                ev.skip(i as int),
            ),
            spec_other_entries(ev) == obj_view(other@) + spec_other_entries(ev.skip(i as int)),
        decreases entries.len() - i,
    {
        proof {
            assert(ev.skip(i as int)[0] == ev[i as int]);
            assert(ev[i as int] == (entries@[i as int].0@, json_view(entries@[i as int].1)));
            assert(ev.skip(i as int).drop_first() =~= ev.skip(i as int + 1));
        }
        let entry = &entries[i];
        let known = is_known_key(entry.0.as_str());
        if !known {
            let vendor = is_vendor_key(entry.0.as_str());
            let ck = entry.0.clone();
            let cv = json_clone(&entry.1);
            if vendor {
                let ghost x0 = obj_view(extensions@);
                extensions.push((ck, cv));
                proof {
                    assert(obj_view(extensions@) =~= x0 + seq![ev[i as int]]);
                    assert(x0 + (seq![ev[i as int]] + spec_extension_entries(ev.skip(i as int + 1)))
                        =~= obj_view(extensions@) + spec_extension_entries(ev.skip(i as int + 1)));
                }
            } else {
                let ghost x0 = obj_view(other@);
                other.push((ck, cv));
                proof {
                    assert(obj_view(other@) =~= x0 + seq![ev[i as int]]);
                    assert(x0 + (seq![ev[i as int]] + spec_other_entries(ev.skip(i as int + 1)))
                        =~= obj_view(other@) + spec_other_entries(ev.skip(i as int + 1)));
                }
            }
        }
        i += 1;
    }
    proof {
        assert(ev.skip(entries@.len() as int) =~= Seq::<(Seq<char>, JsonV)>::empty());
        assert(obj_view(extensions@) + Seq::<(Seq<char>, JsonV)>::empty() =~= obj_view(
            extensions@,
        ));
        assert(obj_view(other@) + Seq::<(Seq<char>, JsonV)>::empty() =~= obj_view(other@));
    }
    (extensions, other)
}

/// Decode the array keyword group; the outer level reports whether all
/// its keywords decoded, the inner whether the group is present.
#[verifier::loop_isolation(false)]
pub fn decode_array_group(entries: &Vec<(String, Json)>) -> (r: Option<Option<ArrayValidation>>)
    ensures
        match r {
            Some(g) => {
                &&& spec_dec_array_ok(obj_view(entries@))
                &&& match g {
                    Some(av) => spec_dec_array_group(obj_view(entries@)) == Some(
                        crate::model::array_validation_view(av),
                    ),
                    None => spec_dec_array_group(obj_view(entries@)) is None,
                }
            },
            None => !spec_dec_array_ok(obj_view(entries@)),
        },
    decreases entries, 8int,
{
    let items: Option<Items> = match json_map_get(entries, "items") {
        None => None,
        Some(jv) => {
            proof {
                lemma_entry_value_height(entries@, *jv);
            }
            match decode_items(jv) {
                Some(it) => Some(it),
                None => {
                    return None;
                },
            }
        },
    };
    let additional_items: Option<Schema> = match json_map_get(entries, "additionalItems") {
        None => None,
        Some(jv) => {
            proof {
                lemma_entry_value_height(entries@, *jv);
            }
            match decode_schema(jv) {
                Some(sc) => Some(sc),
                None => {
                    return None;
                },
            }
        },
    };
    let max_items: Option<u32> = match json_map_get(entries, "maxItems") {
        None => None,
        Some(v) => match decode_u32(v) {
            Some(n) => Some(n),
            None => {
                return None;
            },
        },
    };
    let min_items: Option<u32> = match json_map_get(entries, "minItems") {
        None => None,
        Some(v) => match decode_u32(v) {
            Some(n) => Some(n),
            None => {
                return None;
            },
        },
    };
    let unique_items: Option<bool> = match json_map_get(entries, "uniqueItems") {
        None => None,
        Some(Json::Bool(b)) => Some(*b),
        Some(_) => {
            return None;
        },
    };
    let contains: Option<Schema> = match json_map_get(entries, "contains") {
        None => None,
        Some(jv) => {
            proof {
                lemma_entry_value_height(entries@, *jv);
            }
            match decode_schema(jv) {
                Some(sc) => Some(sc),
                None => {
                    return None;
                },
            }
        },
    };
    let has_array = items.is_some() || additional_items.is_some() || max_items.is_some()
        || min_items.is_some() || unique_items.is_some() || contains.is_some();
    if has_array {
        Some(
            Some(
                ArrayValidation {
                    items,
                    additional_items: match additional_items {
                        Some(s) => Some(Box::new(s)),
                        None => None,
                    },
                    max_items,
                    min_items,
                    unique_items,
                    contains: match contains {
                        Some(s) => Some(Box::new(s)),
                        None => None,
                    },
                },
            ),
        )
    } else {
        Some(None)
    }
}

/// Decode the object keyword group; the outer level reports whether all
/// its keywords decoded, the inner whether the group is present.
#[verifier::loop_isolation(false)]
pub fn decode_object_group(entries: &Vec<(String, Json)>) -> (r: Option<Option<ObjectValidation>>)
    ensures
        match r {
            Some(g) => {
                &&& spec_dec_object_ok(obj_view(entries@))
                &&& match g {
                    Some(ov) => spec_dec_object_group(obj_view(entries@)) == Some(
                        object_validation_view(ov),
                    ),
                    None => spec_dec_object_group(obj_view(entries@)) is None,
                }
            },
            None => !spec_dec_object_ok(obj_view(entries@)),
        },
    decreases entries, 8int,
{
    let max_properties: Option<u32> = match json_map_get(entries, "maxProperties") {
        None => None,
        Some(v) => match decode_u32(v) {
            Some(n) => Some(n),
            None => {
                return None;
            },
        },
    };
    let min_properties: Option<u32> = match json_map_get(entries, "minProperties") {
        None => None,
        Some(v) => match decode_u32(v) {
            Some(n) => Some(n),
            None => {
                return None;
            },
        },
    };
    let required: Vec<String> = match json_map_get(entries, "required") {
        None => Vec::new(),
        Some(Json::Arr(a)) => match decode_required(a) {
            Some(v) => v,
            None => {
                return None;
            },
        },
        Some(_) => {
            return None;
        },
    };
    let properties: Vec<(String, Schema)> = match json_map_get(entries, "properties") {
        None => Vec::new(),
        Some(jv) => {
            proof {
                lemma_entry_value_height(entries@, *jv);
            }
            match jv {
                Json::Obj(po) => match decode_props(po) {
                    Some(v) => v,
                    None => {
                        return None;
                    },
                },
                _ => {
                    return None;
                },
            }
        },
    };
    let pattern_properties: Vec<(String, Schema)> = match json_map_get(entries, "patternProperties")
        {
        None => Vec::new(),
        Some(jv) => {
            proof {
                lemma_entry_value_height(entries@, *jv);
            }
            match jv {
                Json::Obj(po) => match decode_props(po) {
                    Some(v) => v,
                    None => {
                        return None;
                    },
                },
                _ => {
                    return None;
                },
            }
        },
    };
    let additional_properties: Option<Schema> = match json_map_get(entries, "additionalProperties")
        {
        None => None,
        Some(jv) => {
            proof {
                lemma_entry_value_height(entries@, *jv);
            }
            match decode_schema(jv) {
                Some(sc) => Some(sc),
                None => {
                    return None;
                },
            }
        },
    };
    let property_names: Option<Schema> = match json_map_get(entries, "propertyNames") {
        None => None,
        Some(jv) => {
            proof {
                lemma_entry_value_height(entries@, *jv);
            }
            match decode_schema(jv) {
                Some(sc) => Some(sc),
                None => {
                    return None;
                },
            }
        },
    };
    proof {
        if spec_map_get(obj_view(entries@), "required"@) is None {
            assert(keys_view(required@) =~= Seq::<Seq<char>>::empty());
        }
        if spec_map_get(obj_view(entries@), "properties"@) is None {
            assert(props_view(properties@) =~= Seq::<(Seq<char>, SchemaV)>::empty());
        }
        if spec_map_get(obj_view(entries@), "patternProperties"@) is None {
            assert(props_view(pattern_properties@) =~= Seq::<(Seq<char>, SchemaV)>::empty());
        }
    }
    let has_object = max_properties.is_some() || min_properties.is_some() || required.len() > 0
        || properties.len() > 0 || pattern_properties.len() > 0 || additional_properties.is_some()
        || property_names.is_some();
    if has_object {
        Some(
            Some(
                ObjectValidation {
                    max_properties,
                    min_properties,
                    required,
                    properties,
                    pattern_properties,
                    additional_properties: match additional_properties {
                        Some(s) => Some(Box::new(s)),
                        None => None,
                    },
                    property_names: match property_names {
                        Some(s) => Some(Box::new(s)),
                        None => None,
                    },
                },
            ),
        )
    } else {
        Some(None)
    }
}

/// Decode an entry list as a schema object; nothing when any keyword has
/// a shape the model does not represent.
#[verifier::loop_isolation(false)]
#[verifier::rlimit(100)]
pub fn decode_schema_object(entries: &Vec<(String, Json)>) -> (r: Option<SchemaObject>)
    ensures
        match r {
            Some(m) => spec_dec_schema_object(obj_view(entries@)) == Some(schema_object_view(m)),
            None => spec_dec_schema_object(obj_view(entries@)) is None,
        },
    decreases entries, 9int,
{
    let ghost ev = obj_view(entries@);
    let description: Option<String> = match json_map_get(entries, "description") {
        None => None,
        Some(Json::Str(s)) => Some(s.clone()),
        Some(_) => {
            return None;
        },
    };
    let default: Option<Json> = match json_map_get(entries, "default") {
        None => None,
        Some(v) => Some(json_clone(v)),
    };
    let instance_type: Option<TypeList> = match json_map_get(entries, "type") {
        None => None,
        Some(v) => match decode_type_list(v) {
            Some(t) => Some(t),
            None => {
                return None;
            },
        },
    };
    let format: Option<String> = match json_map_get(entries, "format") {
        None => None,
        Some(Json::Str(s)) => Some(s.clone()),
        Some(_) => {
            return None;
        },
    };
    let enum_values: Option<Vec<Json>> = match json_map_get(entries, "enum") {
        None => None,
        Some(Json::Arr(a)) => Some(json_list_clone(a)),
        Some(_) => {
            return None;
        },
    };
    let any_of: Option<Vec<Schema>> = match json_map_get(entries, "anyOf") {
        None => None,
        Some(jv) => {
            proof {
                lemma_entry_value_height(entries@, *jv);
            }
            match jv {
                Json::Arr(a) => match decode_schemas(a) {
                    Some(v) => Some(v),
                    None => {
                        return None;
                    },
                },
                _ => {
                    return None;
                },
            }
        },
    };
    let one_of: Option<Vec<Schema>> = match json_map_get(entries, "oneOf") {
        None => None,
        Some(jv) => {
            proof {
                lemma_entry_value_height(entries@, *jv);
            }
            match jv {
                Json::Arr(a) => match decode_schemas(a) {
                    Some(v) => Some(v),
                    None => {
                        return None;
                    },
                },
                _ => {
                    return None;
                },
            }
        },
    };
    let array: Option<ArrayValidation> = match decode_array_group(entries) {
        Some(g) => g,
        None => {
            return None;
        },
    };
    let object: Option<ObjectValidation> = match decode_object_group(entries) {
        Some(g) => g,
        None => {
            return None;
        },
    };
    let (extensions, other) = decode_unmodelled(entries);
    let has_meta = description.is_some() || default.is_some();
    let metadata = if has_meta {
        Some(Metadata { description, default })
    } else {
        None
    };
    let has_subs = any_of.is_some() || one_of.is_some();
    let subschemas = if has_subs {
        Some(SubschemaValidation { any_of, one_of })
    } else {
        None
    };
    let result = SchemaObject {
        metadata,
        instance_type,
        format,
        enum_values,
        subschemas,
        array,
        object,
        extensions,
        other,
    };
    proof {
        assert(spec_dec_ok(ev));
        let sx = spec_dec_schema_object(ev);
        assert(sx is Some);
        assert(schema_object_view(result).metadata =~~= sx->Some_0.metadata);
        assert(schema_object_view(result).subschemas =~~= sx->Some_0.subschemas);
        assert(schema_object_view(result) =~~= sx->Some_0);
    }
    Some(result)
}

} // verus!