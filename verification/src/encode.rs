//! Re-encoding the typed schema model back to a generic JSON node.
//!
//! Encoding is total: every keyword group that is present emits its
//! keywords, absent keywords are skipped, and the entries are kept in
//! key order. Vendor extensions and passthrough keywords are emitted
//! verbatim; on a key collision the later write wins.

use vstd::prelude::*;

use vstd::string::StringExecFns;

use crate::json::{
    arr_view, json_clone, json_list_clone, json_map_insert, json_view, keys_view, obj_view,
    spec_map_insert, Json, JsonV,
};
use crate::model::{
    array_validation_view, items_view, object_validation_view, props_view,
    schema_object_view, schema_view, schemas_view, type_list_view, ArrayValidation, ArrayValidationV, InstanceType,
    Items, ItemsV, Metadata, MetadataV, ObjectValidation, ObjectValidationV, Schema, SchemaObject,
    SchemaObjectV, SchemaV, SubschemaValidation, SubschemasV, TypeList, TypeListV,
};

verus! {

broadcast use vstd::std_specs::vec::group_vec_axioms, vstd::seq::group_seq_axioms,
    vstd::seq_lib::group_seq_lib_default;

/// The character of one decimal digit.
pub open spec fn spec_digit_char(d: int) -> char {
    if d == 0 {
        '0'
    } else if d == 1 {
        '1'
    } else if d == 2 {
        '2'
    } else if d == 3 {
        '3'
    } else if d == 4 {
        '4'
    } else if d == 5 {
        '5'
    } else if d == 6 {
        '6'
    } else if d == 7 {
        '7'
    } else if d == 8 {
        '8'
    } else {
        '9'
    }
}

/// The decimal text of a non-negative number.
pub open spec fn spec_u32_str(v: int) -> Seq<char>
    decreases v,
    via spec_u32_str_decreases
{
    if v < 10 {
        seq![spec_digit_char(v)]
    } else {
        spec_u32_str(v / 10).push(spec_digit_char(v % 10))
    }
}

#[via_fn]
proof fn spec_u32_str_decreases(v: int) {
    if v >= 10 {
        assert(v / 10 < v) by (nonlinear_arith)
            requires
                v >= 10,
        ;
        assert(v / 10 >= 0) by (nonlinear_arith)
            requires
                v >= 10,
        ;
    }
}

/// One decimal digit as text.
pub fn digit_str(d: u32) -> (r: &'static str)
    requires
        d < 10,
    ensures
        r@ == seq![spec_digit_char(d as int)],
{
    let r = match d {
        0u32 => "0",
        1u32 => "1",
        2u32 => "2",
        3u32 => "3",
        4u32 => "4",
        5u32 => "5",
        6u32 => "6",
        7u32 => "7",
        8u32 => "8",
        _ => "9",
    };
    proof {
        reveal_strlit("0");
        reveal_strlit("1");
        reveal_strlit("2");
        reveal_strlit("3");
        reveal_strlit("4");
        reveal_strlit("5");
        reveal_strlit("6");
        reveal_strlit("7");
        reveal_strlit("8");
        reveal_strlit("9");
        assert(r@ =~= seq![spec_digit_char(d as int)]);
    }
    r
}

/// The decimal text of a number.
pub fn u32_to_string(v: u32) -> (r: String)
    ensures
        r@ == spec_u32_str(v as int),
    decreases v,
{
    if v < 10 {
        let s = digit_str(v);
        s.to_owned()
    } else {
        let rest = u32_to_string(v / 10);
        let d = digit_str(v % 10);
        let r = rest.concat(d);
        proof {
            assert(r@ =~= spec_u32_str((v / 10) as int).push(spec_digit_char((v % 10) as int)));
        }
        r
    }
}

/// The name of an instance type.
pub open spec fn spec_enc_instance_type(t: InstanceType) -> Seq<char> {
    match t {
        InstanceType::Null => "null"@,
        InstanceType::Boolean => "boolean"@,
        InstanceType::Object => "object"@,
        InstanceType::Array => "array"@,
        InstanceType::Number => "number"@,
        InstanceType::String => "string"@,
        InstanceType::Integer => "integer"@,
    }
}

/// The name of an instance type.
pub fn encode_instance_type(t: InstanceType) -> (r: String)
    ensures
        r@ == spec_enc_instance_type(t),
{
    match t {
        InstanceType::Null => "null".to_owned(),
        InstanceType::Boolean => "boolean".to_owned(),
        InstanceType::Object => "object".to_owned(),
        InstanceType::Array => "array".to_owned(),
        InstanceType::Number => "number".to_owned(),
        InstanceType::String => "string".to_owned(),
        InstanceType::Integer => "integer".to_owned(),
    }
}

/// What a `type` keyword value encodes to.
pub open spec fn spec_enc_type_list(t: TypeListV) -> JsonV {
    match t {
        TypeListV::Single(x) => JsonV::Str(spec_enc_instance_type(x)),
        TypeListV::Many(ts) => JsonV::Arr(
            Seq::new(
                ts.len(),
                |i: int|
                    if 0 <= i < ts.len() {
                        JsonV::Str(spec_enc_instance_type(ts[i]))
                    } else {
                        JsonV::Null
                    },
            ),
        ),
    }
}

/// Encode a `type` keyword value.
#[verifier::loop_isolation(false)]
pub fn encode_type_list(t: &TypeList) -> (r: Json)
    ensures
        json_view(r) == spec_enc_type_list(type_list_view(*t)),
{
    match t {
        TypeList::Single(x) => Json::Str(encode_instance_type(*x)),
        TypeList::Many(ts) => {
            let mut out: Vec<Json> = Vec::new();
            let mut i: usize = 0;
            while i < ts.len()
                invariant
                    0 <= i <= ts.len(),
                    out@.len() == i,
                    forall|k: int|
                        0 <= k < i ==> json_view(#[trigger] out@[k]) == JsonV::Str(
                            spec_enc_instance_type(ts@[k]),
                        ),
                decreases ts.len() - i,
            {
                out.push(Json::Str(encode_instance_type(ts[i])));
                i += 1;
            }
            proof {
                assert(arr_view(out@) =~= spec_enc_type_list(type_list_view(*t))->Arr_0);
            }
            Json::Arr(out)
        },
    }
}

/// What a schema encodes to.
pub open spec fn spec_enc_schema(s: SchemaV) -> JsonV
    decreases s,
{
    match s {
        SchemaV::Bool(b) => JsonV::Bool(b),
        SchemaV::Object(m) => JsonV::Obj(spec_enc_entries(m)),
    }
}

/// What a schema list encodes to.
pub open spec fn spec_enc_schemas(ss: Seq<SchemaV>) -> Seq<JsonV>
    decreases ss,
{
    Seq::new(
        ss.len(),
        |i: int|
            if 0 <= i < ss.len() {
                spec_enc_schema(ss[i])
            } else {
                JsonV::Null
            },
    )
}

/// What a properties map encodes to.
pub open spec fn spec_enc_props(ps: Seq<(Seq<char>, SchemaV)>) -> Seq<(Seq<char>, JsonV)>
    decreases ps,
{
    Seq::new(
        ps.len(),
        |i: int|
            if 0 <= i < ps.len() {
                (ps[i].0, spec_enc_schema(ps[i].1))
            } else {
                (Seq::<char>::empty(), JsonV::Null)
            },
    )
}

/// What an `items` keyword value encodes to.
pub open spec fn spec_enc_items(it: ItemsV) -> JsonV
    decreases it,
{
    match it {
        ItemsV::Single(b) => spec_enc_schema(*b),
        ItemsV::Many(ss) => JsonV::Arr(spec_enc_schemas(ss)),
    }
}

/// What a `required` keyword value encodes to.
pub open spec fn spec_enc_required(rs: Seq<Seq<char>>) -> JsonV {
    JsonV::Arr(
        Seq::new(
            rs.len(),
            |i: int|
                if 0 <= i < rs.len() {
                    JsonV::Str(rs[i])
                } else {
                    JsonV::Null
                },
        ),
    )
}

/// Insert an optional keyword in key order.
pub open spec fn spec_enc_opt(e: Seq<(Seq<char>, JsonV)>, k: Seq<char>, v: Option<JsonV>) -> Seq<
    (Seq<char>, JsonV),
> {
    match v {
        Some(x) => spec_map_insert(e, k, x),
        None => e,
    }
}

/// The entries of the annotation keywords.
pub open spec fn spec_enc_meta(e: Seq<(Seq<char>, JsonV)>, md: Option<MetadataV>) -> Seq<
    (Seq<char>, JsonV),
> {
    match md {
        None => e,
        Some(m) => {
            let e1 = spec_enc_opt(
                e,
                "description"@,
                match m.description {
                    Some(d) => Some(JsonV::Str(d)),
                    None => None,
                },
            );
            spec_enc_opt(e1, "default"@, m.default)
        },
    }
}

/// The entries of the composition keywords.
pub open spec fn spec_enc_subschemas(e: Seq<(Seq<char>, JsonV)>, subs: Option<SubschemasV>) -> Seq<
    (Seq<char>, JsonV),
>
    decreases subs,
{
    match subs {
        None => e,
        Some(s) => {
            let e1 = spec_enc_opt(
                e,
                "anyOf"@,
                match s.any_of {
                    Some(ss) => Some(JsonV::Arr(spec_enc_schemas(ss))),
                    None => None,
                },
            );
            spec_enc_opt(
                e1,
                "oneOf"@,
                match s.one_of {
                    Some(ss) => Some(JsonV::Arr(spec_enc_schemas(ss))),
                    None => None,
                },
            )
        },
    }
}

/// The entries of the array keywords.
pub open spec fn spec_enc_array(e: Seq<(Seq<char>, JsonV)>, a: Option<ArrayValidationV>) -> Seq<
    (Seq<char>, JsonV),
>
    decreases a,
{
    match a {
        None => e,
        Some(av) => {
            let e1 = spec_enc_opt(
                e,
                "items"@,
                match av.items {
                    Some(it) => Some(spec_enc_items(it)),
                    None => None,
                },
            );
            let e2 = spec_enc_opt(
                e1,
                "additionalItems"@,
                match av.additional_items {
                    Some(b) => Some(spec_enc_schema(*b)),
                    None => None,
                },
            );
            let e3 = spec_enc_opt(
                e2,
                "maxItems"@,
                match av.max_items {
                    Some(n) => Some(JsonV::Num(spec_u32_str(n as int))),
                    None => None,
                },
            );
            let e4 = spec_enc_opt(
                e3,
                "minItems"@,
                match av.min_items {
                    Some(n) => Some(JsonV::Num(spec_u32_str(n as int))),
                    None => None,
                },
            );
            let e5 = spec_enc_opt(
                e4,
                "uniqueItems"@,
                match av.unique_items {
                    Some(b) => Some(JsonV::Bool(b)),
                    None => None,
                },
            );
            spec_enc_opt(
                e5,
                "contains"@,
                match av.contains {
                    Some(b) => Some(spec_enc_schema(*b)),
                    None => None,
                },
            )
        },
    }
}

/// The entries of the object keywords.
pub open spec fn spec_enc_object(e: Seq<(Seq<char>, JsonV)>, o: Option<ObjectValidationV>) -> Seq<
    (Seq<char>, JsonV),
>
    decreases o,
{
    match o {
        None => e,
        Some(ov) => {
            let e1 = spec_enc_opt(
                e,
                "maxProperties"@,
                match ov.max_properties {
                    Some(n) => Some(JsonV::Num(spec_u32_str(n as int))),
                    None => None,
                },
            );
            let e2 = spec_enc_opt(
                e1,
                "minProperties"@,
                match ov.min_properties {
                    Some(n) => Some(JsonV::Num(spec_u32_str(n as int))),
                    None => None,
                },
            );
            let e3 = spec_enc_opt(
                e2,
                "required"@,
                if ov.required.len() > 0 {
                    Some(spec_enc_required(ov.required))
                } else {
                    None
                },
            );
            let e4 = spec_enc_opt(
                e3,
                "properties"@,
                if ov.properties.len() > 0 {
                    Some(JsonV::Obj(spec_enc_props(ov.properties)))
                } else {
                    None
                },
            );
            let e5 = spec_enc_opt(
                e4,
                "patternProperties"@,
                if ov.pattern_properties.len() > 0 {
                    Some(JsonV::Obj(spec_enc_props(ov.pattern_properties)))
                } else {
                    None
                },
            );
            let e6 = spec_enc_opt(
                e5,
                "additionalProperties"@,
                match ov.additional_properties {
                    Some(b) => Some(spec_enc_schema(*b)),
                    None => None,
                },
            );
            spec_enc_opt(
                e6,
                "propertyNames"@,
                match ov.property_names {
                    Some(b) => Some(spec_enc_schema(*b)),
                    None => None,
                },
            )
        },
    }
}

/// Insert a list of entries in order, each in key order.
pub open spec fn spec_enc_insert_all(
    e: Seq<(Seq<char>, JsonV)>,
    entries: Seq<(Seq<char>, JsonV)>,
) -> Seq<(Seq<char>, JsonV)>
    decreases entries.len(),
{
    if entries.len() == 0 {
        e
    } else {
        spec_enc_insert_all(
            spec_map_insert(e, entries[0].0, entries[0].1),
            entries.drop_first(),
        )
    }
}

/// The entries a schema object encodes to, in key order.
pub open spec fn spec_enc_entries(m: SchemaObjectV) -> Seq<(Seq<char>, JsonV)>
    decreases m,
{
    let e0 = Seq::<(Seq<char>, JsonV)>::empty();
    let e1 = spec_enc_meta(e0, m.metadata);
    let e2 = spec_enc_opt(
        e1,
        "type"@,
        match m.instance_type {
            Some(t) => Some(spec_enc_type_list(t)),
            None => None,
        },
    );
    let e3 = spec_enc_opt(
        e2,
        "format"@,
        match m.format {
            Some(f) => Some(JsonV::Str(f)),
            None => None,
        },
    );
    let e4 = spec_enc_opt(
        e3,
        "enum"@,
        match m.enum_values {
            Some(ev) => Some(JsonV::Arr(ev)),
            None => None,
        },
    );
    let e5 = spec_enc_subschemas(e4, m.subschemas);
    let e6 = spec_enc_array(e5, m.array);
    let e7 = spec_enc_object(e6, m.object);
    let e8 = spec_enc_insert_all(e7, m.extensions);
    spec_enc_insert_all(e8, m.other)
}

/// What a schema object encodes to.
pub open spec fn spec_enc_schema_object(m: SchemaObjectV) -> JsonV {
    JsonV::Obj(spec_enc_entries(m))
}

/// Encode a schema.
pub fn encode_schema(s: &Schema) -> (r: Json)
    ensures
        json_view(r) == spec_enc_schema(schema_view(*s)),
    decreases s,
{
    match s {
        Schema::Bool(b) => Json::Bool(*b),
        Schema::Object(m) => Json::Obj(encode_entries(m)),
    }
}

/// Encode a schema list.
#[verifier::loop_isolation(false)]
pub fn encode_schemas(ss: &Vec<Schema>) -> (r: Vec<Json>)
    ensures
        arr_view(r@) == spec_enc_schemas(schemas_view(ss@)),
    decreases ss,
{
    let mut out: Vec<Json> = Vec::new();
    let mut i: usize = 0;
    while i < ss.len()
        invariant
            0 <= i <= ss.len(),
            out@.len() == i,
            forall|k: int|
                0 <= k < i ==> json_view(#[trigger] out@[k]) == spec_enc_schema(
                    schema_view(ss@[k]),
                ),
        decreases ss.len() - i,
    {
        let c = encode_schema(&ss[i]);
        out.push(c);
        i += 1;
    }
    proof {
        assert forall|k: int| 0 <= k < ss@.len() implies spec_enc_schemas(schemas_view(ss@))[k]
            == arr_view(out@)[k] by {
            assert(schemas_view(ss@)[k] == schema_view(ss@[k]));
        }
        assert(arr_view(out@) =~= spec_enc_schemas(schemas_view(ss@)));
    }
    out
}

/// Encode a properties map.
#[verifier::loop_isolation(false)]
pub fn encode_props(ps: &Vec<(String, Schema)>) -> (r: Vec<(String, Json)>)
    ensures
        obj_view(r@) == spec_enc_props(props_view(ps@)),
    decreases ps,
{
    let mut out: Vec<(String, Json)> = Vec::new();
    let mut i: usize = 0;
    while i < ps.len()
        invariant
            0 <= i <= ps.len(),
            out@.len() == i,
            forall|k: int|
                0 <= k < i ==> (#[trigger] out@[k]).0@ == ps@[k].0@ && json_view(out@[k].1)
                    == spec_enc_schema(schema_view(ps@[k].1)),
        decreases ps.len() - i,
    {
        let entry = &ps[i];
        let ck = entry.0.clone();
        let cv = encode_schema(&entry.1);
        out.push((ck, cv));
        i += 1;
    }
    proof {
        assert forall|k: int| 0 <= k < ps@.len() implies spec_enc_props(props_view(ps@))[k]
            == obj_view(out@)[k] by {
            assert(props_view(ps@)[k] == (ps@[k].0@, schema_view(ps@[k].1)));
        }
        assert(obj_view(out@) =~= spec_enc_props(props_view(ps@)));
    }
    out
}

/// Encode an `items` keyword value.
pub fn encode_items(it: &Items) -> (r: Json)
    ensures
        json_view(r) == spec_enc_items(items_view(*it)),
    decreases it,
{
    match it {
        Items::Single(b) => encode_schema(b),
        Items::Many(ss) => Json::Arr(encode_schemas(ss)),
    }
}

/// Encode a `required` keyword value.
#[verifier::loop_isolation(false)]
pub fn encode_required(rs: &Vec<String>) -> (r: Json)
    ensures
        json_view(r) == spec_enc_required(keys_view(rs@)),
{
    let mut out: Vec<Json> = Vec::new();
    let mut i: usize = 0;
    while i < rs.len()
        invariant
            0 <= i <= rs.len(),
            out@.len() == i,
            forall|k: int|
                0 <= k < i ==> json_view(#[trigger] out@[k]) == JsonV::Str(rs@[k]@),
        decreases rs.len() - i,
    {
        out.push(Json::Str(rs[i].clone()));
        i += 1;
    }
    proof {
        assert forall|k: int| 0 <= k < rs@.len() implies spec_enc_required(keys_view(rs@))->Arr_0[k]
            == arr_view(out@)[k] by {
            assert(keys_view(rs@)[k] == rs@[k]@);
        }
        assert(arr_view(out@) =~= spec_enc_required(keys_view(rs@))->Arr_0);
    }
    Json::Arr(out)
}

/// Insert a list of entries in order, each in key order.
#[verifier::loop_isolation(false)]
pub fn encode_insert_all(out: &mut Vec<(String, Json)>, entries: &Vec<(String, Json)>)
    ensures
        obj_view(final(out)@) == spec_enc_insert_all(obj_view(old(out)@), obj_view(entries@)),
{
    let ghost e0 = obj_view(out@);
    let ghost ev = obj_view(entries@);
    let mut i: usize = 0;
    proof {
        assert(ev.skip(0) =~= ev);
    }
    while i < entries.len()
        invariant
            0 <= i <= entries.len(),
            spec_enc_insert_all(e0, ev) == spec_enc_insert_all(obj_view(out@), ev.skip(i as int)),
        decreases entries.len() - i,
    {
        proof {
            assert(ev.skip(i as int)[0] == ev[i as int]);
            assert(ev[i as int] == (entries@[i as int].0@, json_view(entries@[i as int].1)));
            assert(ev.skip(i as int).drop_first() =~= ev.skip(i as int + 1));
        }
        let entry = &entries[i];
        let ck = entry.0.clone();
        let cv = json_clone(&entry.1);
        json_map_insert(out, ck, cv);
        i += 1;
    }
    proof {
        assert(ev.skip(entries@.len() as int) =~= Seq::<(Seq<char>, JsonV)>::empty());
    }
}

/// Emit the annotation keywords.
pub fn encode_meta_into(out: &mut Vec<(String, Json)>, md: &Option<Metadata>)
    ensures
        obj_view(final(out)@) == spec_enc_meta(
            obj_view(old(out)@),
            crate::model::opt_metadata_view(*md),
        ),
{
    match md {
        None => {},
        Some(m) => {
            match &m.description {
                Some(d) => {
                    json_map_insert(out, "description".to_owned(), Json::Str(d.clone()));
                },
                None => {},
            }
            match &m.default {
                Some(d) => {
                    json_map_insert(out, "default".to_owned(), json_clone(d));
                },
                None => {},
            }
        },
    }
}

/// Emit the composition keywords.
pub fn encode_subschemas_into(out: &mut Vec<(String, Json)>, subs: &Option<SubschemaValidation>)
    ensures
        obj_view(final(out)@) == spec_enc_subschemas(
            obj_view(old(out)@),
            match *subs {
                Some(sv) => Some(crate::model::subschemas_view(sv)),
                None => None,
            },
        ),
    decreases subs,
{
    match subs {
        None => {},
        Some(sv) => {
            match &sv.any_of {
                Some(ss) => {
                    json_map_insert(out, "anyOf".to_owned(), Json::Arr(encode_schemas(ss)));
                },
                None => {},
            }
            match &sv.one_of {
                Some(ss) => {
                    json_map_insert(out, "oneOf".to_owned(), Json::Arr(encode_schemas(ss)));
                },
                None => {},
            }
        },
    }
}

/// Emit the array keywords.
pub fn encode_array_into(out: &mut Vec<(String, Json)>, a: &Option<ArrayValidation>)
    ensures
        obj_view(final(out)@) == spec_enc_array(
            obj_view(old(out)@),
            match *a {
                Some(av) => Some(array_validation_view(av)),
                None => None,
            },
        ),
    decreases a,
{
    match a {
        None => {},
        Some(av) => {
            match &av.items {
                Some(it) => {
                    json_map_insert(out, "items".to_owned(), encode_items(it));
                },
                None => {},
            }
            match &av.additional_items {
                Some(b) => {
                    json_map_insert(out, "additionalItems".to_owned(), encode_schema(b));
                },
                None => {},
            }
            match av.max_items {
                Some(n) => {
                    json_map_insert(out, "maxItems".to_owned(), Json::Num(u32_to_string(n)));
                },
                None => {},
            }
            match av.min_items {
                Some(n) => {
                    json_map_insert(out, "minItems".to_owned(), Json::Num(u32_to_string(n)));
                },
                None => {},
            }
            match av.unique_items {
                Some(b) => {
                    json_map_insert(out, "uniqueItems".to_owned(), Json::Bool(b));
                },
                None => {},
            }
            match &av.contains {
                Some(b) => {
                    json_map_insert(out, "contains".to_owned(), encode_schema(b));
                },
                None => {},
            }
        },
    }
}

/// Emit the object keywords.
pub fn encode_object_into(out: &mut Vec<(String, Json)>, o: &Option<ObjectValidation>)
    ensures
        obj_view(final(out)@) == spec_enc_object(
            obj_view(old(out)@),
            match *o {
                Some(ov) => Some(object_validation_view(ov)),
                None => None,
            },
        ),
    decreases o,
{
    match o {
        None => {},
        Some(ov) => {
            match ov.max_properties {
                Some(n) => {
                    json_map_insert(out, "maxProperties".to_owned(), Json::Num(u32_to_string(n)));
                },
                None => {},
            }
            match ov.min_properties {
                Some(n) => {
                    json_map_insert(out, "minProperties".to_owned(), Json::Num(u32_to_string(n)));
                },
                None => {},
            }
            if ov.required.len() > 0 {
                json_map_insert(out, "required".to_owned(), encode_required(&ov.required));
            }
            if ov.properties.len() > 0 {
                json_map_insert(
                    out,
                    "properties".to_owned(),
                    Json::Obj(encode_props(&ov.properties)),
                );
            }
            if ov.pattern_properties.len() > 0 {
                json_map_insert(
                    out,
                    "patternProperties".to_owned(),
                    Json::Obj(encode_props(&ov.pattern_properties)),
                );
            }
            match &ov.additional_properties {
                Some(b) => {
                    json_map_insert(out, "additionalProperties".to_owned(), encode_schema(b));
                },
                None => {},
            }
            match &ov.property_names {
                Some(b) => {
                    json_map_insert(out, "propertyNames".to_owned(), encode_schema(b));
                },
                None => {},
            }
        },
    }
}

/// Encode the entries of a schema object, in key order.
pub fn encode_entries(m: &SchemaObject) -> (r: Vec<(String, Json)>)
    ensures
        obj_view(r@) == spec_enc_entries(schema_object_view(*m)),
    decreases m,
{
    let ghost mv = schema_object_view(*m);
    let mut out: Vec<(String, Json)> = Vec::new();
    proof {
        assert(obj_view(out@) =~= Seq::<(Seq<char>, JsonV)>::empty());
    }
    encode_meta_into(&mut out, &m.metadata);
    match &m.instance_type {
        Some(t) => {
            let tv = encode_type_list(t);
            json_map_insert(&mut out, "type".to_owned(), tv);
        },
        None => {},
    }
    match &m.format {
        Some(f) => {
            json_map_insert(&mut out, "format".to_owned(), Json::Str(f.clone()));
        },
        None => {},
    }
    match &m.enum_values {
        Some(ev) => {
            json_map_insert(&mut out, "enum".to_owned(), Json::Arr(json_list_clone(ev)));
        },
        None => {},
    }
    encode_subschemas_into(&mut out, &m.subschemas);
    encode_array_into(&mut out, &m.array);
    encode_object_into(&mut out, &m.object);
    encode_insert_all(&mut out, &m.extensions);
    encode_insert_all(&mut out, &m.other);
    proof {
        assert(obj_view(out@) =~= spec_enc_entries(mv));
    }
    out
}

/// Encode a schema object as a JSON node.
pub fn encode_schema_object(m: &SchemaObject) -> (r: Json)
    ensures
        json_view(r) == spec_enc_schema_object(schema_object_view(*m)),
{
    Json::Obj(encode_entries(m))
}

} // verus!
