//! The typed model of one JSON Schema node.
//!
//! A node is either a trivial boolean schema or a structured object whose
//! keyword groups (metadata, subschemas, array keywords, object keywords)
//! are each optional and default-empty. Maps keep their entries in key
//! order, mirroring a sorted map; `required` is a sorted list of names.

use vstd::prelude::*;

use crate::json::{arr_view, json_view, keys_view, lemma_lex_trichotomy, lemma_map_get_skip,
    lemma_map_insert_skip, lex_lt, obj_view, spec_map_get, spec_map_insert, str_eq, str_lt, Json,
    JsonV};

verus! {

broadcast use vstd::std_specs::vec::group_vec_axioms, vstd::seq::group_seq_axioms,
    vstd::seq_lib::group_seq_lib_default;

/// The possible types of values in JSON Schema documents.
#[derive(Clone, Copy, PartialEq, Eq, Structural, Debug)]
pub enum InstanceType {
    Null,
    Boolean,
    Object,
    Array,
    Number,
    String,
    Integer,
}

/// The `type` keyword: one name, or a list of names. A lone name and a
/// one-element list are distinct wire shapes and round-trip distinctly.
#[derive(Debug, PartialEq)]
pub enum TypeList {
    Single(InstanceType),
    Many(Vec<InstanceType>),
}

/// Model of a `TypeList`.
#[verifier::ext_equal]
pub enum TypeListV {
    Single(InstanceType),
    Many(Seq<InstanceType>),
}

/// The model of a `TypeList`.
pub open spec fn type_list_view(t: TypeList) -> TypeListV {
    match t {
        TypeList::Single(x) => TypeListV::Single(x),
        TypeList::Many(v) => TypeListV::Many(v@),
    }
}

/// Keywords that annotate a node without constraining instances.
#[derive(Debug, PartialEq)]
pub struct Metadata {
    /// The `description` keyword.
    pub description: Option<String>,
    /// The `default` keyword; an explicit `null` is kept distinct from an
    /// absent keyword.
    pub default: Option<Json>,
}

/// Model of `Metadata`.
#[verifier::ext_equal]
pub struct MetadataV {
    pub description: Option<Seq<char>>,
    pub default: Option<JsonV>,
}

/// The model of a `Metadata`.
pub open spec fn metadata_view(m: Metadata) -> MetadataV {
    MetadataV {
        description: match m.description {
            Some(s) => Some(s@),
            None => None,
        },
        default: match m.default {
            Some(d) => Some(json_view(d)),
            None => None,
        },
    }
}

/// A JSON Schema: a trivial boolean schema or a schema object.
#[derive(Debug, PartialEq)]
pub enum Schema {
    /// `true` passes every instance; `false` passes none.
    Bool(bool),
    /// A structured schema node.
    Object(SchemaObject),
}

/// The `anyOf`/`oneOf` composition keywords. In a structurally valid node
/// at most one of the two is populated.
#[derive(Debug, PartialEq)]
pub struct SubschemaValidation {
    /// The `anyOf` keyword.
    pub any_of: Option<Vec<Schema>>,
    /// The `oneOf` keyword.
    pub one_of: Option<Vec<Schema>>,
}

/// The `items` keyword: one schema, or a list of schemas.
#[derive(Debug, PartialEq)]
pub enum Items {
    Single(Box<Schema>),
    Many(Vec<Schema>),
}

/// Keywords that constrain arrays.
#[derive(Debug, PartialEq)]
pub struct ArrayValidation {
    /// The `items` keyword.
    pub items: Option<Items>,
    /// The `additionalItems` keyword.
    pub additional_items: Option<Box<Schema>>,
    /// The `maxItems` keyword.
    pub max_items: Option<u32>,
    /// The `minItems` keyword.
    pub min_items: Option<u32>,
    /// The `uniqueItems` keyword.
    pub unique_items: Option<bool>,
    /// The `contains` keyword.
    pub contains: Option<Box<Schema>>,
}

/// Keywords that constrain objects.
#[derive(Debug, PartialEq)]
pub struct ObjectValidation {
    /// The `maxProperties` keyword.
    pub max_properties: Option<u32>,
    /// The `minProperties` keyword.
    pub min_properties: Option<u32>,
    /// The `required` keyword: a sorted set of names.
    pub required: Vec<String>,
    /// The `properties` keyword: a map with unique keys in key order.
    pub properties: Vec<(String, Schema)>,
    /// The `patternProperties` keyword.
    pub pattern_properties: Vec<(String, Schema)>,
    /// The `additionalProperties` keyword.
    pub additional_properties: Option<Box<Schema>>,
    /// The `propertyNames` keyword.
    pub property_names: Option<Box<Schema>>,
}

/// A structured JSON Schema node; every keyword group is optional.
#[derive(Debug, PartialEq)]
pub struct SchemaObject {
    /// Annotation keywords (`description`, `default`).
    pub metadata: Option<Metadata>,
    /// The `type` keyword.
    pub instance_type: Option<TypeList>,
    /// The `format` keyword.
    pub format: Option<String>,
    /// The `enum` keyword: an ordered list of literal values.
    pub enum_values: Option<Vec<Json>>,
    /// The `anyOf`/`oneOf` keywords.
    pub subschemas: Option<SubschemaValidation>,
    /// Array keywords.
    pub array: Option<ArrayValidation>,
    /// Object keywords.
    pub object: Option<ObjectValidation>,
    /// Vendor keywords (`nullable` and names starting with `x-`).
    pub extensions: Vec<(String, Json)>,
    /// Any other keyword not modelled above, preserved verbatim.
    pub other: Vec<(String, Json)>,
}

/// Model of a `Schema`.
#[verifier::ext_equal]
pub enum SchemaV {
    Bool(bool),
    Object(SchemaObjectV),
}

/// Model of a `SubschemaValidation`.
#[verifier::ext_equal]
pub struct SubschemasV {
    pub any_of: Option<Seq<SchemaV>>,
    pub one_of: Option<Seq<SchemaV>>,
}

/// Model of an `Items`.
#[verifier::ext_equal]
pub enum ItemsV {
    Single(Box<SchemaV>),
    Many(Seq<SchemaV>),
}

/// Model of an `ArrayValidation`.
#[verifier::ext_equal]
pub struct ArrayValidationV {
    pub items: Option<ItemsV>,
    pub additional_items: Option<Box<SchemaV>>,
    pub max_items: Option<u32>,
    pub min_items: Option<u32>,
    pub unique_items: Option<bool>,
    pub contains: Option<Box<SchemaV>>,
}

/// Model of an `ObjectValidation`.
#[verifier::ext_equal]
pub struct ObjectValidationV {
    pub max_properties: Option<u32>,
    pub min_properties: Option<u32>,
    pub required: Seq<Seq<char>>,
    pub properties: Seq<(Seq<char>, SchemaV)>,
    pub pattern_properties: Seq<(Seq<char>, SchemaV)>,
    pub additional_properties: Option<Box<SchemaV>>,
    pub property_names: Option<Box<SchemaV>>,
}

/// Model of a `SchemaObject`.
#[verifier::ext_equal]
pub struct SchemaObjectV {
    pub metadata: Option<MetadataV>,
    pub instance_type: Option<TypeListV>,
    pub format: Option<Seq<char>>,
    pub enum_values: Option<Seq<JsonV>>,
    pub subschemas: Option<SubschemasV>,
    pub array: Option<ArrayValidationV>,
    pub object: Option<ObjectValidationV>,
    pub extensions: Seq<(Seq<char>, JsonV)>,
    pub other: Seq<(Seq<char>, JsonV)>,
}

/// The model of a `Schema`.
pub open spec fn schema_view(s: Schema) -> SchemaV
    decreases s, 1int,
{
    match s {
        Schema::Bool(b) => SchemaV::Bool(b),
        Schema::Object(m) => SchemaV::Object(schema_object_view(m)),
    }
}

/// The model of a list of schemas.
pub open spec fn schemas_view(s: Seq<Schema>) -> Seq<SchemaV>
    decreases s, 0int,
{
    Seq::new(
        s.len(),
        |i: int|
            if 0 <= i < s.len() {
                schema_view(s[i])
            } else {
                SchemaV::Bool(false)
            },
    )
}

/// The model of a properties map.
pub open spec fn props_view(s: Seq<(String, Schema)>) -> Seq<(Seq<char>, SchemaV)>
    decreases s, 0int,
{
    Seq::new(
        s.len(),
        |i: int|
            if 0 <= i < s.len() {
                (s[i].0@, schema_view(s[i].1))
            } else {
                (Seq::<char>::empty(), SchemaV::Bool(false))
            },
    )
}

/// The model of an `Items`.
pub open spec fn items_view(it: Items) -> ItemsV
    decreases it, 0int,
{
    match it {
        Items::Single(b) => ItemsV::Single(Box::new(schema_view(*b))),
        Items::Many(v) => ItemsV::Many(schemas_view(v@)),
    }
}

/// The model of an optional boxed schema.
pub open spec fn opt_box_view(o: Option<Box<Schema>>) -> Option<Box<SchemaV>>
    decreases o, 0int,
{
    match o {
        Some(b) => Some(Box::new(schema_view(*b))),
        None => None,
    }
}

/// The model of a `SubschemaValidation`.
pub open spec fn subschemas_view(s: SubschemaValidation) -> SubschemasV
    decreases s, 0int,
{
    SubschemasV {
        any_of: match s.any_of {
            Some(v) => Some(schemas_view(v@)),
            None => None,
        },
        one_of: match s.one_of {
            Some(v) => Some(schemas_view(v@)),
            None => None,
        },
    }
}

/// The model of an `ArrayValidation`.
pub open spec fn array_validation_view(a: ArrayValidation) -> ArrayValidationV
    decreases a, 1int,
{
    ArrayValidationV {
        items: match a.items {
            Some(it) => Some(items_view(it)),
            None => None,
        },
        additional_items: opt_box_view(a.additional_items),
        max_items: a.max_items,
        min_items: a.min_items,
        unique_items: a.unique_items,
        contains: opt_box_view(a.contains),
    }
}

/// The model of an `ObjectValidation`.
pub open spec fn object_validation_view(o: ObjectValidation) -> ObjectValidationV
    decreases o, 1int,
{
    ObjectValidationV {
        max_properties: o.max_properties,
        min_properties: o.min_properties,
        required: keys_view(o.required@),
        properties: props_view(o.properties@),
        pattern_properties: props_view(o.pattern_properties@),
        additional_properties: opt_box_view(o.additional_properties),
        property_names: opt_box_view(o.property_names),
    }
}

/// The model of a `SchemaObject`.
pub open spec fn schema_object_view(m: SchemaObject) -> SchemaObjectV
    decreases m, 0int,
{
    SchemaObjectV {
        metadata: match m.metadata {
            Some(x) => Some(metadata_view(x)),
            None => None,
        },
        instance_type: match m.instance_type {
            Some(t) => Some(type_list_view(t)),
            None => None,
        },
        format: match m.format {
            Some(f) => Some(f@),
            None => None,
        },
        enum_values: match m.enum_values {
            Some(v) => Some(arr_view(v@)),
            None => None,
        },
        subschemas: match m.subschemas {
            Some(s) => Some(subschemas_view(s)),
            None => None,
        },
        array: match m.array {
            Some(a) => Some(array_validation_view(a)),
            None => None,
        },
        object: match m.object {
            Some(o) => Some(object_validation_view(o)),
            None => None,
        },
        extensions: obj_view(m.extensions@),
        other: obj_view(m.other@),
    }
}

impl DeepView for Schema {
    type V = SchemaV;

    open spec fn deep_view(&self) -> SchemaV {
        schema_view(*self)
    }
}

impl DeepView for SchemaObject {
    type V = SchemaObjectV;

    open spec fn deep_view(&self) -> SchemaObjectV {
        schema_object_view(*self)
    }
}

/// Structural equality of two type lists.
#[verifier::loop_isolation(false)]
pub fn type_list_eq(a: &TypeList, b: &TypeList) -> (r: bool)
    ensures
        r == (type_list_view(*a) == type_list_view(*b)),
{
    match (a, b) {
        (TypeList::Single(x), TypeList::Single(y)) => *x == *y,
        (TypeList::Many(x), TypeList::Many(y)) => {
            if x.len() != y.len() {
                return false;
            }
            let mut i: usize = 0;
            while i < x.len()
                invariant
                    i <= x.len(),
                    x@.len() == y@.len(),
                    forall|k: int| 0 <= k < i ==> x@[k] == y@[k],
                decreases x.len() - i,
            {
                if x[i] != y[i] {
                    return false;
                }
                i += 1;
            }
            proof {
                assert(x@ =~= y@);
            }
            true
        },
        _ => false,
    }
}

/// Structural equality of two metadata groups.
pub fn metadata_eq(a: &Metadata, b: &Metadata) -> (r: bool)
    ensures
        r == (metadata_view(*a) == metadata_view(*b)),
{
    let desc_ok = match (&a.description, &b.description) {
        (Some(x), Some(y)) => crate::json::str_eq(x.as_str(), y.as_str()),
        (None, None) => true,
        _ => false,
    };
    if !desc_ok {
        return false;
    }
    match (&a.default, &b.default) {
        (Some(x), Some(y)) => crate::json::json_eq(x, y),
        (None, None) => true,
        _ => false,
    }
}

/// Structural equality of two schemas.
pub fn schema_eq(a: &Schema, b: &Schema) -> (r: bool)
    ensures
        r == (schema_view(*a) == schema_view(*b)),
    decreases a,
{
    match (a, b) {
        (Schema::Bool(x), Schema::Bool(y)) => x == y,
        (Schema::Object(x), Schema::Object(y)) => schema_object_eq(x, y),
        _ => false,
    }
}

/// Structural equality of two schema lists.
#[verifier::loop_isolation(false)]
pub fn schemas_eq(x: &Vec<Schema>, y: &Vec<Schema>) -> (r: bool)
    ensures
        r == (schemas_view(x@) == schemas_view(y@)),
    decreases x,
{
    if x.len() != y.len() {
        proof {
            assert(schemas_view(x@).len() == x@.len());
            assert(schemas_view(y@).len() == y@.len());
        }
        return false;
    }
    let mut i: usize = 0;
    while i < x.len()
        invariant
            i <= x.len(),
            x@.len() == y@.len(),
            forall|k: int| 0 <= k < i ==> schema_view(#[trigger] x@[k]) == schema_view(y@[k]),
        decreases x.len() - i,
    {
        if !schema_eq(&x[i], &y[i]) {
            proof {
                assert(schemas_view(x@)[i as int] == schema_view(x@[i as int]));
                assert(schemas_view(y@)[i as int] == schema_view(y@[i as int]));
            }
            return false;
        }
        i += 1;
    }
    proof {
        assert(schemas_view(x@) =~= schemas_view(y@));
    }
    true
}

/// Structural equality of two properties maps.
#[verifier::loop_isolation(false)]
pub fn props_eq(x: &Vec<(String, Schema)>, y: &Vec<(String, Schema)>) -> (r: bool)
    ensures
        r == (props_view(x@) == props_view(y@)),
    decreases x,
{
    if x.len() != y.len() {
        proof {
            assert(props_view(x@).len() == x@.len());
            assert(props_view(y@).len() == y@.len());
        }
        return false;
    }
    let mut i: usize = 0;
    while i < x.len()
        invariant
            i <= x.len(),
            x@.len() == y@.len(),
            forall|k: int|
                0 <= k < i ==> (#[trigger] x@[k]).0@ == y@[k].0@ && schema_view(x@[k].1)
                    == schema_view(y@[k].1),
        decreases x.len() - i,
    {
        let p = &x[i];
        let q = &y[i];
        if !crate::json::str_eq(p.0.as_str(), q.0.as_str()) || !schema_eq(&p.1, &q.1) {
            proof {
                assert(props_view(x@)[i as int] == (x@[i as int].0@, schema_view(x@[i as int].1)));
                assert(props_view(y@)[i as int] == (y@[i as int].0@, schema_view(y@[i as int].1)));
            }
            return false;
        }
        i += 1;
    }
    proof {
        assert(props_view(x@) =~= props_view(y@));
    }
    true
}

/// Structural equality of two sorted name lists.
#[verifier::loop_isolation(false)]
pub fn required_eq(x: &Vec<String>, y: &Vec<String>) -> (r: bool)
    ensures
        r == (crate::json::keys_view(x@) == crate::json::keys_view(y@)),
{
    if x.len() != y.len() {
        proof {
            assert(crate::json::keys_view(x@).len() == x@.len());
            assert(crate::json::keys_view(y@).len() == y@.len());
        }
        return false;
    }
    let mut i: usize = 0;
    while i < x.len()
        invariant
            i <= x.len(),
            x@.len() == y@.len(),
            forall|k: int| 0 <= k < i ==> (#[trigger] x@[k])@ == y@[k]@,
        decreases x.len() - i,
    {
        if !crate::json::str_eq(x[i].as_str(), y[i].as_str()) {
            proof {
                assert(crate::json::keys_view(x@)[i as int] == x@[i as int]@);
                assert(crate::json::keys_view(y@)[i as int] == y@[i as int]@);
            }
            return false;
        }
        i += 1;
    }
    proof {
        assert(crate::json::keys_view(x@) =~= crate::json::keys_view(y@));
    }
    true
}

/// Structural equality of two optional boxed schemas.
pub fn opt_box_schema_eq(a: &Option<Box<Schema>>, b: &Option<Box<Schema>>) -> (r: bool)
    ensures
        r == (opt_box_view(*a) == opt_box_view(*b)),
    decreases a,
{
    match (a, b) {
        (Some(x), Some(y)) => schema_eq(x, y),
        (None, None) => true,
        _ => false,
    }
}

/// Structural equality of two `items` values.
pub fn items_eq(a: &Items, b: &Items) -> (r: bool)
    ensures
        r == (items_view(*a) == items_view(*b)),
    decreases a,
{
    match (a, b) {
        (Items::Single(x), Items::Single(y)) => schema_eq(x, y),
        (Items::Many(x), Items::Many(y)) => schemas_eq(x, y),
        _ => false,
    }
}

/// Structural equality of two array keyword groups.
pub fn array_eq(a: &ArrayValidation, b: &ArrayValidation) -> (r: bool)
    ensures
        r == (array_validation_view(*a) == array_validation_view(*b)),
    decreases a,
{
    let items_ok = match (&a.items, &b.items) {
        (Some(x), Some(y)) => items_eq(x, y),
        (None, None) => true,
        _ => false,
    };
    if !items_ok {
        return false;
    }
    if !opt_box_schema_eq(&a.additional_items, &b.additional_items) {
        return false;
    }
    let max_ok = match (a.max_items, b.max_items) {
        (Some(x), Some(y)) => x == y,
        (None, None) => true,
        _ => false,
    };
    let min_ok = match (a.min_items, b.min_items) {
        (Some(x), Some(y)) => x == y,
        (None, None) => true,
        _ => false,
    };
    let uniq_ok = match (a.unique_items, b.unique_items) {
        (Some(x), Some(y)) => x == y,
        (None, None) => true,
        _ => false,
    };
    if !max_ok || !min_ok || !uniq_ok {
        return false;
    }
    opt_box_schema_eq(&a.contains, &b.contains)
}

/// Structural equality of two object keyword groups.
pub fn object_eq(a: &ObjectValidation, b: &ObjectValidation) -> (r: bool)
    ensures
        r == (object_validation_view(*a) == object_validation_view(*b)),
    decreases a,
{
    let max_ok = match (a.max_properties, b.max_properties) {
        (Some(x), Some(y)) => x == y,
        (None, None) => true,
        _ => false,
    };
    let min_ok = match (a.min_properties, b.min_properties) {
        (Some(x), Some(y)) => x == y,
        (None, None) => true,
        _ => false,
    };
    if !max_ok || !min_ok {
        return false;
    }
    if !required_eq(&a.required, &b.required) {
        return false;
    }
    if !props_eq(&a.properties, &b.properties) {
        return false;
    }
    if !props_eq(&a.pattern_properties, &b.pattern_properties) {
        return false;
    }
    if !opt_box_schema_eq(&a.additional_properties, &b.additional_properties) {
        return false;
    }
    opt_box_schema_eq(&a.property_names, &b.property_names)
}

/// Structural equality of two schema objects.
pub fn schema_object_eq(a: &SchemaObject, b: &SchemaObject) -> (r: bool)
    ensures
        r == (schema_object_view(*a) == schema_object_view(*b)),
    decreases a,
{
    let meta_ok = match (&a.metadata, &b.metadata) {
        (Some(x), Some(y)) => metadata_eq(x, y),
        (None, None) => true,
        _ => false,
    };
    if !meta_ok {
        return false;
    }
    let type_ok = match (&a.instance_type, &b.instance_type) {
        (Some(x), Some(y)) => type_list_eq(x, y),
        (None, None) => true,
        _ => false,
    };
    if !type_ok {
        return false;
    }
    let format_ok = match (&a.format, &b.format) {
        (Some(x), Some(y)) => crate::json::str_eq(x.as_str(), y.as_str()),
        (None, None) => true,
        _ => false,
    };
    if !format_ok {
        return false;
    }
    let enum_ok = match (&a.enum_values, &b.enum_values) {
        (Some(x), Some(y)) => crate::json::json_list_eq(x, y),
        (None, None) => true,
        _ => false,
    };
    if !enum_ok {
        return false;
    }
    let subs_ok = match (&a.subschemas, &b.subschemas) {
        (Some(sa), Some(sb)) => {
            let any_ok = match (&sa.any_of, &sb.any_of) {
                (Some(x), Some(y)) => schemas_eq(x, y),
                (None, None) => true,
                _ => false,
            };
            let one_ok = match (&sa.one_of, &sb.one_of) {
                (Some(x), Some(y)) => schemas_eq(x, y),
                (None, None) => true,
                _ => false,
            };
            any_ok && one_ok
        },
        (None, None) => true,
        _ => false,
    };
    if !subs_ok {
        return false;
    }
    let array_ok = match (&a.array, &b.array) {
        (Some(x), Some(y)) => array_eq(x, y),
        (None, None) => true,
        _ => false,
    };
    if !array_ok {
        return false;
    }
    let object_ok = match (&a.object, &b.object) {
        (Some(x), Some(y)) => object_eq(x, y),
        (None, None) => true,
        _ => false,
    };
    if !object_ok {
        return false;
    }
    if !crate::json::json_entries_eq(&a.extensions, &b.extensions) {
        return false;
    }
    crate::json::json_entries_eq(&a.other, &b.other)
}

/// Deep copy of a type list.
#[verifier::loop_isolation(false)]
pub fn type_list_clone(t: &TypeList) -> (r: TypeList)
    ensures
        type_list_view(r) == type_list_view(*t),
{
    match t {
        TypeList::Single(x) => TypeList::Single(*x),
        TypeList::Many(v) => {
            let mut out: Vec<InstanceType> = Vec::new();
            let mut i: usize = 0;
            while i < v.len()
                invariant
                    i <= v.len(),
                    out@.len() == i,
                    forall|k: int| 0 <= k < i ==> out@[k] == v@[k],
                decreases v.len() - i,
            {
                out.push(v[i]);
                i += 1;
            }
            proof {
                assert(out@ =~= v@);
            }
            TypeList::Many(out)
        },
    }
}

/// Deep copy of a metadata group.
pub fn metadata_clone(m: &Metadata) -> (r: Metadata)
    ensures
        metadata_view(r) == metadata_view(*m),
{
    Metadata {
        description: match &m.description {
            Some(s) => Some(s.clone()),
            None => None,
        },
        default: match &m.default {
            Some(d) => Some(crate::json::json_clone(d)),
            None => None,
        },
    }
}

/// Deep copy of a schema.
pub fn schema_clone(s: &Schema) -> (r: Schema)
    ensures
        schema_view(r) == schema_view(*s),
    decreases s,
{
    match s {
        Schema::Bool(b) => Schema::Bool(*b),
        Schema::Object(m) => Schema::Object(schema_object_clone(m)),
    }
}

/// Deep copy of a schema list.
#[verifier::loop_isolation(false)]
pub fn schemas_clone(v: &Vec<Schema>) -> (r: Vec<Schema>)
    ensures
        schemas_view(r@) == schemas_view(v@),
    decreases v,
{
    let mut out: Vec<Schema> = Vec::new();
    let mut i: usize = 0;
    while i < v.len()
        invariant
            i <= v.len(),
            out@.len() == i,
            forall|k: int| 0 <= k < i ==> schema_view(#[trigger] out@[k]) == schema_view(v@[k]),
        decreases v.len() - i,
    {
        let c = schema_clone(&v[i]);
        out.push(c);
        i += 1;
    }
    proof {
        assert(schemas_view(out@) =~= schemas_view(v@));
    }
    out
}

/// Deep copy of a properties map.
#[verifier::loop_isolation(false)]
pub fn props_clone(v: &Vec<(String, Schema)>) -> (r: Vec<(String, Schema)>)
    ensures
        props_view(r@) == props_view(v@),
    decreases v,
{
    let mut out: Vec<(String, Schema)> = Vec::new();
    let mut i: usize = 0;
    while i < v.len()
        invariant
            i <= v.len(),
            out@.len() == i,
            forall|k: int|
                0 <= k < i ==> (#[trigger] out@[k]).0@ == v@[k].0@ && schema_view(out@[k].1)
                    == schema_view(v@[k].1),
        decreases v.len() - i,
    {
        let entry = &v[i];
        let ck = entry.0.clone();
        let cv = schema_clone(&entry.1);
        out.push((ck, cv));
        i += 1;
    }
    proof {
        assert(props_view(out@) =~= props_view(v@));
    }
    out
}

/// Deep copy of a sorted name list.
#[verifier::loop_isolation(false)]
pub fn required_clone(v: &Vec<String>) -> (r: Vec<String>)
    ensures
        crate::json::keys_view(r@) == crate::json::keys_view(v@),
{
    let mut out: Vec<String> = Vec::new();
    let mut i: usize = 0;
    while i < v.len()
        invariant
            i <= v.len(),
            out@.len() == i,
            forall|k: int| 0 <= k < i ==> (#[trigger] out@[k])@ == v@[k]@,
        decreases v.len() - i,
    {
        out.push(v[i].clone());
        i += 1;
    }
    proof {
        assert(crate::json::keys_view(out@) =~= crate::json::keys_view(v@));
    }
    out
}

/// Deep copy of an optional boxed schema.
pub fn opt_box_schema_clone(o: &Option<Box<Schema>>) -> (r: Option<Box<Schema>>)
    ensures
        opt_box_view(r) == opt_box_view(*o),
    decreases o,
{
    match o {
        Some(b) => Some(Box::new(schema_clone(b))),
        None => None,
    }
}

/// Deep copy of an `items` value.
pub fn items_clone(it: &Items) -> (r: Items)
    ensures
        items_view(r) == items_view(*it),
    decreases it,
{
    match it {
        Items::Single(b) => Items::Single(Box::new(schema_clone(b))),
        Items::Many(v) => Items::Many(schemas_clone(v)),
    }
}

/// Deep copy of an array keyword group.
pub fn array_clone(a: &ArrayValidation) -> (r: ArrayValidation)
    ensures
        array_validation_view(r) == array_validation_view(*a),
    decreases a,
{
    ArrayValidation {
        items: match &a.items {
            Some(it) => Some(items_clone(it)),
            None => None,
        },
        additional_items: opt_box_schema_clone(&a.additional_items),
        max_items: a.max_items,
        min_items: a.min_items,
        unique_items: a.unique_items,
        contains: opt_box_schema_clone(&a.contains),
    }
}

/// Deep copy of an object keyword group.
pub fn object_clone(o: &ObjectValidation) -> (r: ObjectValidation)
    ensures
        object_validation_view(r) == object_validation_view(*o),
    decreases o,
{
    ObjectValidation {
        max_properties: o.max_properties,
        min_properties: o.min_properties,
        required: required_clone(&o.required),
        properties: props_clone(&o.properties),
        pattern_properties: props_clone(&o.pattern_properties),
        additional_properties: opt_box_schema_clone(&o.additional_properties),
        property_names: opt_box_schema_clone(&o.property_names),
    }
}

/// Deep copy of a schema object.
pub fn schema_object_clone(m: &SchemaObject) -> (r: SchemaObject)
    ensures
        schema_object_view(r) == schema_object_view(*m),
    decreases m,
{
    SchemaObject {
        metadata: match &m.metadata {
            Some(x) => Some(metadata_clone(x)),
            None => None,
        },
        instance_type: match &m.instance_type {
            Some(t) => Some(type_list_clone(t)),
            None => None,
        },
        format: match &m.format {
            Some(f) => Some(f.clone()),
            None => None,
        },
        enum_values: match &m.enum_values {
            Some(v) => Some(crate::json::json_list_clone(v)),
            None => None,
        },
        subschemas: match &m.subschemas {
            Some(s) => Some(
                SubschemaValidation {
                    any_of: match &s.any_of {
                        Some(v) => Some(schemas_clone(v)),
                        None => None,
                    },
                    one_of: match &s.one_of {
                        Some(v) => Some(schemas_clone(v)),
                        None => None,
                    },
                },
            ),
            None => None,
        },
        array: match &m.array {
            Some(a) => Some(array_clone(a)),
            None => None,
        },
        object: match &m.object {
            Some(o) => Some(object_clone(o)),
            None => None,
        },
        extensions: crate::json::json_entries_clone(&m.extensions),
        other: crate::json::json_entries_clone(&m.other),
    }
}

/// The sole element of a list, or nothing if the list has zero or more
/// than one element.
pub fn only_item<'a, T>(items: &'a Vec<T>) -> (r: Option<&'a T>)
    ensures
        match r {
            Some(item) => items@.len() == 1 && *item == items@[0],
            None => items@.len() != 1,
        },
{
    if items.len() == 1 {
        Some(&items[0])
    } else {
        None
    }
}

/// What merging a variant's type into the established type yields:
/// nothing new is learnt from an absent variant type, a first variant type
/// is adopted, and a differing one is a hard structural violation.
pub open spec fn spec_merge_metadata(common: Option<TypeListV>, variant: Option<TypeListV>) -> Result<
    Option<TypeListV>,
    crate::error::ErrorV,
> {
    match variant {
        None => Ok(common),
        Some(vt) => match common {
            None => Ok(Some(vt)),
            Some(ct) => if ct == vt {
                Ok(Some(ct))
            } else {
                Err(
                    crate::error::ErrorV::TypeMismatch {
                        expected: ct,
                        found: vt,
                    },
                )
            },
        },
    }
}

/// Merge a variant's `type` into the type established so far; a variant
/// that disagrees with the established type is a hard violation.
pub fn merge_metadata(instance_type: &mut Option<TypeList>, variant_type: Option<TypeList>) -> (r:
    Result<(), crate::error::Error>)
    ensures
        match r {
            Ok(()) => {
                &&& spec_merge_metadata(opt_type_list_view(*old(instance_type)), opt_type_list_view(variant_type))
                    matches Ok(t)
                &&& opt_type_list_view(*final(instance_type)) == t
            },
            Err(e) => {
                &&& spec_merge_metadata(opt_type_list_view(*old(instance_type)), opt_type_list_view(variant_type))
                    matches Err(ev)
                &&& crate::error::error_view(e) == ev
                &&& *final(instance_type) == *old(instance_type)
            },
        },
{
    match variant_type {
        None => Ok(()),
        Some(vt) => {
            let established = instance_type.take();
            match established {
                None => {
                    *instance_type = Some(vt);
                    Ok(())
                },
                Some(ct) => {
                    if type_list_eq(&ct, &vt) {
                        *instance_type = Some(ct);
                        Ok(())
                    } else {
                        let r = Err(
                            crate::error::Error::TypeMismatch { expected: type_list_clone(&ct), found: vt },
                        );
                        *instance_type = Some(ct);
                        r
                    }
                },
            }
        },
    }
}

/// The model of an optional metadata group.
pub open spec fn opt_metadata_view(md: Option<Metadata>) -> Option<MetadataV> {
    match md {
        Some(x) => Some(metadata_view(x)),
        None => None,
    }
}

/// The model of an optional type list.
pub open spec fn opt_type_list_view(t: Option<TypeList>) -> Option<TypeListV> {
    match t {
        Some(x) => Some(type_list_view(x)),
        None => None,
    }
}

/// The model of an optional object keyword group.
pub open spec fn opt_obj_view(o: Option<ObjectValidation>) -> Option<ObjectValidationV> {
    match o {
        Some(x) => Some(object_validation_view(x)),
        None => None,
    }
}

/// The default-empty object keyword group.
pub open spec fn spec_empty_object() -> ObjectValidationV {
    ObjectValidationV {
        max_properties: None,
        min_properties: None,
        required: Seq::empty(),
        properties: Seq::empty(),
        pattern_properties: Seq::empty(),
        additional_properties: None,
        property_names: None,
    }
}

/// A fresh default-empty object keyword group.
pub fn empty_object_validation() -> (r: ObjectValidation)
    ensures
        object_validation_view(r) == spec_empty_object(),
{
    let r = ObjectValidation {
        max_properties: None,
        min_properties: None,
        required: Vec::new(),
        properties: Vec::new(),
        pattern_properties: Vec::new(),
        additional_properties: None,
        property_names: None,
    };
    proof {
        assert(keys_view(r.required@) =~= Seq::<Seq<char>>::empty());
        assert(props_view(r.properties@) =~= Seq::<(Seq<char>, SchemaV)>::empty());
        assert(props_view(r.pattern_properties@) =~= Seq::<(Seq<char>, SchemaV)>::empty());
    }
    r
}

/// Look up a property by name; the first match wins.
pub fn schema_map_get<'a>(m: &'a Vec<(String, Schema)>, k: &str) -> (r: Option<&'a Schema>)
    ensures
        match r {
            Some(v) => spec_map_get(props_view(m@), k@) == Some(schema_view(*v)),
            None => spec_map_get(props_view(m@), k@) is None,
        },
{
    let mut i: usize = 0;
    while i < m.len()
        invariant
            i <= m.len(),
            forall|j: int| 0 <= j < i ==> (#[trigger] props_view(m@)[j]).0 != k@,
        decreases m.len() - i,
    {
        let entry = &m[i];
        if str_eq(entry.0.as_str(), k) {
            proof {
                lemma_map_get_skip(props_view(m@), k@, i as int);
                assert(props_view(m@).skip(i as int)[0] == props_view(m@)[i as int]);
            }
            return Some(&entry.1);
        }
        i += 1;
    }
    proof {
        lemma_map_get_skip(props_view(m@), k@, m@.len() as int);
        assert(props_view(m@).skip(m@.len() as int) =~= Seq::<(Seq<char>, SchemaV)>::empty());
    }
    None
}

/// Insert a property in key order; an entry with an equal key is
/// replaced.
pub fn schema_map_insert(m: &mut Vec<(String, Schema)>, k: String, v: Schema)
    ensures
        props_view(final(m)@) == spec_map_insert(props_view(old(m)@), k@, schema_view(v)),
{
    let ghost m0 = props_view(m@);
    let ghost kv = (k@, schema_view(v));
    let mut i: usize = 0;
    while i < m.len() && str_lt(m[i].0.as_str(), k.as_str())
        invariant
            i <= m.len(),
            m@ == old(m)@,
            forall|j: int| 0 <= j < i ==> lex_lt((#[trigger] props_view(m@)[j]).0, k@),
        decreases m.len() - i,
    {
        i += 1;
    }
    proof {
        lemma_map_insert_skip(m0, k@, schema_view(v), i as int);
    }
    if i < m.len() && str_eq(m[i].0.as_str(), k.as_str()) {
        proof {
            assert(m0.skip(i as int)[0] == m0[i as int]);
            lemma_lex_trichotomy(k@, m0[i as int].0);
        }
        m.remove(i);
        m.insert(i, (k, v));
        proof {
            assert(m0.skip(i as int).drop_first() =~= m0.skip(i as int + 1));
            assert(props_view(m@) =~= m0.take(i as int) + (seq![kv] + m0.skip(i as int + 1)));
            assert(m0.take(i as int) + (seq![kv] + m0.skip(i as int + 1)) =~= m0.take(i as int)
                + spec_map_insert(m0.skip(i as int), k@, schema_view(v)));
        }
    } else {
        proof {
            if i < m.len() {
                assert(m0.skip(i as int)[0] == m0[i as int]);
                lemma_lex_trichotomy(k@, m0[i as int].0);
            } else {
                assert(m0.skip(i as int) =~= Seq::<(Seq<char>, SchemaV)>::empty());
            }
        }
        m.insert(i, (k, v));
        proof {
            assert(props_view(m@) =~= m0.take(i as int) + (seq![kv] + m0.skip(i as int)));
            assert(m0.take(i as int) + (seq![kv] + m0.skip(i as int)) =~= m0.take(i as int)
                + spec_map_insert(m0.skip(i as int), k@, schema_view(v)));
        }
    }
}

} // verus!
