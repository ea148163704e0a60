//! Hard structural violations.
//!
//! Every variant is a deterministic function of the input document and
//! marks a malformed schema that must be fixed at its producer; the
//! pipeline aborts on the first one and never emits a partial rewrite.
//! Where a violation concerns a particular variant, property or value,
//! the error carries it, so the diagnostic names the offending shape.

use vstd::prelude::*;

use crate::json::{arr_view, Json, JsonV};
use crate::model::{
    schema_object_view, schema_view, type_list_view, Schema, SchemaObject, SchemaObjectV, SchemaV,
    TypeList, TypeListV,
};

verus! {

/// A hard structural violation found while rewriting.
#[derive(Debug, PartialEq)]
pub enum Error {
    /// A `oneOf`/`anyOf` variant is a boolean schema.
    BoolVariant,
    /// A `oneOf` variant declares no `type`; the variant is carried.
    UntypedVariant { variant: Box<SchemaObject> },
    /// A variant's `type` differs from the type already established.
    TypeMismatch { expected: TypeList, found: TypeList },
    /// An enum-bearing variant's `type` differs from the type already
    /// established; the variant's enum values are carried.
    EnumVariantTypeMismatch { values: Vec<Json>, expected: TypeList, found: TypeList },
    /// A `oneOf` variant provides neither `enum` nor `const`; the variant
    /// is carried.
    MissingEnumOrConst { variant: Box<SchemaObject> },
    /// Both `anyOf` entries equal the canonical null marker.
    DoubleNullMarker,
    /// Two variants declare the same property with different shapes.
    PropertyConflict { name: String, existing: Box<Schema>, incoming: Box<Schema> },
    /// A tagged variant declares other than exactly one property.
    TaggedVariantPropertyCount { count: usize },
    /// The single property of a tagged variant already carries metadata.
    PropertyMetadataAlreadySet,
    /// `oneOf` and `anyOf` are both populated at the same node.
    OneOfAnyOfConflict,
}

/// Model of an `Error`.
#[verifier::ext_equal]
pub enum ErrorV {
    BoolVariant,
    UntypedVariant { variant: SchemaObjectV },
    TypeMismatch { expected: TypeListV, found: TypeListV },
    EnumVariantTypeMismatch { values: Seq<JsonV>, expected: TypeListV, found: TypeListV },
    MissingEnumOrConst { variant: SchemaObjectV },
    DoubleNullMarker,
    PropertyConflict { name: Seq<char>, existing: SchemaV, incoming: SchemaV },
    TaggedVariantPropertyCount { count: usize },
    PropertyMetadataAlreadySet,
    OneOfAnyOfConflict,
}

/// The model of an `Error`.
pub open spec fn error_view(e: Error) -> ErrorV {
    match e {
        Error::BoolVariant => ErrorV::BoolVariant,
        Error::UntypedVariant { variant } => ErrorV::UntypedVariant {
            variant: schema_object_view(*variant),
        },
        Error::TypeMismatch { expected, found } => ErrorV::TypeMismatch {
            expected: type_list_view(expected),
            found: type_list_view(found),
        },
        Error::EnumVariantTypeMismatch { values, expected, found } => ErrorV::EnumVariantTypeMismatch {
            values: arr_view(values@),
            expected: type_list_view(expected),
            found: type_list_view(found),
        },
        Error::MissingEnumOrConst { variant } => ErrorV::MissingEnumOrConst {
            variant: schema_object_view(*variant),
        },
        Error::DoubleNullMarker => ErrorV::DoubleNullMarker,
        Error::PropertyConflict { name, existing, incoming } => ErrorV::PropertyConflict {
            name: name@,
            existing: schema_view(*existing),
            incoming: schema_view(*incoming),
        },
        Error::TaggedVariantPropertyCount { count } => ErrorV::TaggedVariantPropertyCount { count },
        Error::PropertyMetadataAlreadySet => ErrorV::PropertyMetadataAlreadySet,
        Error::OneOfAnyOfConflict => ErrorV::OneOfAnyOfConflict,
    }
}

impl DeepView for Error {
    type V = ErrorV;

    open spec fn deep_view(&self) -> ErrorV {
        error_view(*self)
    }
}

} // verus!
