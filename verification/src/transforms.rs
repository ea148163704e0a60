//! In-place form of the `oneOf` enum hoist.
//!
//! Replaces a list of typed `oneOf` subschemas with a schema-level
//! `enum` of the same type, for tagged enums with unit variants.
//! Subschema descriptions are lost when the values are combined.

use vstd::prelude::*;

use crate::error::{error_view, Error};
use crate::hoist_enum::{hoist_one_of_enum, spec_hoist_one_of_enum};
use crate::model::{schema_object_clone, schema_object_view, SchemaObject};

verus! {

/// Hoist the `oneOf` subschema enums and types up to the schema level and
/// clear `oneOf`; on a hard violation the schema is left unchanged.
pub fn hoist_one_of_enum_with_unit_variants(kube_schema: &mut SchemaObject) -> (r: Result<
    (),
    Error,
>)
    ensures
        match r {
            Ok(()) => {
                &&& spec_hoist_one_of_enum(schema_object_view(*old(kube_schema))) matches Ok(v)
                &&& schema_object_view(*final(kube_schema)) == v
            },
            Err(e) => {
                &&& spec_hoist_one_of_enum(schema_object_view(*old(kube_schema))) matches Err(ev)
                &&& error_view(e) == ev
                &&& *final(kube_schema) == *old(kube_schema)
            },
        },
{
    let cloned = schema_object_clone(kube_schema);
    match hoist_one_of_enum(cloned) {
        Ok(out) => {
            *kube_schema = out;
            Ok(())
        },
        Err(e) => Err(e),
    }
}

} // verus!
