//! Rewrites generic JSON Schema documents into the restricted "structural
//! schema" subset that a structural-schema-only API server accepts: enum and
//! property declarations are hoisted out of `oneOf`/`anyOf` subschemas,
//! redundant null variants are trimmed, and unsupported keywords are removed
//! or replaced by vendor extension flags.

pub mod decode;
pub mod encode;
pub mod error;
pub mod hoist_enum;
pub mod json;
pub mod laws;
pub mod model;
pub mod rewriter;
pub mod subschema_hoist;
pub mod transform_optional_enum_with_null;
pub mod transform_properties;
pub mod transforms;

pub use json::{Json, JsonV};
pub use rewriter::StructuralSchemaRewriter;
