//! A schema engine for typed resource records: field shapes inferred from
//! declared types, a registry of validation rules checked against those
//! shapes when a schema is compiled, and two traversals over record values,
//! defaulting and validation.
//!
//! A schema is declared as records of fields (`schema`), each field with a
//! type (`shape`), an optional default and a list of rules (`rules`), and
//! compiled once; compilation refuses every rule or default that does not fit
//! its field. Record values (`value`) are then defaulted (`defaults`) and
//! validated (`validate`) against the compiled schema. Both traversals recurse
//! on the value, so they end on every value, even where record types refer to
//! each other. Resource identity (`gvk`, `resource`) names the record types of
//! a resource: metadata, spec and status.
pub mod defaults;
pub mod gvk;
pub mod pattern;
pub mod resource;
pub mod rules;
pub mod schema;
pub mod shape;
pub mod text;
pub mod validate;
pub mod value;
