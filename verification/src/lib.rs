//! A schema compiler for a document-database argument-validation DSL.
//!
//! A schema written in validator syntax (`v.string()`, `v.union(...)`, ...)
//! is parsed into a type model ([`model::ConvexField`]); the model then
//! drives a validating decoder from dynamic database values
//! ([`values::ConvexValue`]) to typed values ([`values::ModelValue`]) and a
//! total encoder from typed values to a generic JSON-like representation
//! ([`values::JsonValue`]).

pub mod model;
pub mod names;
pub mod values;
pub mod numeric;
pub mod decode;
pub mod encode;
pub mod union;
pub mod parse;
