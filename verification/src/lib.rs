//! Type checking core of the rlyeh language: the type model, type algebra
//! (substitution, unification, compatibility, `Self` replacement), operator
//! typing, union disjointness, object layout, name resolution against traits, impls and
//! functions, format-string parsing, and the source-level desugarings of the
//! built-in macros, the iterator adapters and the `json` and `toml` modules,
//! with an evaluator of the generated code on which their laws are stated.
pub mod ty;
pub mod render;
pub mod error;
pub mod text;
pub mod subst;
pub mod generic;
pub mod binary;
pub mod misc;
pub mod format;
pub mod ast;
pub mod desugar;
pub mod context;
pub mod json_ser;
pub mod resolve;
pub mod json_de;
pub mod toml_de;
pub mod symbols;
pub mod calls;
pub mod layout;
pub mod iterator;
pub mod meaning;
