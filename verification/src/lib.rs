//! A verified core of an embedded scripting engine: dynamic values, built-in operators,
//! data-size limits, a statement/expression evaluator, hashing utilities, modules (variables,
//! functions, sub-modules and their flattened index, modules made by evaluating scripts),
//! registries of custom types, and JSON rendering and parsing of object maps.

pub mod position;
pub mod text;
pub mod dynamic;
pub mod error;
pub mod engine;
pub mod token;
pub mod arith;
pub mod builtin;
pub mod ast;
pub mod scope;
pub mod eval;
pub mod config;
pub mod hashing;
pub mod callable;
pub mod module;
pub mod types;
pub mod var_def;
pub mod eval_context;
pub mod lang_core;
pub mod json;
pub mod keyed;
pub mod json_parse;
pub mod module_eval;
pub mod eval_laws;
pub mod custom_derive;
pub mod interner;
