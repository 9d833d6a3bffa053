//! A semantic index for the high-level IR of a statically typed language
//! with generics and traits.
//!
//! The center is the node store: an append-only arena of HIR nodes behind
//! typed ids, with the tables that name resolution and type checking
//! populate around it — definitions, structs, traits, type aliases,
//! globals, methods keyed by receiver type, source locations, and the
//! registry of trait implementations with its unification-driven solver
//! that discharges `where` clauses to a bounded depth. Around the center
//! sit the operator-trait bindings, the location-to-definition resolver,
//! program input values matched against ABI types, and backend path
//! derivation.

pub mod arena;
pub mod ast;
pub mod backend;
pub mod field_element;
pub mod hir;
pub mod input_parser;
pub mod laws;
pub mod location;
pub mod methods;
pub mod node_interner;
pub mod operators;
pub mod resolver;
pub mod solver;
pub mod tables;
pub mod types;
