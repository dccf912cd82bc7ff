//! A verified translator that lowers a type-checked program graph into the
//! reduced form consumed by a downstream model-checking tool.
//!
//! The host front end (parsing, macro expansion, type checking) is an external
//! collaborator: it supplies a fully resolved, monomorphic program graph and a
//! name filter. This crate selects the filtered closure of functions reachable
//! from the designated initializer, erases lifetimes, derives parameter
//! passing modes, extracts the layouts of all reachable structs exactly once,
//! validates the initializer, and serializes the result deterministically.

pub mod emit;
pub mod filter;
pub mod laws;
pub mod lower;
pub mod model;
pub mod translate;
