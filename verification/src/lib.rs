//! A verified model of the type environment of a compiler for a statically
//! typed functional language: scopes of values, module-level types and
//! values, usage tracking for unused-entity warnings, instantiation of
//! generic types and unification of types.

pub mod types;
pub mod resolution;
pub mod unify;
pub mod name_map;
pub mod module;
pub mod persistent;
pub mod problems;
pub mod edit_distance;
pub mod suggestions;
pub mod environment;
pub mod instantiate;
pub mod unused;
