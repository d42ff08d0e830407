//! A named, reusable bundle of generic-type-parameter bounds ("alias") can be
//! defined once and then applied to several declarations — functions, structs,
//! traits and impl blocks — so that long bound lists are not repeated.
//!
//! This crate holds the verified core of that expansion: the syntax model
//! (generic parameters, where-predicates, item kinds), the registry that maps
//! an alias name to its definition, and the merge that splices a definition's
//! parameters and predicates into a target declaration. Reading the host
//! language's token streams into this model, and printing the rewritten
//! declaration back out, is left to a thin unverified layer around the crate.
#![allow(unused_imports)]

pub mod model;
pub mod registry;
pub mod apply;
pub mod laws;
pub mod parse;
