//! Single-pass, multi-pattern literal substitution over byte strings.
//!
//! A set of literal patterns is compiled once into a [`Matcher`]; a scan then
//! replaces every earliest, non-overlapping occurrence of a pattern with the
//! replacement bound to it, and copies everything else unchanged.

mod automaton;
pub mod engine;
pub mod model;
pub mod patterns;

pub use engine::{replace, Match, Matcher};
pub use patterns::{all_patterns_non_empty, get_patterns, Delimiters};
