//! Pattern library and matcher.
//!
//! Patterns describe reusable idioms that an agent should reach for (`Result`
//! propagation, async with Tokio, the builder pattern, ...). The library ships with
//! built-in patterns for popular languages and lets the caller register custom ones.
pub mod builtin;
pub mod pattern_map;
pub mod patterns;
pub mod text;
pub mod signature;
pub mod relevance;
pub mod matcher;
