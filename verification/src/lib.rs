//! Request payload builders for a container engine's HTTP control API.
//!
//! A container specification is collected as a flat store of dotted keys and
//! assembled into a nested JSON document when it is serialized.

pub mod container;
pub mod json;
pub mod laws;
pub mod path;
pub mod query;
pub mod store;
pub mod text;
pub mod tree;
