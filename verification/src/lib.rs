//! A verified engine that merges several OpenAPI documents into one:
//! it composes their path sets and component namespaces, resolves name
//! collisions by renaming, and rewrites every `$ref` so that it points at
//! the name its target carries in the merged document.

pub mod canonical;
pub mod data;
pub mod json;
pub mod laws;
pub mod merge;
pub mod model;
pub mod text;
