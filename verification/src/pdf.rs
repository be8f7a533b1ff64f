//! Structured PDF output: its limits, its searchable text layer and its objects.

pub mod document;
pub mod limits;
pub mod searchable;
pub mod syntax;
