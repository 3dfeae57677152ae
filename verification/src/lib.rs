//! Analysis of the third-party packages that a Python project declares:
//! manifest parsing, a registry of the declared packages with a graph of
//! well-known relationships between them, conflict detection and rendering.
pub mod error;
pub mod text;
pub mod version;
pub mod model;
pub mod graph;
pub mod knowledge;
pub mod analyzer;
pub mod render;
pub mod conflicts;
pub mod documents;
pub mod manifest;
pub mod scan;
pub mod laws;
