//! What the requests answer, said over what the caller hands in: the documents
//! with their symbol tables, the indexes, the schemas and the texts.

pub mod actions;
pub mod basics;
pub mod block_renames;
pub mod bulk;
pub mod common;
pub mod completion;
pub mod completion_bodies;
pub mod completion_names;
pub mod completion_shapes;
pub mod completion_snippets;
pub mod completion_values;
pub mod completion_versions;
pub mod fixes;
pub mod git;
pub mod hints;
pub mod hover;
pub mod hover_blocks;
pub mod inserts;
pub mod modules;
pub mod names;
pub mod navigation;
pub mod providers;
pub mod rename;
pub mod rename_providers;
pub mod snapshot;
pub mod templates;
pub mod versions;
pub mod views;
