//! Verified core of a Terraform / OpenTofu language server.

pub mod actions;
pub mod attr_ref_map;
pub mod block_rename;
pub mod builtin;
pub mod code_action;
pub mod code_lens;
pub mod commands;
pub mod completion;
pub mod completion_body;
pub mod completion_builtin;
pub mod completion_cursor;
pub mod completion_files;
pub mod completion_item;
pub mod completion_schema;
pub mod completion_shapes;
pub mod completion_sources;
pub mod completion_symbols;
pub mod completion_values;
pub mod completion_versions;
pub mod cursor;
pub mod document;
pub mod document_link;
pub mod folding;
pub mod formatting;
pub mod git_ref;
pub mod hcl;
pub mod highlight;
pub mod hover;
pub mod hover_attribute;
pub mod hover_request;
pub mod idents;
pub mod inlay_hints;
pub mod laws;
pub mod minimal_edits;
pub mod module_snapshot;
pub mod move_blocks;
pub mod moved;
pub mod navigation;
pub mod null_resource;
pub mod order;
pub mod position;
pub mod provider_fn;
pub mod providers;
pub mod quick_fixes;
pub mod rename;
pub mod schema;
pub mod scope;
pub mod seqs;
pub mod state;
pub mod target_file;
pub mod template_file;
pub mod text;
pub mod variable_type;
pub mod variable_types;
pub mod version_cache;
pub mod versions;
