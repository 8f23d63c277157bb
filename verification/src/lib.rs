//! Verified core of a language server for the Maxima computer algebra system:
//! text utilities, syntax-tree walks, documentation extraction, import and
//! path resolution decisions, and the document index behind hover,
//! completion and go-to-definition.

pub mod builtin_tables;
pub mod db;
pub mod definitions;
pub mod docs;
pub mod docstring;
pub mod handlers;
pub mod imports;
pub mod laws;
pub mod lisp_extractor;
pub mod lsp;
pub mod name_map;
pub mod parse;
pub mod pathname;
pub mod paths;
pub mod syntax;
pub mod text;
