//! Verified core of a code search and navigation engine: symbol and import
//! extraction from syntax trees and source text, ref and path
//! normalisation, layered configuration, protocol metadata and error
//! mapping, request validation and routing, result de-duplication and
//! response budgets, workspace routing, and the decisions of an indexing
//! run.

pub mod text;
pub mod paths;
pub mod constants;
pub mod errors;
pub mod types;
pub mod overlay;
pub mod tokens;
pub mod config;
pub mod config_tree;
pub mod ids;
pub mod imports;
pub mod languages;
pub mod protocol;
pub mod tool_calls;
pub mod server;
pub mod workspace_router;
pub mod vcs_adapter;
pub mod indexing;
pub mod index_docs;
pub mod semantic_advice;
pub mod project_setup;
pub mod sorted_text;
