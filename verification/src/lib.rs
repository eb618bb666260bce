//! Verified core of devsql/ccql: transcript discovery, the virtual tables built
//! from coding-assistant transcripts and Codex CLI history, session aggregation,
//! symbol-level diffs and source-text helpers.
pub mod text;
pub mod json;
pub mod cell;
pub mod semantic_diff;
pub mod transcript;
pub mod human;
pub mod sessions;
pub mod storage;
pub mod aggregate;
pub mod syntax_tree;
pub mod source_text;
