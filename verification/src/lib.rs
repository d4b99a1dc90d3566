//! Verified core of an agent-oriented command line for XMind workbooks: topic paths,
//! selectors and queries, workbook trees, planned edits and their diffs, and the
//! structural rules that a workbook package must satisfy.
pub mod text;
pub mod domain;
pub mod render;
pub mod app;
pub mod infra;
pub mod cli;
