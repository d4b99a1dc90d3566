//! Global output options.
use vstd::prelude::*;

verus! {

/// The output format chosen with `--format`.
#[derive(Clone, Copy, Debug, PartialEq, Eq)]
pub enum OutputFormat {
    Text,
    Json,
    CompactJson,
    Markdown,
    Outline,
    Assets,
}

/// How a Markdown outline is read: by headings, by list items, both, or whichever the
/// document uses.
#[derive(Clone, Copy, Debug, PartialEq, Eq)]
pub enum MarkdownMode {
    Heading,
    List,
    Hybrid,
    Auto,
}

} // verus!
