pub mod diff;
pub mod mutation;
pub mod path;
pub mod sheet;
pub mod topic;
pub mod query;
pub mod selector;
pub mod workbook;
