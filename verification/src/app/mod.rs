pub mod resolve;
pub mod tree_input;
pub mod listing;
pub mod select;
pub mod plan;
pub mod patch;
pub mod set_plan;
pub mod invocation;
pub mod sheets;
pub mod topic_ids;
pub mod find;
pub mod markdown;
pub mod tree_view;
pub mod render_json;
