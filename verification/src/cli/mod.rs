pub mod args;
pub mod commands;
pub mod output;
