pub mod paths;
pub mod backup;
pub mod cloud;
