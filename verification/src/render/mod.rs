pub mod diff;
