pub mod fs;
pub mod xmind;
