pub mod json;
pub mod assets;
pub mod encode;
pub mod content;
pub mod decode;
pub mod validate;
