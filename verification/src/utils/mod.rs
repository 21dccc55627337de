pub mod buffer;
pub mod console;
pub mod text;
