pub mod colors;
pub mod language;
