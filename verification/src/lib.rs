//! Pyc: a shell wrapper that transliterates between Cyrillic and Latin
//! scripts, with a configurable prompt and command history.
pub mod config;
pub mod runtime;
pub mod shell;
pub mod shellenv;
pub mod translator;
pub mod utils;
