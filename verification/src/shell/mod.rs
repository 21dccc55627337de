pub mod history;
pub mod proc;
pub mod prompt;
pub mod unixsignal;
