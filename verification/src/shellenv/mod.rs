//! The errors of starting a process for the shell environment.
pub mod process;
