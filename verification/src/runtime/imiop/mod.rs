//! Input processors of the runtime, each for one state of the shell.
pub mod subprociop;
