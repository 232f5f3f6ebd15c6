//! An interpreter for a tiny tape-machine language: source text is reduced to
//! a sequence of commands, brackets are matched into a jump table, and the
//! commands run against a fixed tape of byte cells.

pub mod semantics;
pub mod program;
pub mod laws;

pub use program::{Action, Command, CompileError, DebugWindow, Program, Registers, RunError, TAPE_LEN};
