//! A bytecode compiler and stack machine for a small Lox-family scripting
//! language.
//!
//! `scanner` turns source text into tokens. `compiler` reads the tokens and
//! writes the instructions of `op_code` into the `chunk` of a function
//! (`value`); what it does is stated in `grammar` over the compilation state
//! of `state`, with the rule table of `rules` and the routines of `emitter`
//! underneath. `vm` executes a compiled function one instruction at a time,
//! and `debug` lists its instructions. Numbers are bit patterns of doubles
//! (`number`): the arithmetic on them, like printing and the clock, is left
//! to the caller.

pub mod chunk;
pub mod compiler;
pub mod debug;
pub mod diagnostic;
mod emitter;
pub mod grammar;
pub mod number;
pub mod op_code;
pub mod rules;
pub mod scanner;
pub mod state;
pub mod value;
pub mod vm;
