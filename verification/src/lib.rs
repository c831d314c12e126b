//! The front end and execution core of a small scripting language: a
//! character-level lexer and a register-based bytecode virtual machine.

pub mod lex;
pub mod lex_laws;
pub mod runtime;
pub mod runtime_laws;
