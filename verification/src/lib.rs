//! A small compiler backend for x86-64.
//!
//! The crate turns the text of an intermediate representation into
//! NASM-style assembly in six stages: the text is split into tokens, the
//! tokens are parsed into instruction trees, the lifetimes of the virtual
//! registers are found, every virtual register gets a real register, a
//! stack slot or a constant, instructions are selected, and the assembly
//! text is written.
pub mod error;
pub mod fileformat;
pub mod generation;
pub mod ir;
pub mod lexer;
pub mod parser;
