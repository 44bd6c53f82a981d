//! A small interpreter for a toy assembly-like language: a lexer turning
//! source text into tokens, a tree builder turning tokens into an AST of
//! commands and labeled branches, and an execution engine driving a packed
//! byte-buffer machine state (registers, condition flag, operand stack and
//! general memory in one address space).

pub mod ast;
pub mod consts;
pub mod env;
pub mod fault;
pub mod iter;
pub mod laws;
pub mod lexer;
pub mod mem;
pub mod numeric;
pub mod parser;
pub mod registry;
pub mod status;
pub mod token;
pub mod traits;
pub mod utils;
