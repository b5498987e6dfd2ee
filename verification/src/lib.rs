//! A compiler front end and middle end for the MiniSoft language:
//! lexical analysis, parsing, semantic analysis and intermediate code.

pub mod lexer;
pub mod text;
pub mod parser;
pub mod semantics;
pub mod error_reporter;
pub mod codegen;
