pub mod ast;
pub mod grammar;
pub mod parser_core;
pub mod error;
pub mod pretty;
