pub mod token;
pub mod patterns;
pub mod lexeme;
pub mod error;
pub mod lexer_core;
