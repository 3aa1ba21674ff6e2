pub mod text;
pub mod chars;
pub mod loc;
pub mod token;
pub mod error;
pub mod lexer;
pub mod ast;
pub mod parser;
pub mod python3;
pub mod fasm;
pub mod laws;
