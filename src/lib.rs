pub mod tokens;
pub mod text;
pub mod ast;
pub mod lexer;
pub mod parser;
pub mod grammar;
pub mod visitors;
