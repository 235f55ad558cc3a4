pub mod text;
pub mod writer;
pub mod ast;
pub mod consts_ast_new;
pub mod lexer;
pub mod kotlin;
pub mod swift;
pub mod rust_generator;
pub mod rust;
pub mod dart;
pub mod parser;
