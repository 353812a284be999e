//! Core of the muoni language: the token and syntax-tree types, the parser
//! that turns a token stream into a scope of statements, and exact
//! arithmetic on the interpreter's numeric values.

pub mod ast;
pub mod bignum;
pub mod value;
pub mod parser;
