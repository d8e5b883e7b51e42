//! A small domain language front end: a scanner-less recursive-descent parser
//! that turns source text into a syntax tree, and a completion engine that
//! classifies the cursor's lexical context and produces suggestion candidates
//! from fixed catalogs and a caller-built symbol table.

pub mod ast;
pub mod grammar;
pub mod parser;
pub mod completion;
