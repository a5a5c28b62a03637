//! The statement and expression parser: mutually recursive, ordered-
//! alternative parsing functions that consume the token cursor and build the
//! typed syntax tree, backtracking without consuming on failure.

pub mod control;
pub mod expr;
pub mod grammar;
pub mod parser;
pub mod tree;

pub use parser::parse_stream;
pub use parser::parse_top_level_expression;
