//! Front end of a minimal compiler: a lexical scanner that turns source text
//! into a positioned token sequence, and a recursive-descent parser that turns
//! the token sequence into a module AST. Both are pure functions that either
//! return a complete result or fail with a single positioned error.

pub mod ast;
pub mod lex;
pub mod parser;
