//! Plain data types for the abstract syntax tree: a module holds an ordered
//! sequence of top-level declarations, each of which is either a bare
//! expression or a named alias binding.

use vstd::prelude::*;

verus! {

/// A compilation unit: a caller-supplied name and the top-level declarations
/// in source order.
#[derive(Debug, Clone, PartialEq, Eq)]
pub struct Module {
    pub name: String,
    pub declarations: Vec<Stmt>,
}

/// One top-level declaration: a bare expression statement or an alias binding.
#[derive(Debug, Clone, PartialEq, Eq)]
pub enum Stmt {
    Expr(Expr),
    Alias(Alias),
}

/// A name bound to a constant expression.
#[derive(Debug, Clone, PartialEq, Eq)]
pub struct Alias {
    pub name: String,
    pub value: Expr,
}

/// An expression; the only form in this minimal language is a 32-bit signed
/// integer literal.
#[derive(Debug, Clone, Copy, PartialEq, Eq, Structural)]
pub enum Expr {
    Int(i32),
}

} // verus!
