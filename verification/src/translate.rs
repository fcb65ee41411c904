use vstd::prelude::*;

verus! {

/// A piece of a template split into text and Rust code.
#[derive(Debug, Clone)]
pub enum Expr {
    ExprText(String),
    ExprRustCode(String),
}

} // verus!
