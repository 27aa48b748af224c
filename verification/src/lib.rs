//! An expression evaluation engine for a small, dynamically typed
//! expression language: given an already parsed expression tree and a
//! variable binding environment, it computes a single dynamic value or
//! fails with a precisely located error.

pub mod ast;
pub mod dynval;
pub mod error;
pub mod eval;
pub mod jsonval;
pub mod laws;
pub mod numeric;
pub mod regexp;
