//! Pricing of GraphQL queries by a cost model.
//!
//! A cost model is a list of statements `predicate (when condition)? => cost`.
//! `model` compiles the source of a model and costs a query: each top-level
//! selection is costed by the first statement whose predicate matches it
//! (`matching`) and whose condition holds (`eval`), and the costs are summed
//! exactly (`number`, on the integers of `bignum`) and held within
//! `[0, 2^256 - 1]` once, at the end.

use vstd::prelude::*;

pub mod ast;
pub mod bignum;
pub mod captures;
pub mod eval;
pub mod lexer;
pub mod matching;
pub mod model;
pub mod number;
pub mod parser;

verus! {

} // verus!
