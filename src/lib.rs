//! Evaluation of integer arithmetic expressions with variables.
//!
//! An expression is lexed into tokens, folded into a syntax tree by an
//! operator-precedence parser and evaluated against a variable store that
//! persists between evaluations.
pub mod error;
pub mod evaluator;
pub mod laws;
pub mod node;
pub mod state;
pub mod token;

pub use error::Error;
pub use evaluator::eval;
pub use state::State;
pub use token::{OperandsToken, OperationToken, Token};
