//! A reverse Polish notation evaluator, generic over the number type.

pub mod lex;
pub mod number;
pub mod eval;
pub mod dispatch;
pub mod laws;
