//! Concrete instructions of the language, built on the fixed-arity
//! instruction contract.

pub mod maths;
