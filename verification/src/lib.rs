//! Modular exponentiation over 64-bit unsigned integers.
//!
//! The crate computes `x^y mod m` by repeated squaring, with every
//! intermediate product held in 128 bits, and proves that the value it
//! returns is the mathematical residue. It also holds the rules of the
//! command line built on it: how an operand is read from text, which
//! argument lists are accepted, and what a caller is told on failure.

pub mod cli;
pub mod engine;
pub mod error;
pub mod parse;

pub use crate::cli::run;
pub use crate::engine::modexp;
pub use crate::error::ModexpError;
pub use crate::parse::parsenum;
