//! A minimal interpreter for a stack-based, Forth-like language.
//!
//! The interpreter owns a stack of signed 32-bit integers and a dictionary
//! mapping word names to behaviour: either a fixed built-in operation or a
//! user-defined sequence of tokens that is re-resolved on every invocation.
//! A line of input is split on whitespace; each token is looked up in the
//! dictionary, or parsed as an integer literal and pushed, or reported as an
//! unknown word. All errors are non-fatal diagnostics returned to the caller;
//! the evaluator itself never panics.

pub mod builtins;
pub mod forth;
pub mod laws;
pub mod numeral;
pub mod semantics;
pub mod tokenize;
pub mod word;
