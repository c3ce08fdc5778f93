//! The dictionary's value type and the evaluator's diagnostics.

use vstd::prelude::*;

verus! {

/// Names one of the fixed built-in operations. The dictionary stores a tag
/// rather than a function pointer; the evaluator dispatches on it with a
/// single match.
#[derive(Clone, Copy, Debug, PartialEq, Eq, Structural)]
pub enum BuiltinOp {
    Add,
    Sub,
    Mul,
    Div,
    Dup,
    DropWord,
    Swap,
    Over,
}

/// A dictionary entry: either a built-in operation with fixed behaviour, or a
/// user-defined word holding the raw tokens it was defined with. The tokens
/// are re-resolved against the dictionary on every invocation, never at
/// definition time.
#[derive(Debug, PartialEq, Eq)]
pub enum Word {
    BuiltIn(BuiltinOp),
    UserDefined(Vec<String>),
}

/// The mathematical image of a `Word`: token text becomes a sequence of
/// character sequences.
pub enum WordView {
    BuiltIn(BuiltinOp),
    UserDefined(Seq<Seq<char>>),
}

impl View for Word {
    type V = WordView;

    open spec fn view(&self) -> WordView {
        match self {
            Word::BuiltIn(op) => WordView::BuiltIn(*op),
            Word::UserDefined(tokens) => WordView::UserDefined(
                tokens@.map_values(|t: String| t@),
            ),
        }
    }
}

/// A non-fatal condition reported during evaluation. One bad token never
/// stops the rest of the line: the evaluator records a diagnostic and goes
/// on. Diagnostics are returned to the caller; the core does no output.
#[derive(Debug, PartialEq, Eq)]
pub enum Diag {
    /// `/` was invoked with divisor zero; both operands were consumed and
    /// nothing was pushed.
    DivisionByZero,
    /// A token was neither a dictionary entry nor an integer literal. Holds
    /// the offending token.
    UnknownWord(String),
    /// Expanding user-defined words exceeded the fixed nesting depth, as a
    /// self-referential word does; the word was skipped.
    RecursionLimitExceeded,
}

/// The mathematical image of a `Diag`.
pub enum DiagView {
    DivisionByZero,
    UnknownWord(Seq<char>),
    RecursionLimitExceeded,
}

impl View for Diag {
    type V = DiagView;

    open spec fn view(&self) -> DiagView {
        match self {
            Diag::DivisionByZero => DiagView::DivisionByZero,
            Diag::UnknownWord(t) => DiagView::UnknownWord(t@),
            Diag::RecursionLimitExceeded => DiagView::RecursionLimitExceeded,
        }
    }
}

} // verus!
