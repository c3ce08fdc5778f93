//! The mathematical model of the interpreter: what one built-in does to a
//! stack, and what evaluating a sequence of tokens does to a stack and which
//! diagnostics it emits. The executable evaluator is verified against these
//! functions.

use vstd::prelude::*;

use crate::numeral::parse_int;
use crate::word::{BuiltinOp, DiagView, WordView};

verus! {

/// How deep user-defined words may nest during one evaluation. A word that
/// (directly or indirectly) references itself would otherwise recurse without
/// bound; past this depth the evaluator reports `RecursionLimitExceeded` and
/// skips the word.
pub const RECURSION_LIMIT: u32 = 64;

/// The token sequences of a sequence of owned tokens.
pub open spec fn tok_views(tokens: Seq<String>) -> Seq<Seq<char>> {
    tokens.map_values(|t: String| t@)
}

/// The images of a sequence of diagnostics.
pub open spec fn diag_views(diags: Seq<crate::word::Diag>) -> Seq<DiagView> {
    diags.map_values(|d: crate::word::Diag| d@)
}

/// The image of an optional diagnostic.
pub open spec fn opt_diag_view(d: Option<crate::word::Diag>) -> Option<DiagView> {
    match d {
        Some(x) => Some(x@),
        None => None,
    }
}

/// The image of a dictionary: each stored word replaced by its view.
pub open spec fn dict_view(m: Map<Seq<char>, crate::word::Word>) -> Map<Seq<char>, WordView> {
    m.map_values(|w: crate::word::Word| w@)
}

/// Truncating integer division, the native `/` of the language: the quotient
/// is rounded toward zero.
pub open spec fn trunc_div(b: int, a: int) -> int
    recommends
        a != 0,
{
    if (b < 0) == (a < 0) {
        (vstd::math::abs(b) / vstd::math::abs(a)) as int
    } else {
        -((vstd::math::abs(b) / vstd::math::abs(a)) as int)
    }
}

/// The value `/` pushes for divisor `a != 0`. The one truncated quotient that
/// does not fit in `i32`, `i32::MIN / -1`, wraps back to `i32::MIN`.
pub open spec fn div_wrapped(b: i32, a: i32) -> i32
    recommends
        a != 0,
{
    if b == i32::MIN && a == -1 {
        i32::MIN
    } else {
        trunc_div(b as int, a as int) as i32
    }
}

/// What one built-in operation does: the stack after the operation, and the
/// diagnostic it emits, if any. Arithmetic pops `a` (the top), then `b`, and
/// pushes the result; sums, differences and products wrap on overflow.
///
/// Underflow policy: an operation that needs more values than the stack holds
/// leaves the stack exactly as it was and emits nothing. Only `/` with
/// divisor zero emits a diagnostic; it consumes both operands and pushes
/// nothing, so the dividend is lost.
pub open spec fn run_builtin(op: BuiltinOp, stack: Seq<i32>) -> (Seq<i32>, Option<DiagView>) {
    let n = stack.len() as int;
    match op {
        BuiltinOp::Add => if n >= 2 {
            (stack.take(n - 2).push(stack[n - 2].wrapping_add(stack[n - 1])), None)
        } else {
            (stack, None)
        },
        BuiltinOp::Sub => if n >= 2 {
            (stack.take(n - 2).push(stack[n - 2].wrapping_sub(stack[n - 1])), None)
        } else {
            (stack, None)
        },
        BuiltinOp::Mul => if n >= 2 {
            (stack.take(n - 2).push(stack[n - 2].wrapping_mul(stack[n - 1])), None)
        } else {
            (stack, None)
        },
        BuiltinOp::Div => if n >= 2 {
            if stack[n - 1] == 0 {
                (stack.take(n - 2), Some(DiagView::DivisionByZero))
            } else {
                (stack.take(n - 2).push(div_wrapped(stack[n - 2], stack[n - 1])), None)
            }
        } else {
            (stack, None)
        },
        BuiltinOp::Dup => if n >= 1 {
            (stack.push(stack[n - 1]), None)
        } else {
            (stack, None)
        },
        BuiltinOp::DropWord => if n >= 1 {
            (stack.take(n - 1), None)
        } else {
            (stack, None)
        },
        BuiltinOp::Swap => if n >= 2 {
            (stack.update(n - 2, stack[n - 1]).update(n - 1, stack[n - 2]), None)
        } else {
            (stack, None)
        },
        BuiltinOp::Over => if n >= 2 {
            (stack.push(stack[n - 2]), None)
        } else {
            (stack, None)
        },
    }
}

/// What resolving and executing one token does, with `fuel` levels of
/// user-defined expansion left. Resolution order: dictionary entry first,
/// then integer literal, else the token is unknown.
pub open spec fn run_token(
    dict: Map<Seq<char>, WordView>,
    stack: Seq<i32>,
    token: Seq<char>,
    fuel: nat,
) -> (Seq<i32>, Seq<DiagView>)
    decreases fuel, 0nat, 0nat,
{
    if dict.contains_key(token) {
        match dict[token] {
            WordView::BuiltIn(op) => {
                let r = run_builtin(op, stack);
                match r.1 {
                    Some(d) => (r.0, seq![d]),
                    None => (r.0, Seq::empty()),
                }
            },
            WordView::UserDefined(body) => if fuel == 0 {
                (stack, seq![DiagView::RecursionLimitExceeded])
            } else {
                run_tokens(dict, stack, body, (fuel - 1) as nat)
            },
        }
    } else {
        match parse_int(token) {
            Some(v) => (stack.push(v), Seq::empty()),
            None => (stack, seq![DiagView::UnknownWord(token)]),
        }
    }
}

/// What evaluating a sequence of tokens in order does: the final stack, and
/// the diagnostics of all tokens in order. A diagnostic never stops the
/// tokens after it.
pub open spec fn run_tokens(
    dict: Map<Seq<char>, WordView>,
    stack: Seq<i32>,
    tokens: Seq<Seq<char>>,
    fuel: nat,
) -> (Seq<i32>, Seq<DiagView>)
    decreases fuel, tokens.len(), 1nat,
{
    if tokens.len() == 0 {
        (stack, Seq::empty())
    } else {
        let first = run_token(dict, stack, tokens[0], fuel);
        let rest = run_tokens(dict, first.0, tokens.skip(1), fuel);
        (rest.0, first.1 + rest.1)
    }
}

/// The dictionary a fresh interpreter starts with: the eight built-ins, each
/// under its name.
pub open spec fn builtins_dict() -> Map<Seq<char>, WordView> {
    Map::empty()
        .insert("+"@, WordView::BuiltIn(BuiltinOp::Add))
        .insert("-"@, WordView::BuiltIn(BuiltinOp::Sub))
        .insert("*"@, WordView::BuiltIn(BuiltinOp::Mul))
        .insert("/"@, WordView::BuiltIn(BuiltinOp::Div))
        .insert("dup"@, WordView::BuiltIn(BuiltinOp::Dup))
        .insert("drop"@, WordView::BuiltIn(BuiltinOp::DropWord))
        .insert("swap"@, WordView::BuiltIn(BuiltinOp::Swap))
        .insert("over"@, WordView::BuiltIn(BuiltinOp::Over))
}

} // verus!
