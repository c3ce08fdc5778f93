//! The general laws of the interpreter, stated over the `run_builtin` and
//! `run_tokens` semantics that every executable function's contract uses.

use vstd::prelude::*;

use crate::numeral::parse_int;
use crate::semantics::{run_builtin, run_token, run_tokens, trunc_div};
use crate::word::{BuiltinOp, DiagView, WordView};

verus! {

/// On a stack ending in `b` then `a` (the top), `+` pops both and pushes
/// `a + b`, whenever that sum fits in `i32`.
pub proof fn lemma_add_law(s: Seq<i32>, b: i32, a: i32)
    requires
        i32::MIN <= a + b <= i32::MAX,
    ensures
        run_builtin(BuiltinOp::Add, s.push(b).push(a)).0 == s.push((a + b) as i32),
        run_builtin(BuiltinOp::Add, s.push(b).push(a)).1 is None,
{
    assert(s.push(b).push(a).take(s.len() as int) =~= s);
}

/// On a stack ending in `b` then `a` (the top), `-` pops both and pushes
/// `b - a`, whenever that difference fits in `i32`.
pub proof fn lemma_sub_law(s: Seq<i32>, b: i32, a: i32)
    requires
        i32::MIN <= b - a <= i32::MAX,
    ensures
        run_builtin(BuiltinOp::Sub, s.push(b).push(a)).0 == s.push((b - a) as i32),
        run_builtin(BuiltinOp::Sub, s.push(b).push(a)).1 is None,
{
    assert(s.push(b).push(a).take(s.len() as int) =~= s);
}

/// On a stack ending in `b` then `a` (the top), `*` pops both and pushes
/// `a * b`, whenever that product fits in `i32`.
pub proof fn lemma_mul_law(s: Seq<i32>, b: i32, a: i32)
    requires
        i32::MIN <= a * b <= i32::MAX,
    ensures
        run_builtin(BuiltinOp::Mul, s.push(b).push(a)).0 == s.push((a * b) as i32),
        run_builtin(BuiltinOp::Mul, s.push(b).push(a)).1 is None,
{
    assert(s.push(b).push(a).take(s.len() as int) =~= s);
    let range = 0x1_0000_0000int;
    let p = (b as int) * (a as int);
    vstd::arithmetic::mul::lemma_mul_is_commutative(a as int, b as int);
    if p >= 0 {
        assert(p % range == p) by {
            vstd::arithmetic::div_mod::lemma_small_mod(p as nat, range as nat);
        }
    } else {
        assert(p % range == p + range) by {
            vstd::arithmetic::div_mod::lemma_mod_multiples_vanish(1, p, range);
            vstd::arithmetic::div_mod::lemma_small_mod((p + range) as nat, range as nat);
        }
    }
}

/// On a stack ending in `b` then `a` (the top), with `a` neither zero nor the
/// one divisor that overflows the quotient of `i32::MIN`, `/` pops both and
/// pushes the integer-truncated quotient `b / a`.
pub proof fn lemma_div_law(s: Seq<i32>, b: i32, a: i32)
    requires
        a != 0,
        !(b == i32::MIN && a == -1),
    ensures
        run_builtin(BuiltinOp::Div, s.push(b).push(a)).0 == s.push(
            trunc_div(b as int, a as int) as i32,
        ),
        run_builtin(BuiltinOp::Div, s.push(b).push(a)).1 is None,
{
    assert(s.push(b).push(a).take(s.len() as int) =~= s);
}

/// `/` with divisor zero consumes both operands, pushes nothing, and reports
/// division by zero; on `[b, 0]` alone the stack comes out empty, and nothing
/// else of the interpreter is touched.
pub proof fn lemma_div_by_zero_law(s: Seq<i32>, b: i32)
    ensures
        run_builtin(BuiltinOp::Div, s.push(b).push(0)).0 == s,
        run_builtin(BuiltinOp::Div, s.push(b).push(0)).1 == Some(DiagView::DivisionByZero),
{
    assert(s.push(b).push(0).take(s.len() as int) =~= s);
}

/// `dup` pushes a copy of the top value, so `[x]` becomes `[x, x]`; on an
/// empty stack it is a no-op.
pub proof fn lemma_dup_law(s: Seq<i32>, x: i32)
    ensures
        run_builtin(BuiltinOp::Dup, s.push(x)).0 == s.push(x).push(x),
        run_builtin(BuiltinOp::Dup, Seq::<i32>::empty()).0 == Seq::<i32>::empty(),
        run_builtin(BuiltinOp::Dup, s.push(x)).1 is None,
{
}

/// `swap` exchanges the top two values, so `[a, b]` becomes `[b, a]`; on a
/// stack of fewer than two values it is a no-op.
pub proof fn lemma_swap_law(s: Seq<i32>, a: i32, b: i32, short: Seq<i32>)
    requires
        short.len() < 2,
    ensures
        run_builtin(BuiltinOp::Swap, s.push(a).push(b)).0 == s.push(b).push(a),
        run_builtin(BuiltinOp::Swap, short).0 == short,
        run_builtin(BuiltinOp::Swap, s.push(a).push(b)).1 is None,
{
    assert(run_builtin(BuiltinOp::Swap, s.push(a).push(b)).0 =~= s.push(b).push(a));
}

/// `over` pushes a copy of the second-from-top value, so `[a, b]` becomes
/// `[a, b, a]`; on a stack of fewer than two values it is a no-op.
pub proof fn lemma_over_law(s: Seq<i32>, a: i32, b: i32, short: Seq<i32>)
    requires
        short.len() < 2,
    ensures
        run_builtin(BuiltinOp::Over, s.push(a).push(b)).0 == s.push(a).push(b).push(a),
        run_builtin(BuiltinOp::Over, short).0 == short,
        run_builtin(BuiltinOp::Over, s.push(a).push(b)).1 is None,
{
}

/// `drop` discards the top value; on an empty stack it is a no-op.
pub proof fn lemma_drop_law(s: Seq<i32>, x: i32)
    ensures
        run_builtin(BuiltinOp::DropWord, s.push(x)).0 == s,
        run_builtin(BuiltinOp::DropWord, Seq::<i32>::empty()).0 == Seq::<i32>::empty(),
        run_builtin(BuiltinOp::DropWord, s.push(x)).1 is None,
{
    assert(s.push(x).take(s.len() as int) =~= s);
}

/// An unknown token — neither a dictionary entry nor a numeral — reports
/// itself and nothing more: the stack is untouched and the remaining tokens
/// are evaluated exactly as they would have been without it.
pub proof fn lemma_unknown_word_law(
    dict: Map<Seq<char>, WordView>,
    stack: Seq<i32>,
    tokens: Seq<Seq<char>>,
    fuel: nat,
)
    requires
        tokens.len() >= 1,
        !dict.contains_key(tokens[0]),
        parse_int(tokens[0]) is None,
    ensures
        run_tokens(dict, stack, tokens, fuel).0 == run_tokens(dict, stack, tokens.skip(1), fuel).0,
        run_tokens(dict, stack, tokens, fuel).1 == seq![DiagView::UnknownWord(tokens[0])]
            + run_tokens(dict, stack, tokens.skip(1), fuel).1,
{
    assert(run_token(dict, stack, tokens[0], fuel).0 == stack);
    assert(run_token(dict, stack, tokens[0], fuel).1 == seq![DiagView::UnknownWord(tokens[0])]);
}

/// A definition takes effect immediately: after binding `name` to a
/// user-defined body, invoking `name` evaluates exactly that body, and every
/// other name still resolves as before. A definition never reaches back into
/// an evaluation already made: evaluation reads one fixed dictionary, so only
/// calls after the definition see it.
pub proof fn lemma_redefinition_law(
    dict: Map<Seq<char>, WordView>,
    stack: Seq<i32>,
    name: Seq<char>,
    body: Seq<Seq<char>>,
    fuel: nat,
)
    requires
        fuel >= 1,
    ensures
        run_token(dict.insert(name, WordView::UserDefined(body)), stack, name, fuel) == run_tokens(
            dict.insert(name, WordView::UserDefined(body)),
            stack,
            body,
            (fuel - 1) as nat,
        ),
        forall|other: Seq<char>|
            other != name ==> dict.insert(name, WordView::UserDefined(body)).contains_key(other)
                == dict.contains_key(other),
        forall|other: Seq<char>|
            other != name && dict.contains_key(other) ==> dict.insert(
                name,
                WordView::UserDefined(body),
            )[other] == dict[other],
{
}

} // verus!
