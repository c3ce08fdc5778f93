//! The executable built-in operations. Each one does to the interpreter's
//! stack exactly what `run_builtin` says, and returns the diagnostic that
//! `run_builtin` says it emits.

use vstd::arithmetic::div_mod::{
    lemma_div_basics, lemma_div_by_self, lemma_div_is_ordered, lemma_div_is_ordered_by_denominator,
    lemma_div_nonincreasing, lemma_div_pos_is_pos,
};
use vstd::prelude::*;

use crate::forth::Forth;
use crate::semantics::{div_wrapped, opt_diag_view, run_builtin, trunc_div};
use crate::word::{BuiltinOp, Diag};

verus! {

/// `checked_div` computes the truncating quotient and fails only on the one
/// quotient that does not fit, `i32::MIN / -1`.
proof fn lemma_checked_div_is_trunc_div(b: i32, a: i32)
    requires
        a != 0,
        !(b == i32::MIN && a == -1),
    ensures
        b.checked_div(a) == Some(div_wrapped(b, a)),
{
    let x = b as int;
    let d = a as int;
    let q = trunc_div(x, d);
    let m = vstd::math::abs(x) / vstd::math::abs(d);
    assert(vstd::math::abs(x) == if x < 0 {
        -x
    } else {
        x
    });
    // The case split of checked_div's specification computes abs(x) / abs(d)
    // with the matching sign, which is trunc_div.
    if x == 0 {
        lemma_div_by_self(vstd::math::abs(d) as int);
        assert(vstd::math::abs(0int) / vstd::math::abs(d) == 0) by {
            vstd::arithmetic::div_mod::lemma_div_of0(vstd::math::abs(d) as int);
        }
        assert(q == 0);
    } else if x > 0 && d > 0 {
        assert(q == x / d);
    } else if x < 0 && d < 0 {
        assert(q == (x * -1) / (d * -1));
    } else if x < 0 {
        assert(q == ((x * -1) / d) * -1);
    } else {
        assert(q == (x / (d * -1)) * -1);
    }
    // The quotient fits in i32: its magnitude is at most abs(b), and the one
    // magnitude equal to 2^31 comes with the sign that still fits.
    lemma_div_pos_is_pos(vstd::math::abs(x) as int, vstd::math::abs(d) as int);
    lemma_div_nonincreasing(vstd::math::abs(x) as int, vstd::math::abs(d) as int);
    if vstd::math::abs(d) == 1 {
        assert(m == vstd::math::abs(x)) by {
            lemma_div_basics(vstd::math::abs(x) as int);
        }
        if b == i32::MIN {
            // The divisor -1 is excluded here, so the quotient is MIN itself.
            assert(a == 1);
            assert(q == -m);
        }
    } else {
        lemma_div_is_ordered_by_denominator(vstd::math::abs(x) as int, 2, vstd::math::abs(d) as int);
        lemma_div_is_ordered(vstd::math::abs(x) as int, 0x8000_0000int, 2);
        assert(m <= 0x8000_0000int / 2);
    }
    assert(i32::MIN <= q <= i32::MAX);
}

/// Pops the top two values and pushes what the arithmetic built-in `op`
/// computes from them; leaves a short stack unchanged. Returns the
/// division-by-zero diagnostic when `op` is `Div` and the divisor is zero.
fn apply_arith(op: BuiltinOp, stack: &mut Vec<i32>) -> (d: Option<Diag>)
    requires
        op == BuiltinOp::Add || op == BuiltinOp::Sub || op == BuiltinOp::Mul || op
            == BuiltinOp::Div,
    ensures
        final(stack)@ == run_builtin(op, old(stack)@).0,
        opt_diag_view(d) == run_builtin(op, old(stack)@).1,
{
    let n = stack.len();
    if n < 2 {
        return None;
    }
    let a = stack.pop().unwrap();
    let b = stack.pop().unwrap();
    proof {
        assert(stack@ =~= old(stack)@.take(n - 2));
    }
    match op {
        BuiltinOp::Add => {
            stack.push(b.wrapping_add(a));
            None
        },
        BuiltinOp::Sub => {
            stack.push(b.wrapping_sub(a));
            None
        },
        BuiltinOp::Mul => {
            stack.push(b.wrapping_mul(a));
            None
        },
        _ => {
            if a == 0 {
                Some(Diag::DivisionByZero)
            } else if b == i32::MIN && a == -1 {
                stack.push(i32::MIN);
                None
            } else {
                proof {
                    lemma_checked_div_is_trunc_div(b, a);
                }
                stack.push(b.checked_div(a).unwrap());
                None
            }
        },
    }
}

/// Applies one built-in operation to the stack, per `run_builtin`.
pub(crate) fn apply_builtin(op: BuiltinOp, stack: &mut Vec<i32>) -> (d: Option<Diag>)
    ensures
        final(stack)@ == run_builtin(op, old(stack)@).0,
        opt_diag_view(d) == run_builtin(op, old(stack)@).1,
{
    let n = stack.len();
    match op {
        BuiltinOp::Add => apply_arith(op, stack),
        BuiltinOp::Sub => apply_arith(op, stack),
        BuiltinOp::Mul => apply_arith(op, stack),
        BuiltinOp::Div => apply_arith(op, stack),
        BuiltinOp::Dup => {
            if n >= 1 {
                let top = stack[n - 1];
                stack.push(top);
            }
            None
        },
        BuiltinOp::DropWord => {
            if n >= 1 {
                stack.pop();
                proof {
                    assert(stack@ =~= old(stack)@.take(n - 1));
                }
            }
            None
        },
        BuiltinOp::Swap => {
            if n >= 2 {
                let a = stack.pop().unwrap();
                let b = stack.pop().unwrap();
                stack.push(a);
                stack.push(b);
                proof {
                    assert(stack@ =~= old(stack)@.update(n - 2, old(stack)@[n - 1]).update(
                        n - 1,
                        old(stack)@[n - 2],
                    ));
                }
            }
            None
        },
        BuiltinOp::Over => {
            if n >= 2 {
                let second = stack[n - 2];
                stack.push(second);
            }
            None
        },
    }
}

/// Pops `a` then `b` and pushes their sum `b + a`, wrapping on overflow; with
/// fewer than two values the stack is left unchanged.
pub fn add(forth: &mut Forth)
    ensures
        final(forth)@.stack == run_builtin(BuiltinOp::Add, old(forth)@.stack).0,
        final(forth)@.dict == old(forth)@.dict,
{
    apply_arith(BuiltinOp::Add, &mut forth.stack);
}

/// Pops `a` then `b` and pushes the difference `b - a`, wrapping on overflow;
/// with fewer than two values the stack is left unchanged.
pub fn sub(forth: &mut Forth)
    ensures
        final(forth)@.stack == run_builtin(BuiltinOp::Sub, old(forth)@.stack).0,
        final(forth)@.dict == old(forth)@.dict,
{
    apply_arith(BuiltinOp::Sub, &mut forth.stack);
}

/// Pops `a` then `b` and pushes the product `b * a`, wrapping on overflow;
/// with fewer than two values the stack is left unchanged.
pub fn mul(forth: &mut Forth)
    ensures
        final(forth)@.stack == run_builtin(BuiltinOp::Mul, old(forth)@.stack).0,
        final(forth)@.dict == old(forth)@.dict,
{
    apply_arith(BuiltinOp::Mul, &mut forth.stack);
}

/// Pops `a` then `b` and pushes the truncating quotient `b / a`. A divisor of
/// zero consumes both operands, pushes nothing, and returns the
/// division-by-zero diagnostic; with fewer than two values the stack is left
/// unchanged.
pub fn div(forth: &mut Forth) -> (d: Option<Diag>)
    ensures
        final(forth)@.stack == run_builtin(BuiltinOp::Div, old(forth)@.stack).0,
        opt_diag_view(d) == run_builtin(BuiltinOp::Div, old(forth)@.stack).1,
        final(forth)@.dict == old(forth)@.dict,
{
    apply_arith(BuiltinOp::Div, &mut forth.stack)
}

/// Pushes a copy of the top value; a no-op on an empty stack.
pub fn dup(forth: &mut Forth)
    ensures
        final(forth)@.stack == run_builtin(BuiltinOp::Dup, old(forth)@.stack).0,
        final(forth)@.dict == old(forth)@.dict,
{
    apply_builtin(BuiltinOp::Dup, &mut forth.stack);
}

/// Discards the top value; a no-op on an empty stack.
pub fn drop_word(forth: &mut Forth)
    ensures
        final(forth)@.stack == run_builtin(BuiltinOp::DropWord, old(forth)@.stack).0,
        final(forth)@.dict == old(forth)@.dict,
{
    apply_builtin(BuiltinOp::DropWord, &mut forth.stack);
}

/// Exchanges the top two values; a no-op with fewer than two present.
pub fn swap(forth: &mut Forth)
    ensures
        final(forth)@.stack == run_builtin(BuiltinOp::Swap, old(forth)@.stack).0,
        final(forth)@.dict == old(forth)@.dict,
{
    apply_builtin(BuiltinOp::Swap, &mut forth.stack);
}

/// Pushes a copy of the second-from-top value without removing it; a no-op
/// with fewer than two present.
pub fn over(forth: &mut Forth)
    ensures
        final(forth)@.stack == run_builtin(BuiltinOp::Over, old(forth)@.stack).0,
        final(forth)@.dict == old(forth)@.dict,
{
    apply_builtin(BuiltinOp::Over, &mut forth.stack);
}

} // verus!
