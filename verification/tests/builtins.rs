use forth::builtins;
use forth::forth::{BuiltinOps, Forth};
use forth::word::Diag;

#[test]
fn dup_duplicates_top() {
    let mut f = Forth::new();
    f.push(3);
    builtins::dup(&mut f);
    assert_eq!(f.stack, vec![3, 3]);
}

#[test]
fn dup_on_empty_is_no_op() {
    let mut f = Forth::new();
    builtins::dup(&mut f);
    assert!(f.stack.is_empty());
}

#[test]
fn swap_exchanges_top_two() {
    let mut f = Forth::new();
    f.push(1);
    f.push(2);
    builtins::swap(&mut f);
    assert_eq!(f.stack, vec![2, 1]);
}

#[test]
fn swap_on_short_stack_is_no_op() {
    let mut f = Forth::new();
    builtins::swap(&mut f);
    assert!(f.stack.is_empty());
    f.push(9);
    builtins::swap(&mut f);
    assert_eq!(f.stack, vec![9]);
}

#[test]
fn over_copies_second_from_top() {
    let mut f = Forth::new();
    f.push(1);
    f.push(2);
    builtins::over(&mut f);
    assert_eq!(f.stack, vec![1, 2, 1]);
}

#[test]
fn over_on_short_stack_is_no_op() {
    let mut f = Forth::new();
    builtins::over(&mut f);
    assert!(f.stack.is_empty());
    f.push(9);
    builtins::over(&mut f);
    assert_eq!(f.stack, vec![9]);
}

#[test]
fn drop_word_discards_top() {
    let mut f = Forth::new();
    f.push(1);
    f.push(2);
    builtins::drop_word(&mut f);
    assert_eq!(f.stack, vec![1]);
    builtins::drop_word(&mut f);
    assert!(f.stack.is_empty());
    builtins::drop_word(&mut f);
    assert!(f.stack.is_empty());
}

#[test]
fn arithmetic_on_short_stack_is_no_op() {
    // The chosen underflow policy: with fewer than two values present the
    // operation leaves the stack exactly as it was.
    let mut f = Forth::new();
    f.push(5);
    builtins::add(&mut f);
    assert_eq!(f.stack, vec![5]);
    builtins::sub(&mut f);
    assert_eq!(f.stack, vec![5]);
    builtins::mul(&mut f);
    assert_eq!(f.stack, vec![5]);
    assert_eq!(builtins::div(&mut f), None);
    assert_eq!(f.stack, vec![5]);
}

#[test]
fn div_reports_division_by_zero() {
    let mut f = Forth::new();
    f.push(6);
    f.push(0);
    assert_eq!(builtins::div(&mut f), Some(Diag::DivisionByZero));
    assert!(f.stack.is_empty());
}

#[test]
fn div_pushes_quotient() {
    let mut f = Forth::new();
    f.push(6);
    f.push(3);
    assert_eq!(builtins::div(&mut f), None);
    assert_eq!(f.stack, vec![2]);
}

#[test]
fn sub_order_is_second_minus_top() {
    let mut f = Forth::new();
    f.push(10);
    f.push(3);
    builtins::sub(&mut f);
    assert_eq!(f.stack, vec![7]);
}

#[test]
fn mul_wraps_on_overflow() {
    let mut f = Forth::new();
    f.push(65536);
    f.push(32768);
    builtins::mul(&mut f);
    assert_eq!(f.stack, vec![i32::MIN]);
}

#[test]
fn sub_wraps_on_overflow() {
    let mut f = Forth::new();
    f.push(i32::MIN);
    f.push(1);
    builtins::sub(&mut f);
    assert_eq!(f.stack, vec![i32::MAX]);
}

#[test]
fn trait_methods_match_free_functions() {
    let mut f = Forth::new();
    f.push(2);
    f.push(3);
    f.add();
    assert_eq!(f.stack, vec![5]);
    f.push(1);
    f.sub();
    assert_eq!(f.stack, vec![4]);
    f.push(2);
    f.mul();
    assert_eq!(f.stack, vec![8]);
    f.push(3);
    assert_eq!(f.div(), None);
    assert_eq!(f.stack, vec![2]);
    f.dup();
    assert_eq!(f.stack, vec![2, 2]);
    f.push(7);
    f.swap();
    assert_eq!(f.stack, vec![2, 7, 2]);
    f.over();
    assert_eq!(f.stack, vec![2, 7, 2, 7]);
    f.drop_word();
    assert_eq!(f.stack, vec![2, 7, 2]);
}
