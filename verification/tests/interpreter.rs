use forth::forth::Forth;
use forth::word::Diag;

#[test]
fn arithmetic_scenario_nine() {
    let mut f = Forth::new();
    let diags = f.eval("1 2 + 3 *");
    assert!(diags.is_empty());
    assert_eq!(f.top(), Some(9));
    assert_eq!(f.stack, vec![9]);
}

#[test]
fn add_pair() {
    let mut f = Forth::new();
    let diags = f.eval("1 2 +");
    assert!(diags.is_empty());
    assert_eq!(f.stack, vec![3]);
}

#[test]
fn sub_pair() {
    let mut f = Forth::new();
    let diags = f.eval("10 3 -");
    assert!(diags.is_empty());
    assert_eq!(f.stack, vec![7]);
}

#[test]
fn mul_pair() {
    let mut f = Forth::new();
    let diags = f.eval("4 5 *");
    assert!(diags.is_empty());
    assert_eq!(f.stack, vec![20]);
}

#[test]
fn div_truncates_toward_zero() {
    let mut f = Forth::new();
    f.eval("7 2 /");
    assert_eq!(f.stack, vec![3]);
    f.eval("drop -7 2 /");
    assert_eq!(f.stack, vec![-3]);
    f.eval("drop 7 -2 /");
    assert_eq!(f.stack, vec![-3]);
}

#[test]
fn add_wraps_on_overflow() {
    let mut f = Forth::new();
    let diags = f.eval("2147483647 1 +");
    assert!(diags.is_empty());
    assert_eq!(f.stack, vec![i32::MIN]);
}

#[test]
fn div_min_by_minus_one_wraps() {
    let mut f = Forth::new();
    let diags = f.eval("-2147483648 -1 /");
    assert!(diags.is_empty());
    assert_eq!(f.stack, vec![i32::MIN]);
}

#[test]
fn division_by_zero_reports_and_empties() {
    let mut f = Forth::new();
    let diags = f.eval("6 0 /");
    assert_eq!(diags, vec![Diag::DivisionByZero]);
    assert!(f.stack.is_empty());
    // The interpreter stays usable afterward.
    let diags = f.eval("4 5 +");
    assert!(diags.is_empty());
    assert_eq!(f.stack, vec![9]);
}

#[test]
fn division_by_zero_then_push_still_works() {
    let mut f = Forth::new();
    let diags = f.eval("10 0 /");
    assert_eq!(diags, vec![Diag::DivisionByZero]);
    assert!(f.stack.is_empty());
    let diags = f.eval("5");
    assert!(diags.is_empty());
    assert_eq!(f.stack, vec![5]);
}

#[test]
fn unknown_word_amid_valid_tokens() {
    let mut f = Forth::new();
    let diags = f.eval("3 foo 4 +");
    assert_eq!(diags, vec![Diag::UnknownWord("foo".to_string())]);
    assert_eq!(f.stack, vec![7]);
}

#[test]
fn unknown_word_leaves_stack_untouched() {
    let mut f = Forth::new();
    let diags = f.eval("3 foo");
    assert_eq!(diags, vec![Diag::UnknownWord("foo".to_string())]);
    assert_eq!(f.stack, vec![3]);
}

#[test]
fn define_square_then_evaluate() {
    let mut f = Forth::new();
    f.define_word("square", vec!["dup".to_string(), "*".to_string()]);
    let diags = f.eval("5 square");
    assert!(diags.is_empty());
    assert_eq!(f.top(), Some(25));
}

#[test]
fn redefinition_takes_effect_for_future_calls() {
    let mut f = Forth::new();
    f.define_word("unit", vec!["1".to_string()]);
    f.eval("unit");
    assert_eq!(f.stack, vec![1]);
    f.define_word("unit", vec!["2".to_string()]);
    f.eval("unit");
    assert_eq!(f.stack, vec![1, 2]);
}

#[test]
fn redefinition_of_referenced_word_is_late_bound() {
    // "twice" references "step"; redefining "step" changes what "twice"
    // does, because user words re-resolve their tokens at call time.
    let mut f = Forth::new();
    f.define_word("step", vec!["1".to_string(), "+".to_string()]);
    f.define_word("twice", vec!["step".to_string(), "step".to_string()]);
    f.eval("0 twice");
    assert_eq!(f.stack, vec![2]);
    f.define_word("step", vec!["10".to_string(), "+".to_string()]);
    f.eval("drop 0 twice");
    assert_eq!(f.stack, vec![20]);
}

#[test]
fn builtin_can_be_shadowed() {
    let mut f = Forth::new();
    f.define_word("+", vec!["*".to_string()]);
    let diags = f.eval("3 4 +");
    assert!(diags.is_empty());
    assert_eq!(f.stack, vec![12]);
}

#[test]
fn self_referencing_word_hits_recursion_limit() {
    let mut f = Forth::new();
    f.define_word("echo", vec!["echo".to_string()]);
    let diags = f.eval("echo");
    assert_eq!(diags, vec![Diag::RecursionLimitExceeded]);
    assert!(f.stack.is_empty());
    // Still usable afterward.
    let diags = f.eval("5");
    assert!(diags.is_empty());
    assert_eq!(f.stack, vec![5]);
}

#[test]
fn empty_line_is_a_no_op() {
    let mut f = Forth::new();
    let diags = f.eval("");
    assert!(diags.is_empty());
    assert!(f.stack.is_empty());
    let diags = f.eval(" \t \n ");
    assert!(diags.is_empty());
    assert!(f.stack.is_empty());
}

#[test]
fn whitespace_varieties_separate_tokens() {
    let mut f = Forth::new();
    let diags = f.eval("  1\t2\n+ ");
    assert!(diags.is_empty());
    assert_eq!(f.stack, vec![3]);
}

#[test]
fn diagnostics_come_in_order() {
    let mut f = Forth::new();
    let diags = f.eval("foo 1 0 / bar");
    assert_eq!(
        diags,
        vec![
            Diag::UnknownWord("foo".to_string()),
            Diag::DivisionByZero,
            Diag::UnknownWord("bar".to_string()),
        ]
    );
    assert!(f.stack.is_empty());
}

#[test]
fn top_push_pop_roundtrip() {
    let mut f = Forth::new();
    assert_eq!(f.top(), None);
    assert_eq!(f.pop(), None);
    f.push(42);
    f.push(-7);
    assert_eq!(f.top(), Some(-7));
    assert_eq!(f.pop(), Some(-7));
    assert_eq!(f.pop(), Some(42));
    assert_eq!(f.pop(), None);
}
