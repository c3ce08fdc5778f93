use forth::forth::Forth;
use forth::numeral::parse_i32;
use forth::tokenize::tokenize;
use forth::word::Diag;

#[test]
fn plain_numerals_parse() {
    assert_eq!(parse_i32("0"), Some(0));
    assert_eq!(parse_i32("42"), Some(42));
    assert_eq!(parse_i32("-17"), Some(-17));
    assert_eq!(parse_i32("+5"), Some(5));
}

#[test]
fn leading_zeros_parse() {
    assert_eq!(parse_i32("007"), Some(7));
    assert_eq!(parse_i32("0000000000042"), Some(42));
    assert_eq!(parse_i32("-007"), Some(-7));
    assert_eq!(parse_i32("-0"), Some(0));
}

#[test]
fn range_limits_parse() {
    assert_eq!(parse_i32("2147483647"), Some(i32::MAX));
    assert_eq!(parse_i32("-2147483648"), Some(i32::MIN));
    assert_eq!(parse_i32("2147483648"), None);
    assert_eq!(parse_i32("-2147483649"), None);
    assert_eq!(parse_i32("99999999999999999999"), None);
}

#[test]
fn malformed_numerals_do_not_parse() {
    assert_eq!(parse_i32(""), None);
    assert_eq!(parse_i32("+"), None);
    assert_eq!(parse_i32("-"), None);
    assert_eq!(parse_i32("--5"), None);
    assert_eq!(parse_i32("1x"), None);
    assert_eq!(parse_i32("x1"), None);
    assert_eq!(parse_i32("1 2"), None);
    assert_eq!(parse_i32("1.5"), None);
}

#[test]
fn numeral_out_of_range_is_unknown_word() {
    let mut f = Forth::new();
    let diags = f.eval("2147483648");
    assert_eq!(diags, vec![Diag::UnknownWord("2147483648".to_string())]);
    assert!(f.stack.is_empty());
}

#[test]
fn negative_numerals_push() {
    let mut f = Forth::new();
    let diags = f.eval("-3 -4 +");
    assert!(diags.is_empty());
    assert_eq!(f.stack, vec![-7]);
}

#[test]
fn tokenize_splits_on_whitespace_runs() {
    assert_eq!(tokenize("1 2 +"), vec!["1", "2", "+"]);
    assert_eq!(tokenize("  a\t\tb  "), vec!["a", "b"]);
    assert_eq!(tokenize("\n"), Vec::<String>::new());
    assert_eq!(tokenize(""), Vec::<String>::new());
    assert_eq!(tokenize("one"), vec!["one"]);
}
