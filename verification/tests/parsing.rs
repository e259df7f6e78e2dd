//! The expression parser and the numeric reader.

use pcb_parsing::numeric::{parse_decimal, parse_usize};
use pcb_parsing::parse_to_s_expr::parse_dsn_to_s_expr;
use pcb_parsing::s_expr::SExpr;

fn atom(e: &SExpr) -> &str {
    e.as_atom().expect("expected an atom").as_str()
}

fn list(e: &SExpr) -> &Vec<SExpr> {
    e.as_list().expect("expected a list")
}

#[test]
fn parses_nested_tree_with_quoted_atom() {
    let (tree, trailing) = parse_dsn_to_s_expr("(a (b 1 2) \"c d\")").unwrap();
    assert!(!trailing);
    let items = list(&tree);
    assert_eq!(items.len(), 3);
    assert_eq!(atom(&items[0]), "a");
    let inner = list(&items[1]);
    assert_eq!(inner.len(), 3);
    assert_eq!(atom(&inner[0]), "b");
    assert_eq!(atom(&inner[1]), "1");
    assert_eq!(atom(&inner[2]), "2");
    assert_eq!(atom(&items[2]), "c d");
}

#[test]
fn trailing_text_is_reported_not_fatal() {
    let (tree, trailing) = parse_dsn_to_s_expr("(a b) leftover").unwrap();
    assert!(trailing);
    assert_eq!(list(&tree).len(), 2);
    let (_, no_trailing) = parse_dsn_to_s_expr("  (a b)  ").unwrap();
    assert!(!no_trailing);
}

#[test]
fn unterminated_list_is_an_error() {
    assert!(parse_dsn_to_s_expr("(a (b c)").is_err());
    assert!(parse_dsn_to_s_expr("").is_err());
    assert!(parse_dsn_to_s_expr(")").is_err());
}

#[test]
fn unterminated_quote_falls_back_to_a_plain_atom() {
    let (tree, _) = parse_dsn_to_s_expr("\"abc").unwrap();
    assert_eq!(atom(&tree), "\"abc");
}

#[test]
fn bare_atom_parses_at_top_level() {
    let (tree, trailing) = parse_dsn_to_s_expr("hello world").unwrap();
    assert_eq!(atom(&tree), "hello");
    assert!(trailing);
}

#[test]
fn deep_nesting_past_the_limit_is_an_error() {
    let mut deep = String::new();
    for _ in 0..150 {
        deep.push('(');
    }
    deep.push('x');
    for _ in 0..150 {
        deep.push(')');
    }
    assert!(parse_dsn_to_s_expr(&deep).is_err());
    let mut shallow = String::new();
    for _ in 0..50 {
        shallow.push('(');
    }
    shallow.push('x');
    for _ in 0..50 {
        shallow.push(')');
    }
    assert!(parse_dsn_to_s_expr(&shallow).is_ok());
}

#[test]
fn decimal_text_reads_exactly_in_millionths() {
    assert_eq!(parse_decimal("1.25").unwrap(), 1_250_000);
    assert_eq!(parse_decimal("-3.5").unwrap(), -3_500_000);
    assert_eq!(parse_decimal("10").unwrap(), 10_000_000);
    assert_eq!(parse_decimal("+0.000001").unwrap(), 1);
    assert_eq!(parse_decimal("1.").unwrap(), 1_000_000);
    assert_eq!(parse_decimal(".5").unwrap(), 500_000);
    assert_eq!(parse_decimal("0").unwrap(), 0);
}

#[test]
fn decimal_truncates_past_the_sixth_fractional_digit() {
    assert_eq!(parse_decimal("1.2345678").unwrap(), 1_234_567);
    assert_eq!(parse_decimal("-0.0000009").unwrap(), 0);
}

#[test]
fn malformed_or_oversized_numbers_are_rejected() {
    assert!(parse_decimal("abc").is_err());
    assert!(parse_decimal("").is_err());
    assert!(parse_decimal("1e5").is_err());
    assert!(parse_decimal("1.2.3").is_err());
    assert!(parse_decimal("-").is_err());
    assert!(parse_decimal("10000000000").is_err());
    assert!(parse_decimal("999999999").is_ok());
}

#[test]
fn pin_numbers_read_as_plain_digits() {
    assert_eq!(parse_usize("42").unwrap(), 42);
    assert_eq!(parse_usize("0").unwrap(), 0);
    assert!(parse_usize("").is_err());
    assert!(parse_usize("12a").is_err());
    assert!(parse_usize("-3").is_err());
    assert!(parse_usize("99999999999999999999999").is_err());
}
