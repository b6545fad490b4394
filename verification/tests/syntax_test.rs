use pkl_bindgen::syntax::lexing::{Identifier, LexingError};
use pkl_bindgen::syntax::locating::{get_next_element_length, get_next_element_until_exclusive, get_next_element_until_inclusive};
use pkl_bindgen::syntax::operator::{ArithmeticOperator, ComparisonOperator, Operator};

const ARITH: [ArithmeticOperator; 8] = [
    ArithmeticOperator::Addition,
    ArithmeticOperator::Subtraction,
    ArithmeticOperator::Multiplication,
    ArithmeticOperator::Exponentiation,
    ArithmeticOperator::Division,
    ArithmeticOperator::Modulo,
    ArithmeticOperator::BitwiseOr,
    ArithmeticOperator::BitwiseNot,
];

const CMP: [ComparisonOperator; 14] = [
    ComparisonOperator::Equal,
    ComparisonOperator::LessThanOrEqual,
    ComparisonOperator::LessThan,
    ComparisonOperator::GreaterThanOrEqual,
    ComparisonOperator::GreaterThan,
    ComparisonOperator::NotEqual,
    ComparisonOperator::NotNot,
    ComparisonOperator::Not,
    ComparisonOperator::DoubleQuestion,
    ComparisonOperator::Question,
    ComparisonOperator::LogicalAnd,
    ComparisonOperator::BitwiseAnd,
    ComparisonOperator::LogicalOr,
    ComparisonOperator::BitwiseOr,
];

#[test]
fn test_operator_precedence_tables() {
    let arith: Vec<u8> = ARITH.iter().map(|o| o.get_precedence()).collect();
    assert_eq!(arith, vec![6, 6, 7, 8, 7, 7, 9, 10]);
    let cmp: Vec<u8> = CMP.iter().map(|o| o.get_precedence()).collect();
    assert_eq!(cmp, vec![4, 4, 4, 4, 4, 4, 5, 5, 1, 1, 3, 3, 2, 2]);
    assert_eq!(Operator::TypeCast.get_precedence(), 0);
    assert_eq!(Operator::TypeTest.get_precedence(), 0);
    assert_eq!(Operator::Arithmetic(ArithmeticOperator::Exponentiation).get_precedence(), 8);
    assert_eq!(Operator::Comparison(ComparisonOperator::LogicalOr).get_precedence(), 2);
    // a == b + c groups as a == (b + c); comparisons > && > || > ??
    assert!(ArithmeticOperator::Addition.get_precedence() > ComparisonOperator::Equal.get_precedence());
    assert!(ComparisonOperator::Equal.get_precedence() > ComparisonOperator::LogicalAnd.get_precedence());
    assert!(ComparisonOperator::LogicalAnd.get_precedence() > ComparisonOperator::LogicalOr.get_precedence());
    assert!(ComparisonOperator::LogicalOr.get_precedence() > ComparisonOperator::DoubleQuestion.get_precedence());
}

#[test]
fn test_operator_symbols_roundtrip() {
    for op in ARITH {
        assert_eq!(ArithmeticOperator::from_symbol(op.symbol()), op);
    }
    for op in CMP {
        assert_eq!(ComparisonOperator::from_symbol(op.symbol()), op);
        assert_eq!(Operator::from_symbol(op.symbol()), Operator::Comparison(op));
    }
    assert_eq!(Operator::from_symbol("**"), Operator::Arithmetic(ArithmeticOperator::Exponentiation));
    assert_eq!(Operator::from_symbol("is"), Operator::TypeTest);
    // `as` reads as the type test, and `|` as the comparison operator.
    assert_eq!(Operator::from_symbol("as"), Operator::TypeTest);
    assert_eq!(Operator::from_symbol("|"), Operator::Comparison(ComparisonOperator::BitwiseOr));
    assert_eq!(Operator::TypeCast.symbol(), "as");
    assert_eq!(ArithmeticOperator::BitwiseNot.symbol(), "~/");
}

#[test]
fn test_identifier_and_lexing_error() {
    let id = Identifier("foo", 3..6);
    assert_eq!(id.span(), 3..6);
    assert_eq!(id.value(), "foo");
    assert_eq!(LexingError::InvalidInteger("12x".to_string()).message(), "Invalid integer: 12x");
    assert_eq!(LexingError::InvalidFloat("1.x".to_string()).message(), "Invalid float: 1.x");
    assert_eq!(
        LexingError::ExpectedNewLineBeforeMultilineStringEnd.message(),
        "Expected a newline before the end of the multiline string"
    );
    assert_eq!(
        LexingError::ExpectedNewLineAfterMultilineStringStart.message(),
        "Expected a newline after the start of the multiline string"
    );
    assert_eq!(LexingError::default_error(), LexingError::DefaultLexingError);
    assert_eq!(LexingError::DefaultLexingError.message(), "An unspecified lexing error occurred");
}

#[test]
fn test_next_element_length() {
    assert_eq!(get_next_element_length("foo bar"), 3);
    assert_eq!(get_next_element_length("foo_1 = 2"), 5);
    assert_eq!(get_next_element_length("\"ab\" x"), 4);
    assert_eq!(get_next_element_length("\"a\\\"b\" x"), 6);
    assert_eq!(get_next_element_length("+= x"), 4);
    assert_eq!(get_next_element_length("$x"), 2);
    assert_eq!(get_next_element_length(""), 0);
    assert_eq!(get_next_element_length("   "), 0);
    // Leading white space is skipped but not counted.
    assert_eq!(get_next_element_length("  foo"), 1);
}

#[test]
fn test_next_element_until() {
    assert_eq!(get_next_element_until_inclusive("abc=def", "="), 4);
    assert_eq!(get_next_element_until_exclusive("abc=def", "="), 3);
    assert_eq!(get_next_element_until_inclusive("abc", "="), 2);
    assert_eq!(get_next_element_until_exclusive("abc", "="), 2);
    // Offsets count bytes.
    assert_eq!(get_next_element_until_exclusive("é=x", "="), 2);
    assert_eq!(get_next_element_until_inclusive("é=x", "="), 3);
    assert_eq!(get_next_element_until_inclusive("ab", ""), 1);
    assert_eq!(get_next_element_until_exclusive("", ""), 0);
}

#[test]
fn test_sanitize_code() {
    use_sanitize();
}

fn use_sanitize() {
    let (code, lits) = pkl_bindgen::syntax::sanitize::sanitize_code("a = \"x\"\nb = \"y z\"\nc = 1");
    assert_eq!(lits, vec!["\"x\"", "\"y z\""]);
    assert_eq!(code, "a = \"0\"\nb = \"1\"\nc = 1");
    let (code, lits) = pkl_bindgen::syntax::sanitize::sanitize_code("s = #\"raw\"#");
    assert_eq!(lits, vec!["#\"raw\"#"]);
    assert_eq!(code, "s = \"0\"");
    let (code, lits) = pkl_bindgen::syntax::sanitize::sanitize_code("n = 42");
    assert!(lits.is_empty());
    assert_eq!(code, "n = 42");
}

#[test]
fn test_replace_literals_first_occurrence_each() {
    let lits = vec!["\"a\"".to_string(), "\"a\"".to_string()];
    let out = pkl_bindgen::syntax::sanitize::replace_literals("x = \"a\" + \"a\"", &lits);
    assert_eq!(out, "x = \"0\" + \"1\"");
}
