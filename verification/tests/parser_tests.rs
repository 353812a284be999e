use muoni::ast::{Control, Lexeme, Scope};
use muoni::parser::parse;

#[test]
fn parse_empty_stream_gives_empty_scope() {
    let scope = parse(Vec::new());
    assert_eq!(*scope, Scope { statements: Vec::new() });
    assert!(scope.statements.is_empty());
}

#[test]
fn empty_statement_is_comparable() {
    let a: Box<Control> = Box::new(Control::Empty);
    assert_eq!(*a, Control::Empty);
    assert_ne!(Lexeme::NewLine, Lexeme::Semicolon);
}

use muoni::ast::{BOP, UOP};
use muoni::parser::{parse_arith, parse_arith_contained, parse_control, parse_decomposition, traverse_atom};

fn name(s: &str) -> Lexeme {
    Lexeme::Handle(s.to_string())
}

#[test]
fn line_breaks_alone_give_empty_statement() {
    let (c, n) = parse_control(&[Lexeme::NewLine, Lexeme::NewLine]).unwrap();
    assert_eq!(*c, Control::Empty);
    assert_eq!(n, 0);
    let (c, n) = parse_control(&[]).unwrap();
    assert_eq!(*c, Control::Empty);
    assert_eq!(n, 0);
}

#[test]
fn statements_with_expressions_are_refused() {
    assert!(parse_control(&[name("x"), Lexeme::Assign, Lexeme::Number("1".to_string())]).is_none());
    assert!(parse_control(&[Lexeme::NewLine, name("x"), Lexeme::NewLine]).is_none());
    assert!(parse_control(&[Lexeme::If, name("x")]).is_none());
    assert!(parse_control(&[Lexeme::While]).is_none());
    assert!(parse_control(&[Lexeme::For, name("r"), Lexeme::NewLine]).is_none());
    assert!(parse_control(&[
        name("f"), Lexeme::OArgList, name("a"), Lexeme::Comma, name("b"), Lexeme::CParen,
        Lexeme::RightArrow, name("a"), Lexeme::NewLine,
    ])
    .is_none());
}

#[test]
fn expressions_are_refused() {
    assert!(parse_arith(&[name("x"), Lexeme::Semicolon]).is_none());
    assert!(parse_arith(&[name("x"), Lexeme::BinaryOp(BOP::Plus)]).is_none());
    assert!(parse_arith_contained(&[name("x"), Lexeme::BinaryOp(BOP::Plus), name("y")], 0).is_none());
    assert!(parse_arith_contained(&[Lexeme::UnaryOp(UOP::Negate), name("y")], 8).is_none());
    assert!(parse_arith_contained(&[], 8).is_none());
    assert!(parse_decomposition(&[name("x")]).is_none());
}

#[test]
fn atom_ends_at_matching_closer() {
    assert_eq!(traverse_atom(&[Lexeme::OArgList, name("x"), Lexeme::CParen]), Some(3));
    assert_eq!(
        traverse_atom(&[
            Lexeme::OList, Lexeme::OArgList, name("x"), Lexeme::CParen, Lexeme::CBraket,
            name("y"),
        ]),
        Some(5)
    );
    assert_eq!(traverse_atom(&[Lexeme::OMatrix, Lexeme::CBrace, Lexeme::CBrace]), Some(2));
}

#[test]
fn unclosed_atom_is_refused() {
    assert_eq!(traverse_atom(&[Lexeme::OArgList, name("x")]), None);
    assert_eq!(traverse_atom(&[Lexeme::OArgList]), None);
    assert_eq!(traverse_atom(&[]), None);
    assert_eq!(traverse_atom(&[Lexeme::OList, Lexeme::OList, Lexeme::CBraket]), None);
}

