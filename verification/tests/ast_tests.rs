//! Reader tests: token streams parsed into syntax trees.

use rustyscheme::ast::{parse_tokens, ObjectIterator};
use rustyscheme::scm_static::{SchemeObject, SymFrom};
use rustyscheme::tokenise::TokenInterator;
use rustyscheme::ParseError;

fn parse_all(tv: &str) -> Result<Vec<SchemeObject>, ParseError> {
    let chars: Vec<char> = tv.chars().collect();
    let tokens_iter = TokenInterator::new(&chars);
    parse_tokens(ObjectIterator::new(tokens_iter))
}

fn run_test(tv: &str, expected: Result<Vec<SchemeObject>, ParseError>) {
    let res = parse_all(tv);
    assert_eq!(res, expected, "parse of {:?}", tv);
}

#[test]
fn bool() {
    let expected = vec![SchemeObject::from(true), SchemeObject::from(false)];
    run_test("#t #f", Ok(expected))
}

#[test]
fn bad_hash() {
    let expected = ParseError::SyntaxError(String::from(
        "Syntax error: # followed by \"error\"",
    ));
    run_test("#error", Err(expected))
}

#[test]
fn symbol() {
    run_test("a_symbol", Ok(vec![SchemeObject::sym_from("a_symbol")]))
}

#[test]
fn string() {
    let expected = vec![SchemeObject::from(String::from("I am a string"))];
    run_test("\"I am a string\"", Ok(expected))
}

#[test]
fn empty_string() {
    let expected = vec![SchemeObject::from(String::from(""))];
    run_test("\"\"", Ok(expected))
}

#[test]
fn simple_form() {
    let lst = vec![
        SchemeObject::sym_from("one"),
        SchemeObject::sym_from("two"),
    ];

    let expected = vec![SchemeObject::CodeList(lst)];
    run_test("(one two)", Ok(expected))
}

#[test]
fn nested_form() {
    let inner_lst = vec![
        SchemeObject::sym_from("one"),
        SchemeObject::sym_from("two"),
    ];
    let inner_obj = SchemeObject::CodeList(inner_lst);

    let outer_lst = vec![inner_obj, SchemeObject::from(String::from("three"))];
    let outer_obj = SchemeObject::CodeList(outer_lst);

    let expected = vec![outer_obj];
    run_test("((one two) \"three\")", Ok(expected))
}

#[test]
fn vector() {
    let expected = vec![SchemeObject::Vector(vec![SchemeObject::from(true)])];
    run_test("#(#t)", Ok(expected))
}

#[test]
fn quotes() {
    let scm = "'#t 'symbol '\"string\" '(one two) '#(one two)";
    let one_two = || vec![
        SchemeObject::sym_from("one"),
        SchemeObject::sym_from("two"),
    ];

    let expected = vec![
        SchemeObject::from(true),
        SchemeObject::sym_from("symbol"),
        SchemeObject::from(String::from("string")),
        SchemeObject::QuotedList(one_two()),
        SchemeObject::Vector(one_two()),
    ];

    run_test(scm, Ok(expected));
}

#[test]
fn round_trip_abc() {
    // tokenizing then parsing "(a b c)" yields one combination of the
    // three symbols
    let expected = vec![SchemeObject::CodeList(vec![
        SchemeObject::sym_from("a"),
        SchemeObject::sym_from("b"),
        SchemeObject::sym_from("c"),
    ])];
    run_test("(a b c)", Ok(expected))
}

#[test]
fn unclosed_form_is_fatal() {
    run_test("(one two", Err(ParseError::MissingToken));
}

#[test]
fn stray_closing_bracket() {
    run_test(")", Err(ParseError::ClosingBracket));
}

#[test]
fn lone_quote_token_never_closed() {
    run_test("\"", Err(ParseError::PartialStream));
}

#[test]
fn empty_program_parses_to_nothing() {
    run_test("  ; just a comment\n", Ok(vec![]));
}

#[test]
fn empty_combination_parses() {
    let expected = vec![SchemeObject::CodeList(vec![])];
    run_test("()", Ok(expected));
}
