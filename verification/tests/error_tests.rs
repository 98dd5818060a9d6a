//! Error-path tests: every malformed form fails with its documented
//! message, and evaluation never panics.

use rustyscheme::ast::{parse_tokens, ObjectIterator};
use rustyscheme::env::Environment;
use rustyscheme::runtime::{NativeProc, RuntimeError, RuntimeObject};
use rustyscheme::tokenise::TokenInterator;

const FUEL: u64 = 1000;

fn eval_one(program: &str) -> Result<RuntimeObject, RuntimeError> {
    let mut env = Environment::new();
    env.set(0, String::from("cat"), RuntimeObject::RFunc(NativeProc::Cat));
    let chars: Vec<char> = program.chars().collect();
    let objs = parse_tokens(ObjectIterator::new(TokenInterator::new(&chars))).unwrap();
    objs[0].exec(&mut env, 0, FUEL)
}

fn expect_msg(program: &str, msg: &str) {
    assert_eq!(
        eval_one(program),
        Err(RuntimeError::Msg(String::from(msg))),
        "program: {}",
        program
    );
}

#[test]
fn lambda_wants_two_operands() {
    expect_msg("(lambda (x))", "Expected 2 arguments to lambda");
}

#[test]
fn lambda_wants_a_parameter_list() {
    expect_msg(
        "(lambda x x)",
        "Expected the first argument to lambda to be a list",
    );
}

#[test]
fn lambda_parameters_must_be_symbols() {
    expect_msg("(lambda (\"x\") \"y\")", "You can't call a variable that");
}

#[test]
fn define_wants_two_operands() {
    expect_msg("(define x)", "Expected 2 arguments");
}

#[test]
fn define_name_must_be_symbol_or_list() {
    expect_msg("(define \"x\" \"y\")", "You can't name a variable that");
}

#[test]
fn define_function_name_must_be_symbol() {
    expect_msg("(define (\"f\") \"y\")", "You can't name a function that");
}

#[test]
fn define_empty_assignment_list() {
    expect_msg("(define () \"y\")", "Empty assignment list");
}

#[test]
fn let_wants_two_operands() {
    expect_msg("(let ((x \"a\")))", "let should have at least 2 arguments");
}

#[test]
fn let_wants_a_binding_list() {
    expect_msg("(let x x)", "You incorrect let form");
}

#[test]
fn let_bindings_must_be_lists() {
    expect_msg("(let (x) x)", "Let bindings should be 2 element lists");
}

#[test]
fn if_wants_condition_and_branch() {
    expect_msg(
        "(if #t)",
        "If statement needs to at least specify a condition and something to do on true",
    );
}

#[test]
fn head_must_be_a_function_name() {
    expect_msg("(#t \"x\")", "#t found; function name expected");
}

#[test]
fn applying_a_string_is_a_type_error() {
    expect_msg("((cat \"a\") \"b\")", "Expected a function");
}

#[test]
fn argument_errors_abort_application() {
    // the first failing argument aborts the rest: `missing` is unbound
    let r = eval_one("(cat \"a\" missing \"b\")");
    assert_eq!(r, Err(RuntimeError::NameLookup(String::from("missing"))));
}
