//! Evaluator tests: symbols, literals, special forms, closures,
//! truthiness and arity.

use rustyscheme::ast::{parse_tokens, ObjectIterator};
use rustyscheme::env::Environment;
use rustyscheme::runtime::{NativeProc, RuntimeError, RuntimeObject};
use rustyscheme::scm_static::{SchemeObject, SymFrom};
use rustyscheme::tokenise::TokenInterator;

const FUEL: u64 = 1000;

fn str_obj(s: &str) -> RuntimeObject {
    RuntimeObject::from(String::from(s))
}

fn get_test_env() -> Environment {
    let mut env = Environment::new();
    env.set(0, String::from("cat"), RuntimeObject::RFunc(NativeProc::Cat));
    env.set(0, String::from("space"), str_obj(" "));
    env.shrink(0);
    env
}

fn parse_program(program: &str) -> Vec<SchemeObject> {
    let chars: Vec<char> = program.chars().collect();
    parse_tokens(ObjectIterator::new(TokenInterator::new(&chars))).unwrap()
}

fn exec_program(program: &str, expected: Vec<RuntimeObject>) {
    let mut env = get_test_env();
    let syntax = parse_program(program);

    for (exp, code) in expected.iter().zip(syntax.iter()) {
        let rc = code.exec(&mut env, 0, FUEL).unwrap();
        assert_eq!(&rc, exp);
    }
}

#[test]
fn resolve_symbol() {
    let name = String::from("name");
    let val_obj = str_obj("value");

    // create an environment where "name" is mapped to "value"
    let mut env = Environment::new();
    env.set(0, name.clone(), str_obj("value"));

    let symbol = SchemeObject::sym_from(&name);
    assert_eq!(symbol.exec(&mut env, 0, FUEL), Ok(val_obj))
}

#[test]
fn return_as_is() {
    let mut env = Environment::new();
    let obj = SchemeObject::from(String::from("string"));
    let obj_ret = Ok(str_obj("string"));

    assert_eq!(obj.exec(&mut env, 0, FUEL), obj_ret);
}

#[test]
fn simple_codelist() {
    let program = "(cat \"Hello\" space \"world!\")";
    let expected = str_obj("Hello world!");

    exec_program(program, vec![expected])
}

#[test]
fn nested_codelist() {
    let program = "(cat \"Hello\" (cat space \"world!\"))";
    let expected = str_obj("Hello world!");

    exec_program(program, vec![expected])
}

#[test]
fn define() {
    let program = "(define hello \"Hello\")
             (define world \"world\")
             (cat hello space world \"!\")";
    let last = str_obj("Hello world!");
    let expected = vec![RuntimeObject::Unspecified, RuntimeObject::Unspecified, last];

    exec_program(program, expected)
}

#[test]
fn scm_let() {
    let program = "(let ((world \"world\")
                             (hello \"Hello\"))
                            (cat hello space world \"!\"))";
    let expected = str_obj("Hello world!");

    exec_program(program, vec![expected])
}

#[test]
fn shadowing_define_let() {
    let program = "(define test \"global binding\")
                       (let ((test \"local binding\"))
                            (cat test))";
    let expected = str_obj("local binding");

    exec_program(program, vec![RuntimeObject::Unspecified, expected])
}

#[test]
fn shadowing_let_define() {
    let program = "(let ((test \"local binding\"))
                            (define test \"global binding\")
                            (cat test))";
    let expected = str_obj("global binding");

    exec_program(program, vec![expected])
}

#[test]
fn define_fn_no_args() {
    let program = "(define (f) (cat \"hello world\"))
                       (f)";
    let expected = str_obj("hello world");

    exec_program(program, vec![RuntimeObject::Unspecified, expected]);
}

#[test]
fn define_fn_args() {
    let program = "(define (hi person) (cat \"hi \" person))
                       (hi \"Tom\")";
    let expected = str_obj("hi Tom");

    exec_program(program, vec![RuntimeObject::Unspecified, expected]);
}

#[test]
fn let_fn() {
    let program = "(let ((me \"Tom\")
                             ((hi person) (cat \"hi \" person)))
                            (hi me))";
    let expected = str_obj("hi Tom");

    exec_program(program, vec![expected]);
}

#[test]
fn lambda_no_args() {
    let program = "((lambda () (cat \"hello world\")))";
    let expected = str_obj("hello world");

    exec_program(program, vec![expected])
}

#[test]
fn lambda_args() {
    let program = "((lambda (name) (cat \"hi \" name)) \"Tom\")";
    let expected = str_obj("hi Tom");

    exec_program(program, vec![expected]);
}

#[test]
fn define_lambda() {
    let program = "(define say_hi (lambda (name)
                                              (cat \"hi \" name)))
                       (say_hi \"Tom\")";
    let expected = str_obj("hi Tom");

    exec_program(program, vec![RuntimeObject::Unspecified, expected]);
}

#[test]
fn higher_order_functions() {
    let program = "(define (call_with_hi fn) (lambda () (fn \"hi\")))
                     (define say_hi (call_with_hi cat))
                     (say_hi)";
    let expected = str_obj("hi");

    exec_program(
        program,
        vec![RuntimeObject::Unspecified, RuntimeObject::Unspecified, expected],
    );
}

#[test]
fn let_over_lambda() {
    let program = "(define ret_hi
                         (let ((hi \"hi\"))
                           (lambda () hi)))
                       (ret_hi)";
    let expected = str_obj("hi");

    exec_program(program, vec![RuntimeObject::Unspecified, expected]);
}

#[test]
fn if_true1() {
    let program = "(if #t \"hi\")";
    let expected = str_obj("hi");
    exec_program(program, vec![expected]);
}

#[test]
fn if_true2() {
    let program = "(if #t \"hi\" \"lo\")";
    let expected = str_obj("hi");
    exec_program(program, vec![expected]);
}

#[test]
fn if_false1() {
    let program = "(if #f \"hi\")";
    let expected = RuntimeObject::Unspecified;
    exec_program(program, vec![expected]);
}

#[test]
fn if_false2() {
    let program = "(if #f \"hi\" \"lo\")";
    let expected = str_obj("lo");
    exec_program(program, vec![expected]);
}

#[test]
fn if_sym() {
    let program = "(let ((sym #t))
                         (if sym \"hi\"))";
    let expected = str_obj("hi");
    exec_program(program, vec![expected])
}

#[test]
fn closures_make_adder() {
    let program = "(define make_adder (lambda (x) (lambda (y) (cat x y))))
                   ((make_adder \"a\") \"b\")";
    let expected = str_obj("ab");
    exec_program(program, vec![RuntimeObject::Unspecified, expected]);
}

#[test]
fn truthiness_nonboolean_string() {
    // a non-boolean-true condition takes the else-branch
    let program = "(if \"nonempty\" \"yes\" \"no\")";
    exec_program(program, vec![str_obj("no")]);
}

#[test]
fn truthiness_boolean_true() {
    let program = "(if #t \"yes\" \"no\")";
    exec_program(program, vec![str_obj("yes")]);
}

#[test]
fn arity_zero_param_closure() {
    let mut env = get_test_env();
    let program = parse_program(
        "(define f (lambda () \"ok\"))
         (f \"extra\")
         (f)",
    );
    assert_eq!(program[0].exec(&mut env, 0, FUEL), Ok(RuntimeObject::Unspecified));
    assert_eq!(
        program[1].exec(&mut env, 0, FUEL),
        Err(RuntimeError::Msg(String::from("Expected 0 arguments, got 1")))
    );
    assert_eq!(program[2].exec(&mut env, 0, FUEL), Ok(str_obj("ok")));
}

#[test]
fn arity_two_params_no_args() {
    let mut env = get_test_env();
    let program = parse_program(
        "(define g (lambda (a b) (cat a b)))
         (g)",
    );
    assert_eq!(program[0].exec(&mut env, 0, FUEL), Ok(RuntimeObject::Unspecified));
    assert_eq!(
        program[1].exec(&mut env, 0, FUEL),
        Err(RuntimeError::Msg(String::from("Expected 2 arguments, got 0")))
    );
}

#[test]
fn arity_message_renders_two_digit_counts() {
    let mut env = get_test_env();
    let program = parse_program(
        "(define f (lambda () \"ok\"))
         (f \"1\" \"2\" \"3\" \"4\" \"5\" \"6\" \"7\" \"8\" \"9\" \"10\")",
    );
    assert_eq!(program[0].exec(&mut env, 0, FUEL), Ok(RuntimeObject::Unspecified));
    assert_eq!(
        program[1].exec(&mut env, 0, FUEL),
        Err(RuntimeError::Msg(String::from("Expected 0 arguments, got 10")))
    );
}

#[test]
fn quoted_list_is_inert() {
    // '(one two) evaluates to itself: no lookup of one or two happens
    let mut env = get_test_env();
    let program = parse_program("'(one two)");
    let expected = RuntimeObject::SchemeObject(SchemeObject::QuotedList(vec![
        SchemeObject::sym_from("one"),
        SchemeObject::sym_from("two"),
    ]));
    assert_eq!(program[0].exec(&mut env, 0, FUEL), Ok(expected));
}

#[test]
fn vector_literal_is_inert() {
    // #(#t) parses to a vector and evaluates to that same vector
    let mut env = get_test_env();
    let program = parse_program("#(#t)");
    assert_eq!(program[0], SchemeObject::Vector(vec![SchemeObject::from(true)]));
    let expected = RuntimeObject::SchemeObject(SchemeObject::Vector(vec![SchemeObject::from(
        true,
    )]));
    assert_eq!(program[0].exec(&mut env, 0, FUEL), Ok(expected));
}

#[test]
fn unbound_symbol_is_name_lookup_error() {
    let mut env = get_test_env();
    let program = parse_program("missing_name");
    assert_eq!(
        program[0].exec(&mut env, 0, FUEL),
        Err(RuntimeError::NameLookup(String::from("missing_name")))
    );
}

#[test]
fn empty_combination_is_runtime_error() {
    let mut env = get_test_env();
    let program = parse_program("()");
    assert_eq!(
        program[0].exec(&mut env, 0, FUEL),
        Err(RuntimeError::Msg(String::from("Executing empty codelist")))
    );
}

#[test]
fn cat_rejects_non_string() {
    let mut env = get_test_env();
    let program = parse_program("(cat \"a\" #t)");
    assert_eq!(
        program[0].exec(&mut env, 0, FUEL),
        Err(RuntimeError::Msg(String::from("Expected string arguments")))
    );
}

#[test]
fn special_form_usage_hint() {
    // looking `define` up as a value yields a name-lookup error whose
    // display text is the usage hint
    let mut env = get_test_env();
    let program = parse_program("define");
    let err = program[0].exec(&mut env, 0, FUEL).unwrap_err();
    assert_eq!(err, RuntimeError::NameLookup(String::from("define")));
    assert_eq!(
        err.to_display_string(),
        String::from(
            "Built-in: define: (define name value) | (define (function_name arg) (body arg)"
        )
    );
}

#[test]
fn undefined_binding_message() {
    let err = RuntimeError::NameLookup(String::from("nope"));
    assert_eq!(err.to_display_string(), String::from("Undefined binding: nope"));
}
