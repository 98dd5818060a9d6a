//! Runtime object tests: conversions, display and the standard library.

use rustyscheme::env::Environment;
use rustyscheme::runtime::{NativeProc, RuntimeError, RuntimeObject};
use rustyscheme::scm_static::SchemeObject;
use rustyscheme::stdlib::get_std_env;

use rustyscheme::ast::{parse_tokens, ObjectIterator};
use rustyscheme::tokenise::TokenInterator;

const FUEL: u64 = 1000;

fn run_one(env: &mut Environment, program: &str) -> Result<RuntimeObject, RuntimeError> {
    let chars: Vec<char> = program.chars().collect();
    let objs = parse_tokens(ObjectIterator::new(TokenInterator::new(&chars))).unwrap();
    objs[0].exec(env, 0, FUEL)
}

#[test]
fn from_trait() {
    let rt_str = RuntimeObject::from(String::from("str"));
    let expected = RuntimeObject::from(SchemeObject::from(String::from("str")));
    assert_eq!(rt_str, expected);

    let string = String::from("string");
    let rt_string = RuntimeObject::from(string.clone());
    let expected = RuntimeObject::from(SchemeObject::from(string));
    assert_eq!(rt_string, expected);

    let rt_bool = RuntimeObject::from(true);
    let expected = RuntimeObject::from(SchemeObject::from(true));
    assert_eq!(rt_bool, expected);
}

#[test]
fn std_env_has_the_three_natives() {
    let env = get_std_env();
    assert_eq!(
        env.lookup(0, &String::from("display")),
        Some(RuntimeObject::RFunc(NativeProc::Display))
    );
    assert_eq!(
        env.lookup(0, &String::from("exit")),
        Some(RuntimeObject::RFunc(NativeProc::Exit))
    );
    assert_eq!(
        env.lookup(0, &String::from("newline")),
        Some(RuntimeObject::RFunc(NativeProc::Newline))
    );
}

#[test]
fn display_appends_to_output_log() {
    let mut env = get_std_env();
    let r = run_one(&mut env, "(display \"hi\" \"there\")");
    assert_eq!(r, Ok(RuntimeObject::Unspecified));
    let out = env.take_output();
    assert_eq!(out, vec![String::from("hi there")]);
    // the log is drained
    assert_eq!(env.take_output(), Vec::<String>::new());
}

#[test]
fn newline_returns_newline_string() {
    let mut env = get_std_env();
    let r = run_one(&mut env, "(newline)");
    assert_eq!(
        r,
        Ok(RuntimeObject::SchemeObject(SchemeObject::String(String::from("\n"))))
    );
}

#[test]
fn exit_reports_exit_signal() {
    let mut env = get_std_env();
    let r = run_one(&mut env, "(exit)");
    assert_eq!(r, Err(RuntimeError::Exit));
}

#[test]
fn display_strings() {
    let b = RuntimeObject::SchemeObject(SchemeObject::Bool(true));
    assert_eq!(b.to_display_string(), String::from("#t"));
    let f = RuntimeObject::RFunc(NativeProc::Cat);
    assert_eq!(f.to_display_string(), String::from("Built-in function"));
    assert_eq!(RuntimeObject::Unspecified.to_display_string(), String::from("None"));
    let lst = RuntimeObject::SchemeObject(SchemeObject::CodeList(vec![
        SchemeObject::Symbol(String::from("one")),
        SchemeObject::String(String::from("two")),
    ]));
    assert_eq!(lst.to_display_string(), String::from("(one \"two\")"));
    let vector = RuntimeObject::SchemeObject(SchemeObject::Vector(vec![SchemeObject::Bool(
        false,
    )]));
    assert_eq!(vector.to_display_string(), String::from("[#f]"));
}

#[test]
fn deep_recursion_runs_out_of_fuel() {
    let mut env = get_std_env();
    let r = run_one(&mut env, "(define (loop_forever) (loop_forever))");
    assert_eq!(r, Ok(RuntimeObject::Unspecified));
    let chars: Vec<char> = "(loop_forever)".chars().collect();
    let objs = parse_tokens(ObjectIterator::new(TokenInterator::new(&chars))).unwrap();
    let r2 = objs[0].exec(&mut env, 0, 50);
    assert_eq!(
        r2,
        Err(RuntimeError::Msg(String::from("recursion depth exceeded")))
    );
}
