//! Environment tests: binding, lookup with fallthrough, global
//! definition with shadow removal.

use rustyscheme::env::Environment;
use rustyscheme::runtime::RuntimeObject;

fn get_obj() -> RuntimeObject {
    RuntimeObject::from(String::from("obj"))
}

#[test]
fn one_level() {
    let name = String::from("name");
    let g_name = String::from("global");
    let exp_res = Some(get_obj());

    let mut env = Environment::new();
    assert!(env.lookup(0, &name).is_none());
    assert!(env.lookup(0, &g_name).is_none());

    env.set(0, name.clone(), get_obj());
    assert_eq!(env.lookup(0, &name), exp_res);
    assert!(env.lookup(0, &g_name).is_none());

    env.set_global(0, g_name.clone(), get_obj());
    assert_eq!(env.lookup(0, &name), exp_res);
    assert_eq!(env.lookup(0, &g_name), exp_res);
}

#[test]
fn two_level() {
    let name = String::from("name");
    let g_name = String::from("global");
    let exp_res = Some(get_obj());

    let mut arena = Environment::new();
    let env = arena.new_scope(0);

    assert!(arena.lookup(env, &name).is_none());
    assert!(arena.lookup(env, &g_name).is_none());
    assert!(arena.lookup(0, &name).is_none());
    assert!(arena.lookup(0, &g_name).is_none());

    arena.set(env, name.clone(), get_obj());
    assert_eq!(arena.lookup(env, &name), exp_res);
    assert!(arena.lookup(env, &g_name).is_none());
    assert!(arena.lookup(0, &name).is_none());
    assert!(arena.lookup(0, &g_name).is_none());

    arena.set_global(env, g_name.clone(), get_obj());

    assert_eq!(arena.lookup(env, &name), exp_res);
    assert_eq!(arena.lookup(env, &g_name), exp_res);
    assert!(arena.lookup(0, &name).is_none());
    assert_eq!(arena.lookup(0, &g_name), exp_res);
}

#[test]
fn get_parent_of_child_scope() {
    let mut arena = Environment::new();
    let child = arena.new_scope(0);
    assert_eq!(arena.get_parent(0), None);
    assert_eq!(arena.get_parent(child), Some(0));
}

#[test]
fn set_parent_rewires_scope() {
    let mut arena = Environment::new();
    let a = arena.new_scope(0);
    let name = String::from("x");
    arena.set(a, name.clone(), get_obj());
    let b = arena.new_scope(0);
    assert!(arena.lookup(b, &name).is_none());
    let c = arena.new_scope(b);
    assert!(arena.lookup(c, &name).is_none());
    arena.set_parent(c, a);
    assert_eq!(arena.lookup(c, &name), Some(get_obj()));
}

#[test]
fn shrink_keeps_bindings() {
    let mut env = Environment::new();
    let name = String::from("kept");
    env.set(0, name.clone(), get_obj());
    env.shrink(0);
    assert_eq!(env.lookup(0, &name), Some(get_obj()));
}
