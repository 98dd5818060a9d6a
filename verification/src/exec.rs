//! Implements `SchemeObject::exec`: the evaluator's dispatch and the four
//! special forms. Every function is proved to return exactly what the
//! specification-level interpreter in [`crate::semantics`] says, and to
//! leave the runtime state exactly as that interpreter says.

use vstd::prelude::*;
use vstd::string::StringExecFns;

use crate::env::{
    lemma_lookup_wf, lemma_wf_push, lemma_wf_set, lemma_wf_set_global, scopes_wf, state_ok,
    Environment,
};
use crate::runtime::{rres_view, rt_view, val_wf, RtErrView, RuntimeError, RuntimeObject, ScmVal};
use crate::scm_static::{
    scm_seq_size, scm_seq_size_index, scm_size, scm_size_pos, so_seq_view, so_seq_view_props,
    so_seq_views_equal, so_view, ScmExpr, SchemeObject,
};
use crate::semantics::{
    eval_binding_spec, eval_body_spec, eval_codelist_spec, eval_define_spec, eval_fncall_spec,
    eval_if_spec, eval_let_bindings_spec, eval_let_spec, eval_spec, lambda_spec, read_params_spec,
};
use crate::str_eq;

verus! {

/// A binding result, seen at the model level.
pub open spec fn bres_view(r: Result<(String, RuntimeObject), RuntimeError>) -> Result<
    (Seq<char>, ScmVal),
    RtErrView,
> {
    match r {
        Ok((name, v)) => Ok((name@, rt_view(v))),
        Err(e) => Err(e@),
    }
}

impl SchemeObject {
    /// If it is a combination, execute it and return the result; if it is
    /// a symbol, look it up and return what it names; otherwise return it
    /// as-is — quoted forms and vectors are inert.
    pub fn exec(&self, env: &mut Environment, sid: usize, fuel: u64) -> (r: Result<
        RuntimeObject,
        RuntimeError,
    >)
        requires
            scopes_wf(old(env)@.scopes),
            sid < old(env)@.scopes.len(),
        ensures
            ({
                let s = eval_spec(self@, old(env)@, sid as int, fuel as nat);
                rres_view(r) == s.0 && final(env)@ == s.1
            }),
            state_ok(old(env)@, final(env)@),
            r is Ok ==> val_wf(rt_view(r->Ok_0), final(env)@.scopes.len() as int),
        decreases fuel, scm_size(self@), 0nat,
    {
        match self {
            SchemeObject::CodeList(items) => exec_codelist(items, env, sid, fuel),
            SchemeObject::Symbol(s) => {
                match env.lookup(sid, s) {
                    Option::Some(v) => {
                        proof {
                            lemma_lookup_wf(env@.scopes, sid as int, s@);
                        }
                        Ok(v)
                    },
                    Option::None => Err(RuntimeError::NameLookup(s.clone())),
                }
            },
            other => Ok(RuntimeObject::SchemeObject(other.duplicate())),
        }
    }
}

/// Copies the elements of a combination after its head.
fn tail_vec(items: &Vec<SchemeObject>) -> (r: Vec<SchemeObject>)
    requires
        items@.len() >= 1,
    ensures
        so_seq_view(r@) == so_seq_view(items@).drop_first(),
{
    let mut r: Vec<SchemeObject> = Vec::new();
    let mut j: usize = 1;
    while j < items.len()
        invariant
            1 <= j <= items@.len(),
            r@.len() == j - 1,
            forall|k: int| 0 <= k < j - 1 ==> r@[k]@ == items@[k + 1]@,
        decreases items@.len() - j,
    {
        let e = items[j].duplicate();
        r.push(e);
        j = j + 1;
    }
    proof {
        broadcast use so_seq_view_props;

        so_seq_views_equal(r@, items@.skip(1));
        assert(so_seq_view(items@.skip(1)) =~= so_seq_view(items@).drop_first());
    }
    r
}

/// Helper function for `SchemeObject::exec`: runs a combination.
fn exec_codelist(lst: &Vec<SchemeObject>, env: &mut Environment, sid: usize, fuel: u64) -> (r:
    Result<RuntimeObject, RuntimeError>)
    requires
        scopes_wf(old(env)@.scopes),
        sid < old(env)@.scopes.len(),
    ensures
        ({
            let s = eval_codelist_spec(so_seq_view(lst@), old(env)@, sid as int, fuel as nat);
            rres_view(r) == s.0 && final(env)@ == s.1
        }),
        state_ok(old(env)@, final(env)@),
        r is Ok ==> val_wf(rt_view(r->Ok_0), final(env)@.scopes.len() as int),
    decreases fuel, scm_seq_size(so_seq_view(lst@)), 6nat,
{
    broadcast use so_seq_view_props;

    if lst.len() == 0 {
        return Err(RuntimeError::Msg("Executing empty codelist".to_owned()));
    }
    let ghost model = so_seq_view(lst@);
    let head = &lst[0];
    let tail = tail_vec(lst);
    proof {
        assert(model[0] == head@);
        assert(so_seq_view(tail@) == model.drop_first());
        assert(scm_seq_size(model) == scm_size(model[0]) + scm_seq_size(model.drop_first()));
        scm_size_pos(model[0]);
    }

    match head {
        SchemeObject::Symbol(cmd) => {
            if str_eq(cmd.as_str(), "define") {
                define(&tail, env, sid, fuel)
            } else if str_eq(cmd.as_str(), "let") {
                scm_let(&tail, env, sid, fuel)
            } else if str_eq(cmd.as_str(), "lambda") {
                lambda(&tail, sid)
            } else if str_eq(cmd.as_str(), "if") {
                scm_if(&tail, env, sid, fuel)
            } else {
                function_call(head, &tail, env, sid, fuel)
            }
        },
        SchemeObject::CodeList(_) => function_call(head, &tail, env, sid, fuel),
        _ => {
            let mut msg = head.to_debug_string();
            msg.append(" found; function name expected");
            Err(RuntimeError::Msg(msg))
        },
    }
}

/// Reads parameter names (the elements of `lst` from `start` on, each a
/// symbol) and constructs the closure over `body` that captures scope
/// `sid`.
fn read_scm_fn(lst: &Vec<SchemeObject>, start: usize, body: &SchemeObject, sid: usize) -> (r:
    Result<RuntimeObject, RuntimeError>)
    requires
        start <= lst@.len(),
    ensures
        ({
            let s = read_params_spec(so_seq_view(lst@).skip(start as int));
            match s {
                Ok(ps) => r is Ok && rt_view(r->Ok_0) == ScmVal::Closure(body@, ps, sid as int),
                Err(e) => r is Err && r->Err_0@ == e,
            }
        }),
{
    broadcast use so_seq_view_props;
    broadcast use crate::runtime::strs_view_push;

    let ghost model = so_seq_view(lst@);
    proof {
        assert(crate::runtime::strs_view(Seq::<String>::empty()).len() == 0);
        assert(read_params_spec(model.skip(start as int)) == prepend_params(
            Seq::<Seq<char>>::empty(),
            read_params_spec(model.skip(start as int)),
        )) by {
            match read_params_spec(model.skip(start as int)) {
                Ok(ps) => {
                    assert(Seq::<Seq<char>>::empty() + ps =~= ps);
                },
                Err(_) => {},
            }
        }
    }
    let mut arg_names: Vec<String> = Vec::new();
    proof {
        assert(crate::runtime::strs_view(arg_names@) =~= Seq::<Seq<char>>::empty());
    }
    let mut j: usize = start;
    while j < lst.len()
        invariant
            start <= j <= lst@.len(),
            model == so_seq_view(lst@),
            model.len() == lst@.len(),
            forall|k2: int| 0 <= k2 < lst@.len() ==> model[k2] == so_view(lst@[k2]),
            read_params_spec(model.skip(start as int)) == prepend_params(
                crate::runtime::strs_view(arg_names@),
                read_params_spec(model.skip(j as int)),
            ),
        decreases lst@.len() - j,
    {
        let ghost pre = crate::runtime::strs_view(arg_names@);
        proof {
            assert(model.skip(j as int)[0] == model[j as int]);
            assert(model.skip(j as int).drop_first() =~= model.skip(j + 1));
        }
        match &lst[j] {
            SchemeObject::Symbol(arg_name) => {
                let ghost prev_names = arg_names@;
                let ghost nm = arg_name@;
                arg_names.push(arg_name.clone());
                proof {
                    assert(arg_names@ =~= prev_names.push(lst@[j as int]->Symbol_0));
                    assert(crate::runtime::strs_view(arg_names@) =~= pre.push(nm));
                    assert(model[j as int] == so_view(lst@[j as int]));
                    assert(model[j as int]->Symbol_0 == nm);
                    let s2 = read_params_spec(model.skip(j + 1));
                    match s2 {
                        Ok(ps) => {
                            assert(pre + (seq![nm] + ps) =~= pre.push(nm) + ps);
                        },
                        Err(_) => {},
                    }
                }
            },
            _ => {
                return Err(RuntimeError::Msg("You can't call a variable that".to_owned()));
            },
        }
        j = j + 1;
    }
    proof {
        assert(model.skip(lst@.len() as int).len() == 0);
        let s = read_params_spec(model.skip(start as int));
        match s {
            Ok(ps) => {
                assert(crate::runtime::strs_view(arg_names@) + Seq::<Seq<char>>::empty()
                    =~= crate::runtime::strs_view(arg_names@));
            },
            Err(_) => {},
        }
    }
    Ok(RuntimeObject::SFunc(body.duplicate(), arg_names, sid))
}

/// Combines already-read parameter names with the rest of a parameter
/// list.
pub open spec fn prepend_params(
    pre: Seq<Seq<char>>,
    r: Result<Seq<Seq<char>>, RtErrView>,
) -> Result<Seq<Seq<char>>, RtErrView> {
    match r {
        Ok(ps) => Ok(pre + ps),
        Err(e) => Err(e),
    }
}

/// Helper function for `exec_codelist`: handles `lambda` forms.
fn lambda(tail: &Vec<SchemeObject>, sid: usize) -> (r: Result<RuntimeObject, RuntimeError>)
    ensures
        ({
            let s = lambda_spec(so_seq_view(tail@), sid as int);
            match s {
                Ok(v) => r is Ok && rt_view(r->Ok_0) == v,
                Err(e) => r is Err && r->Err_0@ == e,
            }
        }),
{
    broadcast use so_seq_view_props;

    if tail.len() != 2 {
        return Err(RuntimeError::Msg("Expected 2 arguments to lambda".to_owned()));
    }
    match &tail[0] {
        SchemeObject::CodeList(ps) => {
            proof {
                assert(so_seq_view(ps@).skip(0) =~= so_seq_view(ps@));
            }
            read_scm_fn(ps, 0, &tail[1], sid)
        },
        _ => Err(
            RuntimeError::Msg("Expected the first argument to lambda to be a list".to_owned()),
        ),
    }
}

/// Prepares to apply a binding `(symbol value)` or `((name params) body)`
/// for `define` and `let`; returns the name and the value.
fn apply_biding(tail: &Vec<SchemeObject>, env: &mut Environment, sid: usize, fuel: u64) -> (r:
    Result<(String, RuntimeObject), RuntimeError>)
    requires
        scopes_wf(old(env)@.scopes),
        sid < old(env)@.scopes.len(),
    ensures
        ({
            let s = eval_binding_spec(so_seq_view(tail@), old(env)@, sid as int, fuel as nat);
            bres_view(r) == s.0 && final(env)@ == s.1
        }),
        state_ok(old(env)@, final(env)@),
        r is Ok ==> val_wf(rt_view(r->Ok_0.1), final(env)@.scopes.len() as int),
    decreases fuel, scm_seq_size(so_seq_view(tail@)), 2nat,
{
    broadcast use so_seq_view_props;

    let ghost model = so_seq_view(tail@);
    if tail.len() != 2 {
        return Err(RuntimeError::Msg("Expected 2 arguments".to_owned()));
    }
    proof {
        scm_seq_size_index(model, 1);
    }
    match &tail[0] {
        SchemeObject::Symbol(name) => {
            match tail[1].exec(env, sid, fuel) {
                Ok(v) => Ok((name.clone(), v)),
                Err(e) => Err(e),
            }
        },
        SchemeObject::CodeList(lst) => {
            if lst.len() == 0 {
                return Err(RuntimeError::Msg("Empty assignment list".to_owned()));
            }
            match &lst[0] {
                SchemeObject::Symbol(fn_name) => {
                    proof {
                        assert(so_seq_view(lst@).skip(1) =~= so_seq_view(lst@).drop_first());
                    }
                    match read_scm_fn(lst, 1, &tail[1], sid) {
                        Ok(rt_obj) => Ok((fn_name.clone(), rt_obj)),
                        Err(e) => Err(e),
                    }
                },
                _ => Err(RuntimeError::Msg("You can't name a function that".to_owned())),
            }
        },
        _ => Err(RuntimeError::Msg("You can't name a variable that".to_owned())),
    }
}

/// Helper function for `exec_codelist`: executes a `define`.
fn define(tail: &Vec<SchemeObject>, env: &mut Environment, sid: usize, fuel: u64) -> (r: Result<
    RuntimeObject,
    RuntimeError,
>)
    requires
        scopes_wf(old(env)@.scopes),
        sid < old(env)@.scopes.len(),
    ensures
        ({
            let s = eval_define_spec(so_seq_view(tail@), old(env)@, sid as int, fuel as nat);
            rres_view(r) == s.0 && final(env)@ == s.1
        }),
        state_ok(old(env)@, final(env)@),
        r is Ok ==> val_wf(rt_view(r->Ok_0), final(env)@.scopes.len() as int),
    decreases fuel, scm_seq_size(so_seq_view(tail@)), 3nat,
{
    match apply_biding(tail, env, sid, fuel) {
        Ok((name, val)) => {
            proof {
                lemma_wf_set_global(env@.scopes, sid as int, name@, rt_view(val));
            }
            env.set_global(sid, name, val);
            Ok(RuntimeObject::Unspecified)
        },
        Err(e) => Err(e),
    }
}

/// Helper function for `exec_codelist`: executes a `let`.
#[verifier::loop_isolation(false)]
fn scm_let(tail: &Vec<SchemeObject>, env: &mut Environment, sid: usize, fuel: u64) -> (r: Result<
    RuntimeObject,
    RuntimeError,
>)
    requires
        scopes_wf(old(env)@.scopes),
        sid < old(env)@.scopes.len(),
    ensures
        ({
            let s = eval_let_spec(so_seq_view(tail@), old(env)@, sid as int, fuel as nat);
            rres_view(r) == s.0 && final(env)@ == s.1
        }),
        state_ok(old(env)@, final(env)@),
        r is Ok ==> val_wf(rt_view(r->Ok_0), final(env)@.scopes.len() as int),
    decreases fuel, scm_seq_size(so_seq_view(tail@)), 3nat,
{
    broadcast use so_seq_view_props;

    let ghost model = so_seq_view(tail@);
    if tail.len() < 2 {
        return Err(RuntimeError::Msg("let should have at least 2 arguments".to_owned()));
    }
    match &tail[0] {
        SchemeObject::CodeList(bindings) => {
            let ghost bmodel = so_seq_view(bindings@);
            let lid = env.new_scope(sid);
            proof {
                lemma_wf_push(old(env)@.scopes, sid as int);
                scm_seq_size_index(model, 0);
            }
            let ghost st1 = env@;
            proof {
                assert(bmodel.skip(0) =~= bmodel);
            }

            // install the bindings into the fresh scope
            let mut j: usize = 0;
            while j < bindings.len()
                invariant
                    j <= bindings@.len(),
                    bmodel == so_seq_view(bindings@),
                    bmodel.len() == bindings@.len(),
                    forall|k2: int| 0 <= k2 < bindings@.len() ==> bmodel[k2] == so_view(
                        bindings@[k2],
                    ),
                    scopes_wf(env@.scopes),
                    st1.scopes.len() <= env@.scopes.len(),
                    lid < env@.scopes.len(),
                    sid < env@.scopes.len(),
                    eval_let_bindings_spec(bmodel, st1, sid as int, lid as int, fuel as nat)
                        == eval_let_bindings_spec(
                        bmodel.skip(j as int),
                        env@,
                        sid as int,
                        lid as int,
                        fuel as nat,
                    ),
                decreases bindings@.len() - j,
            {
                proof {
                    assert(bmodel.skip(j as int)[0] == bmodel[j as int]);
                    assert(bmodel.skip(j as int).drop_first() =~= bmodel.skip(j + 1));
                    scm_seq_size_index(bmodel, j as int);
                    scm_seq_size_index(model, 0);
                }
                match &bindings[j] {
                    SchemeObject::CodeList(pair) => {
                        match apply_biding(pair, env, sid, fuel) {
                            Ok((name, val)) => {
                                proof {
                                    lemma_wf_set(env@.scopes, lid as int, name@, rt_view(val));
                                }
                                env.set(lid, name, val);
                            },
                            Err(e) => {
                                return Err(e);
                            },
                        }
                    },
                    _ => {
                        return Err(
                            RuntimeError::Msg("Let bindings should be 2 element lists".to_owned()),
                        );
                    },
                }
                j = j + 1;
            }
            proof {
                assert(bmodel.skip(bindings@.len() as int).len() == 0);
            }
            env.shrink(lid);

            // execute the body forms; the last one's value is the result
            let ghost st2 = env@;
            proof {
                assert(model.skip(1) =~= model.skip(1));
            }
            let mut k: usize = 1;
            loop
                invariant
                    1 <= k < tail@.len(),
                    model == so_seq_view(tail@),
                    model.len() == tail@.len(),
                    forall|k2: int| 0 <= k2 < tail@.len() ==> model[k2] == so_view(tail@[k2]),
                    scopes_wf(env@.scopes),
                    st2.scopes.len() <= env@.scopes.len(),
                    lid < env@.scopes.len(),
                    eval_body_spec(model.skip(1), st2, lid as int, fuel as nat) == eval_body_spec(
                        model.skip(k as int),
                        env@,
                        lid as int,
                        fuel as nat,
                    ),
                decreases tail@.len() - k,
            {
                proof {
                    assert(model.skip(k as int)[0] == model[k as int]);
                    assert(model.skip(k as int).drop_first() =~= model.skip(k + 1));
                    assert(model.skip(k as int).len() == model.len() - k);
                    scm_seq_size_index(model, k as int);
                }
                if k == tail.len() - 1 {
                    return tail[k].exec(env, lid, fuel);
                }
                match tail[k].exec(env, lid, fuel) {
                    Ok(_) => {},
                    Err(e) => {
                        return Err(e);
                    },
                }
                k = k + 1;
            }
        },
        _ => Err(RuntimeError::Msg("You incorrect let form".to_owned())),
    }
}

/// Helper function for `exec_codelist`: an ordinary application. The head
/// is evaluated to obtain the callable, which is then applied to the
/// unevaluated tail.
pub(crate) fn function_call(
    scm_obj: &SchemeObject,
    tail: &Vec<SchemeObject>,
    env: &mut Environment,
    sid: usize,
    fuel: u64,
) -> (r: Result<RuntimeObject, RuntimeError>)
    requires
        scopes_wf(old(env)@.scopes),
        sid < old(env)@.scopes.len(),
    ensures
        ({
            let s = eval_fncall_spec(
                scm_obj@,
                so_seq_view(tail@),
                old(env)@,
                sid as int,
                fuel as nat,
            );
            rres_view(r) == s.0 && final(env)@ == s.1
        }),
        state_ok(old(env)@, final(env)@),
        r is Ok ==> val_wf(rt_view(r->Ok_0), final(env)@.scopes.len() as int),
    decreases fuel, scm_size(scm_obj@) + scm_seq_size(so_seq_view(tail@)), 5nat,
{
    proof {
        scm_size_pos(scm_obj@);
    }
    match scm_obj.exec(env, sid, fuel) {
        Ok(runtime_obj) => runtime_obj.exec(tail, env, sid, fuel),
        Err(e) => Err(e),
    }
}

/// Helper function for `exec_codelist`: executes an `if`.
fn scm_if(tail: &Vec<SchemeObject>, env: &mut Environment, sid: usize, fuel: u64) -> (r: Result<
    RuntimeObject,
    RuntimeError,
>)
    requires
        scopes_wf(old(env)@.scopes),
        sid < old(env)@.scopes.len(),
    ensures
        ({
            let s = eval_if_spec(so_seq_view(tail@), old(env)@, sid as int, fuel as nat);
            rres_view(r) == s.0 && final(env)@ == s.1
        }),
        state_ok(old(env)@, final(env)@),
        r is Ok ==> val_wf(rt_view(r->Ok_0), final(env)@.scopes.len() as int),
    decreases fuel, scm_seq_size(so_seq_view(tail@)), 3nat,
{
    broadcast use so_seq_view_props;

    let ghost model = so_seq_view(tail@);
    if tail.len() < 2 {
        return Err(
            RuntimeError::Msg(
                "If statement needs to at least specify a condition and something to do on true".to_owned(),
            ),
        );
    }
    proof {
        scm_seq_size_index(model, 0);
        scm_seq_size_index(model, 1);
    }
    let cond = match tail[0].exec(env, sid, fuel) {
        Ok(v) => v,
        Err(e) => {
            return Err(e);
        },
    };

    let truthy = match &cond {
        RuntimeObject::SchemeObject(SchemeObject::Bool(true)) => true,
        _ => false,
    };
    proof {
        assert(truthy == (rt_view(cond) == ScmVal::Obj(ScmExpr::Bool(true))));
    }
    if truthy {
        tail[1].exec(env, sid, fuel)
    } else if tail.len() >= 3 {
        proof {
            scm_seq_size_index(model, 2);
        }
        tail[2].exec(env, sid, fuel)
    } else {
        Ok(RuntimeObject::Unspecified)
    }
}

} // verus!
