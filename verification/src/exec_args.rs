//! Application: `RuntimeObject::exec` applies an already-evaluated value
//! to unevaluated argument expressions, and `SchemeObject::exec_args`
//! first evaluates the callee. Arguments are evaluated eagerly, left to
//! right, in the caller's scope; a closure gets a fresh scope whose
//! parent is its captured scope.

use vstd::prelude::*;
use vstd::string::StringExecFns;

use crate::env::{lemma_wf_push, lemma_wf_set, scopes_wf, state_ok, Environment, EnvModel};
use crate::runtime::{
    rres_view, rt_view, rts_view, strs_view, val_wf, RtErrView, RuntimeError, RuntimeObject,
    ScmVal,
};
use crate::scm_static::{
    scm_seq_size, scm_seq_size_index, scm_size, so_seq_view, so_seq_view_props, SchemeObject,
};
use crate::semantics::{
    apply_spec, arity_msg, bind_params, dec_str, eval_args_spec, eval_fncall_spec,
};
use crate::stdlib::apply_native;

verus! {

impl SchemeObject {
    /// Evaluates this object to a callable and applies it to `args`.
    pub fn exec_args(
        &self,
        args: &Vec<SchemeObject>,
        env: &mut Environment,
        sid: usize,
        fuel: u64,
    ) -> (r: Result<RuntimeObject, RuntimeError>)
        requires
            scopes_wf(old(env)@.scopes),
            sid < old(env)@.scopes.len(),
        ensures
            ({
                let s = eval_fncall_spec(
                    self@,
                    so_seq_view(args@),
                    old(env)@,
                    sid as int,
                    fuel as nat,
                );
                rres_view(r) == s.0 && final(env)@ == s.1
            }),
            state_ok(old(env)@, final(env)@),
            r is Ok ==> val_wf(rt_view(r->Ok_0), final(env)@.scopes.len() as int),
        decreases fuel, scm_size(self@) + scm_seq_size(so_seq_view(args@)), 7nat,
    {
        crate::exec::function_call(self, args, env, sid, fuel)
    }
}

impl RuntimeObject {
    /// Applies this runtime object to the unevaluated argument
    /// expressions: a built-in procedure or a closure takes its arguments
    /// evaluated left to right in the caller's scope; anything else is a
    /// type error.
    pub fn exec(
        &self,
        args: &Vec<SchemeObject>,
        env: &mut Environment,
        sid: usize,
        fuel: u64,
    ) -> (r: Result<RuntimeObject, RuntimeError>)
        requires
            scopes_wf(old(env)@.scopes),
            sid < old(env)@.scopes.len(),
            val_wf(rt_view(*self), old(env)@.scopes.len() as int),
        ensures
            ({
                let s = apply_spec(
                    rt_view(*self),
                    so_seq_view(args@),
                    old(env)@,
                    sid as int,
                    fuel as nat,
                );
                rres_view(r) == s.0 && final(env)@ == s.1
            }),
            state_ok(old(env)@, final(env)@),
            r is Ok ==> val_wf(rt_view(r->Ok_0), final(env)@.scopes.len() as int),
        decreases fuel, scm_seq_size(so_seq_view(args@)), 3nat,
    {
        match self {
            RuntimeObject::RFunc(f) => {
                match eval_args(args, env, sid, fuel) {
                    Ok(evaled_args) => apply_native(*f, &evaled_args, env),
                    Err(e) => Err(e),
                }
            },
            RuntimeObject::SFunc(code_lst, arg_names, captured) => {
                exec_sfunc(code_lst, arg_names, args, *captured, env, sid, fuel)
            },
            _ => Err(RuntimeError::Msg("Expected a function".to_owned())),
        }
    }
}

/// Evaluates function arguments left to right in the caller's scope; the
/// first error aborts the rest.
#[verifier::loop_isolation(false)]
fn eval_args(args: &Vec<SchemeObject>, env: &mut Environment, sid: usize, fuel: u64) -> (r: Result<
    Vec<RuntimeObject>,
    RuntimeError,
>)
    requires
        scopes_wf(old(env)@.scopes),
        sid < old(env)@.scopes.len(),
    ensures
        ({
            let s = eval_args_spec(so_seq_view(args@), old(env)@, sid as int, fuel as nat);
            &&& (match s.0 {
                Ok(vals) => r is Ok && rts_view(r->Ok_0@) == vals,
                Err(e) => r is Err && r->Err_0@ == e,
            })
            &&& final(env)@ == s.1
        }),
        state_ok(old(env)@, final(env)@),
        r is Ok ==> r->Ok_0@.len() == args@.len(),
        r is Ok ==> forall|i: int|
            0 <= i < r->Ok_0@.len() ==> val_wf(
                rt_view(r->Ok_0@[i]),
                final(env)@.scopes.len() as int,
            ),
    decreases fuel, scm_seq_size(so_seq_view(args@)), 1nat,
{
    broadcast use so_seq_view_props;
    broadcast use crate::runtime::rts_view_push;

    let ghost model = so_seq_view(args@);
    proof {
        assert(model.skip(0) =~= model);
        match eval_args_spec(model, old(env)@, sid as int, fuel as nat).0 {
            Ok(vs) => {
                assert(Seq::<ScmVal>::empty() + vs =~= vs);
            },
            Err(_) => {},
        }
    }
    let mut ret: Vec<RuntimeObject> = Vec::new();
    proof {
        assert(rts_view(ret@) =~= Seq::<ScmVal>::empty());
    }
    let mut i: usize = 0;
    while i < args.len()
        invariant
            i <= args@.len(),
            ret@.len() == i,
            model == so_seq_view(args@),
            model.len() == args@.len(),
            scopes_wf(env@.scopes),
            old(env)@.scopes.len() <= env@.scopes.len(),
            sid < env@.scopes.len(),
            prepend_vals(
                rts_view(ret@),
                eval_args_spec(model.skip(i as int), env@, sid as int, fuel as nat),
            ) == eval_args_spec(model, old(env)@, sid as int, fuel as nat),
            forall|k: int|
                0 <= k < ret@.len() ==> val_wf(rt_view(ret@[k]), env@.scopes.len() as int),
        decreases args@.len() - i,
    {
        proof {
            assert(model.skip(i as int)[0] == model[i as int]);
            assert(model.skip(i as int).drop_first() =~= model.skip(i + 1));
            assert(model.skip(i as int).len() == model.len() - i);
            scm_seq_size_index(model, i as int);
        }
        let ghost pre = rts_view(ret@);
        match args[i].exec(env, sid, fuel) {
            Ok(v) => {
                ret.push(v);
                proof {
                    let s2 = eval_args_spec(model.skip(i + 1), env@, sid as int, fuel as nat);
                    match s2.0 {
                        Ok(vs) => {
                            assert(pre + (seq![rt_view(v)] + vs) =~= pre.push(rt_view(v)) + vs);
                        },
                        Err(_) => {},
                    }
                }
            },
            Err(e) => {
                return Err(e);
            },
        }
        i = i + 1;
    }
    proof {
        assert(model.skip(args@.len() as int).len() == 0);
        assert(rts_view(ret@) + Seq::<ScmVal>::empty() =~= rts_view(ret@));
    }
    Ok(ret)
}

/// Combines already-evaluated argument values with the rest of an
/// argument evaluation.
pub open spec fn prepend_vals(
    pre: Seq<ScmVal>,
    r: (Result<Seq<ScmVal>, RtErrView>, EnvModel),
) -> (Result<Seq<ScmVal>, RtErrView>, EnvModel) {
    match r.0 {
        Ok(vs) => (Ok(pre + vs), r.1),
        Err(_) => r,
    }
}

/// The decimal rendering of a number: exactly [`dec_str`].
fn u64_to_string(n: u64) -> (r: String)
    ensures
        r@ == dec_str(n as nat),
    decreases n,
{
    if n < 10 {
        let mut s = String::new();
        crate::tokenise::push_char(&mut s, dec_digit_char(n));
        proof {
            assert(s@ =~= dec_str(n as nat));
        }
        s
    } else {
        let mut s = u64_to_string(n / 10);
        crate::tokenise::push_char(&mut s, dec_digit_char(n % 10));
        s
    }
}

/// One decimal digit as a character.
fn dec_digit_char(d: u64) -> (c: char)
    requires
        d < 10,
    ensures
        c == crate::semantics::dec_digit(d as nat),
{
    if d == 0 {
        '0'
    } else if d == 1 {
        '1'
    } else if d == 2 {
        '2'
    } else if d == 3 {
        '3'
    } else if d == 4 {
        '4'
    } else if d == 5 {
        '5'
    } else if d == 6 {
        '6'
    } else if d == 7 {
        '7'
    } else if d == 8 {
        '8'
    } else {
        '9'
    }
}

/// Helper function for `RuntimeObject::exec`: calls a scheme closure.
/// The arity must match exactly; the arguments are evaluated in the
/// caller's scope; the parameters are bound in a fresh scope whose parent
/// is the closure's captured scope, and the body runs there with one
/// unit of fuel spent.
#[verifier::loop_isolation(false)]
fn exec_sfunc(
    code_list: &SchemeObject,
    arg_names: &Vec<String>,
    func_args: &Vec<SchemeObject>,
    captured: usize,
    env: &mut Environment,
    sid: usize,
    fuel: u64,
) -> (r: Result<RuntimeObject, RuntimeError>)
    requires
        scopes_wf(old(env)@.scopes),
        sid < old(env)@.scopes.len(),
        captured < old(env)@.scopes.len(),
    ensures
        ({
            let s = apply_spec(
                ScmVal::Closure(code_list@, strs_view(arg_names@), captured as int),
                so_seq_view(func_args@),
                old(env)@,
                sid as int,
                fuel as nat,
            );
            rres_view(r) == s.0 && final(env)@ == s.1
        }),
        state_ok(old(env)@, final(env)@),
        r is Ok ==> val_wf(rt_view(r->Ok_0), final(env)@.scopes.len() as int),
    decreases fuel, scm_seq_size(so_seq_view(func_args@)), 2nat,
{
    broadcast use so_seq_view_props;

    let ghost params = strs_view(arg_names@);
    if func_args.len() != arg_names.len() {
        let mut msg = "Expected ".to_owned();
        let expected = u64_to_string(arg_names.len() as u64);
        msg.append(expected.as_str());
        msg.append(" arguments, got ");
        let got = u64_to_string(func_args.len() as u64);
        msg.append(got.as_str());
        proof {
            assert(msg@ =~= arity_msg(params.len() as nat, so_seq_view(func_args@).len() as nat));
        }
        return Err(RuntimeError::Msg(msg));
    }

    let evaled_args = match eval_args(func_args, env, sid, fuel) {
        Ok(v) => v,
        Err(e) => {
            return Err(e);
        },
    };

    // bind the parameters in a fresh scope under the captured scope
    let local_env = env.new_scope(captured);
    proof {
        lemma_wf_push(env@.scopes, captured as int);
    }
    let ghost vals = rts_view(evaled_args@);
    let ghost pushed = env@;
    proof {
        assert(params.skip(0) =~= params);
        assert(vals.skip(0) =~= vals);
        assert(params.len() == arg_names@.len());
        assert(vals.len() == evaled_args@.len());
    }
    let mut k: usize = 0;
    while k < arg_names.len()
        invariant
            k <= arg_names@.len(),
            arg_names@.len() == evaled_args@.len(),
            scopes_wf(env@.scopes),
            pushed.scopes.len() <= env@.scopes.len(),
            local_env < env@.scopes.len(),
            env@.output == pushed.output,
            forall|i: int|
                0 <= i < evaled_args@.len() ==> val_wf(
                    rt_view(evaled_args@[i]),
                    env@.scopes.len() as int,
                ),
            bind_params(env@.scopes, local_env as int, params.skip(k as int), vals.skip(k as int))
                == bind_params(pushed.scopes, local_env as int, params, vals),
        decreases arg_names@.len() - k,
    {
        proof {
            assert(params.skip(k as int).len() == params.len() - k);
            assert(params.skip(k as int)[0] == params[k as int]);
            assert(params.skip(k as int).drop_first() =~= params.skip(k + 1));
            assert(vals.skip(k as int)[0] == vals[k as int]);
            assert(vals.skip(k as int).drop_first() =~= vals.skip(k + 1));
            assert(params[k as int] == arg_names@[k as int]@);
            assert(vals[k as int] == rt_view(evaled_args@[k as int]));
            lemma_wf_set(
                env@.scopes,
                local_env as int,
                params[k as int],
                rt_view(evaled_args@[k as int]),
            );
        }
        let name = arg_names[k].clone();
        let arg = evaled_args[k].duplicate();
        env.set(local_env, name, arg);
        k = k + 1;
    }
    proof {
        assert(params.skip(arg_names@.len() as int).len() == 0);
    }
    env.shrink(local_env);

    if fuel == 0 {
        Err(RuntimeError::Msg("recursion depth exceeded".to_owned()))
    } else {
        code_list.exec(env, local_env, fuel - 1)
    }
}

} // verus!
