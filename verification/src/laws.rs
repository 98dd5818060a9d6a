//! Laws of the interpreter: properties that hold of evaluation for every
//! program and every runtime state, proved once and for all against the
//! specification-level interpreter in [`crate::semantics`].

use vstd::prelude::*;

use crate::env::{
    lookup_chain, scopes_push, scopes_set_global, scopes_wf, EnvModel, ScopeModel,
};
use crate::runtime::{RtErrView, ScmVal};
use crate::scm_static::ScmExpr;
use crate::semantics::{
    apply_spec, arity_msg, bind_params, eval_args_spec, eval_if_spec, eval_spec,
};

verus! {

/// Quoting is inert: a quoted form evaluates to itself, unchanged — its
/// elements are not evaluated, no name in it is looked up, and the
/// runtime state is untouched.
pub proof fn lemma_quoted_inert(items: Seq<ScmExpr>, st: EnvModel, sid: int, fuel: nat)
    ensures
        eval_spec(ScmExpr::QuotedList(items), st, sid, fuel) == (
            Ok::<ScmVal, RtErrView>(ScmVal::Obj(ScmExpr::QuotedList(items))),
            st,
        ),
{
}

/// Vectors are inert: a vector literal evaluates to that same vector,
/// unchanged, its elements not evaluated.
pub proof fn lemma_vector_inert(items: Seq<ScmExpr>, st: EnvModel, sid: int, fuel: nat)
    ensures
        eval_spec(ScmExpr::Vector(items), st, sid, fuel) == (
            Ok::<ScmVal, RtErrView>(ScmVal::Obj(ScmExpr::Vector(items))),
            st,
        ),
{
}

/// The truthiness rule: when the condition of an `if` evaluates to a
/// value, the then-branch runs exactly when that value is the
/// boolean-true value; every other value — strings, lists, vectors,
/// closures, and boolean false — takes the else-branch, or yields the
/// unspecified value when there is no else-branch.
pub proof fn lemma_if_truthiness(tail: Seq<ScmExpr>, st: EnvModel, sid: int, fuel: nat)
    requires
        tail.len() >= 2,
        eval_spec(tail[0], st, sid, fuel).0 is Ok,
    ensures
        ({
            let r = eval_spec(tail[0], st, sid, fuel);
            let v = r.0->Ok_0;
            eval_if_spec(tail, st, sid, fuel) == if v == ScmVal::Obj(ScmExpr::Bool(true)) {
                eval_spec(tail[1], r.1, sid, fuel)
            } else if tail.len() >= 3 {
                eval_spec(tail[2], r.1, sid, fuel)
            } else {
                (Ok::<ScmVal, RtErrView>(ScmVal::Unspecified), r.1)
            }
        }),
{
}

/// Arity is checked exactly: applying a closure to the wrong number of
/// arguments fails with the arity error and leaves the state untouched,
/// while a call with matching arity whose arguments evaluate goes on to
/// run the body in a fresh scope — a child of the closure's captured
/// scope, not of the caller's — with each parameter bound to its
/// argument.
pub proof fn lemma_apply_arity(
    body: ScmExpr,
    params: Seq<Seq<char>>,
    captured: int,
    args: Seq<ScmExpr>,
    st: EnvModel,
    sid: int,
    fuel: nat,
)
    ensures
        args.len() != params.len() ==> apply_spec(
            ScmVal::Closure(body, params, captured),
            args,
            st,
            sid,
            fuel,
        ) == (
            Err::<ScmVal, RtErrView>(RtErrView::Msg(arity_msg(params.len(), args.len()))),
            st,
        ),
        ({
            let r = eval_args_spec(args, st, sid, fuel);
            args.len() == params.len() && r.0 is Ok && fuel > 0 ==> apply_spec(
                ScmVal::Closure(body, params, captured),
                args,
                st,
                sid,
                fuel,
            ) == eval_spec(
                body,
                EnvModel {
                    scopes: bind_params(
                        scopes_push(r.1.scopes, captured),
                        r.1.scopes.len() as int,
                        params,
                        r.0->Ok_0,
                    ),
                    output: r.1.output,
                },
                r.1.scopes.len() as int,
                (fuel - 1) as nat,
            )
        }),
{
}

/// Ordinary lexical shadowing: a binding in a scope hides any binding of
/// the same name further up the chain, for lookups through that scope.
pub proof fn lemma_local_shadows(scopes: Seq<ScopeModel>, sid: int, name: Seq<char>)
    requires
        0 <= sid < scopes.len(),
        scopes[sid].names.contains_key(name),
    ensures
        lookup_chain(scopes, sid, name) == Option::Some(scopes[sid].names[name]),
{
}

/// Whether some scope strictly between `sid` and the global scope binds
/// `name`.
pub open spec fn chain_shadows(scopes: Seq<ScopeModel>, sid: int, name: Seq<char>) -> bool
    decreases sid,
{
    if sid <= 0 || sid >= scopes.len() {
        false
    } else {
        match scopes[sid].parent {
            Option::Some(p) => if 0 <= p < sid {
                (p != 0 && scopes[p].names.contains_key(name)) || chain_shadows(scopes, p, name)
            } else {
                false
            },
            Option::None => false,
        }
    }
}

/// A global definition issued from a nested scope is visible from that
/// scope at once: the definition clears the scope's own shadow of the
/// name, so unless some scope strictly between it and the global scope
/// still binds the name, looking the name up from the defining scope
/// yields the fresh global value.
pub proof fn lemma_define_overrides_shadow(
    scopes: Seq<ScopeModel>,
    sid: int,
    name: Seq<char>,
    v: ScmVal,
)
    requires
        scopes_wf(scopes),
        0 <= sid < scopes.len(),
        !chain_shadows(scopes, sid, name),
    ensures
        lookup_chain(scopes_set_global(scopes, sid, name, v), sid, name) == Option::Some(v),
    decreases sid,
{
    let after = scopes_set_global(scopes, sid, name, v);
    assert(after.len() == scopes.len());
    if sid == 0 {
        assert(after[0].names == scopes[0].names.remove(name).insert(name, v));
        assert(after[0].names.contains_key(name));
        assert(after[0].names[name] == v);
    } else {
        assert(!after[sid].names.contains_key(name));
        lemma_chain_reaches_global(scopes, sid, name, v, sid);
    }
}

/// Helper for [`lemma_define_overrides_shadow`]: walking the parent
/// chain from an unshadowed scope after the definition lands on the
/// global binding.
proof fn lemma_chain_reaches_global(
    scopes: Seq<ScopeModel>,
    sid: int,
    name: Seq<char>,
    v: ScmVal,
    cur: int,
)
    requires
        scopes_wf(scopes),
        0 <= sid < scopes.len(),
        0 < cur < scopes.len(),
        !chain_shadows(scopes, cur, name),
        cur == sid || !scopes[cur].names.contains_key(name),
    ensures
        lookup_chain(scopes_set_global(scopes, sid, name, v), cur, name) == Option::Some(v),
    decreases cur,
{
    let after = scopes_set_global(scopes, sid, name, v);
    assert(after.len() == scopes.len());
    assert(after[0].names.contains_key(name) && after[0].names[name] == v);
    assert(!after[cur].names.contains_key(name)) by {
        if cur == sid {
            assert(after[sid].names == scopes[sid].names.remove(name));
        }
    }
    match scopes[cur].parent {
        Option::Some(p) => {
            assert(0 <= p < cur);
            assert(after[cur].parent == scopes[cur].parent);
            if p == 0 {
                assert(lookup_chain(after, 0, name) == Option::Some(v));
            } else {
                assert(!scopes[p].names.contains_key(name));
                assert(p != sid ==> !scopes[p].names.contains_key(name));
                lemma_chain_reaches_global(scopes, sid, name, v, p);
            }
        },
        Option::None => {
            assert(false);
        },
    }
}

} // verus!
