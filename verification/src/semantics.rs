//! The meaning of evaluation: a specification-level interpreter over the
//! mathematical models of syntax trees, runtime values and the scope
//! arena. Every executable evaluation function is proved to return
//! exactly what these functions say.
//!
//! Evaluation in the language itself need not terminate, so the
//! specification takes a fuel bound: one unit is spent each time a
//! closure body is entered, and evaluation reports an error when the fuel
//! runs out. Everything else recurses along strictly smaller syntax.

use vstd::prelude::*;

use crate::env::{
    lookup_chain, scopes_push, scopes_set, scopes_set_global, EnvModel, ScopeModel,
};
use crate::runtime::{NativeProc, RtErrView, ScmVal};
use crate::scm_static::{display_render, debug_render, scm_seq_size, scm_size, ScmExpr};

verus! {

/// The decimal rendering of a number.
pub open spec fn dec_str(n: nat) -> Seq<char>
    decreases n,
{
    if n < 10 {
        seq![dec_digit(n)]
    } else {
        dec_str(n / 10).push(dec_digit(n % 10))
    }
}

/// One decimal digit as a character.
pub open spec fn dec_digit(d: nat) -> char {
    if d == 0 {
        '0'
    } else if d == 1 {
        '1'
    } else if d == 2 {
        '2'
    } else if d == 3 {
        '3'
    } else if d == 4 {
        '4'
    } else if d == 5 {
        '5'
    } else if d == 6 {
        '6'
    } else if d == 7 {
        '7'
    } else if d == 8 {
        '8'
    } else {
        '9'
    }
}

/// The arity-mismatch message: how many arguments the closure's parameter
/// list expects, and how many the call supplied.
pub open spec fn arity_msg(expected: nat, got: nat) -> Seq<char> {
    "Expected "@ + dec_str(expected) + " arguments, got "@ + dec_str(got)
}

/// How one runtime value displays: an object as itself; procedures and
/// the unspecified value by their kind.
pub open spec fn render_val(v: ScmVal) -> Seq<char> {
    match v {
        ScmVal::Obj(e) => display_render(e),
        ScmVal::Native(_) => "Built-in function"@,
        ScmVal::Closure(_, _, _) => "Scheme function"@,
        ScmVal::Unspecified => "None"@,
    }
}

/// The renderings of `vals`, separated by single spaces: what one call of
/// the `display` built-in writes.
pub open spec fn render_vals(vals: Seq<ScmVal>) -> Seq<char>
    decreases vals, 0nat,
{
    if vals.len() == 0 {
        Seq::empty()
    } else {
        render_val(vals[0]) + render_vals_rest(vals.drop_first())
    }
}

/// The renderings of `vals`, each preceded by one space.
pub open spec fn render_vals_rest(vals: Seq<ScmVal>) -> Seq<char>
    decreases vals, 1nat,
{
    if vals.len() == 0 {
        Seq::empty()
    } else {
        seq![' '] + render_val(vals[0]) + render_vals_rest(vals.drop_first())
    }
}

/// What concatenating `vals` yields: their text, in order, when every one
/// is a string value; otherwise an error at the first value that is not.
pub open spec fn cat_spec(vals: Seq<ScmVal>) -> Result<Seq<char>, RtErrView>
    decreases vals,
{
    if vals.len() == 0 {
        Ok(Seq::empty())
    } else {
        match vals[0] {
            ScmVal::Obj(ScmExpr::Str(s)) => match cat_spec(vals.drop_first()) {
                Ok(rest) => Ok(s + rest),
                Err(e) => Err(e),
            },
            _ => Err(RtErrView::Msg("Expected string arguments"@)),
        }
    }
}

/// What applying a built-in procedure to already-evaluated arguments
/// yields, and how it changes the runtime state: `cat` concatenates
/// string values, `display` appends one rendered line to the output log,
/// `newline` returns the newline string, and `exit` reports the exit
/// signal for the front end.
pub open spec fn apply_native_spec(p: NativeProc, vals: Seq<ScmVal>, st: EnvModel) -> (Result<
    ScmVal,
    RtErrView,
>, EnvModel) {
    match p {
        NativeProc::Cat => (
            match cat_spec(vals) {
                Ok(text) => Ok(ScmVal::Obj(ScmExpr::Str(text))),
                Err(e) => Err(e),
            },
            st,
        ),
        NativeProc::Display => (
            Ok(ScmVal::Unspecified),
            EnvModel { scopes: st.scopes, output: st.output.push(render_vals(vals)) },
        ),
        NativeProc::Newline => (Ok(ScmVal::Obj(ScmExpr::Str("\n"@))), st),
        NativeProc::Exit => (Err(RtErrView::Exit), st),
    }
}

/// The parameter names of a parameter list: every element must be a
/// symbol.
pub open spec fn read_params_spec(items: Seq<ScmExpr>) -> Result<Seq<Seq<char>>, RtErrView>
    decreases items,
{
    if items.len() == 0 {
        Ok(Seq::empty())
    } else {
        match items[0] {
            ScmExpr::Symbol(s) => match read_params_spec(items.drop_first()) {
                Ok(ps) => Ok(seq![s] + ps),
                Err(e) => Err(e),
            },
            _ => Err(RtErrView::Msg("You can't call a variable that"@)),
        }
    }
}

/// What `lambda` yields from its unevaluated operands: exactly two, the
/// first a combination of symbols, give a closure over the body that
/// captures the scope the `lambda` appears in; anything else is an error.
pub open spec fn lambda_spec(tail: Seq<ScmExpr>, sid: int) -> Result<ScmVal, RtErrView> {
    if tail.len() != 2 {
        Err(RtErrView::Msg("Expected 2 arguments to lambda"@))
    } else {
        match tail[0] {
            ScmExpr::CodeList(ps) => match read_params_spec(ps) {
                Ok(names) => Ok(ScmVal::Closure(tail[1], names, sid)),
                Err(e) => Err(e),
            },
            _ => Err(RtErrView::Msg("Expected the first argument to lambda to be a list"@)),
        }
    }
}

/// The scopes after binding each parameter to the matching argument in
/// scope `lid`.
pub open spec fn bind_params(
    scopes: Seq<ScopeModel>,
    lid: int,
    params: Seq<Seq<char>>,
    vals: Seq<ScmVal>,
) -> Seq<ScopeModel>
    decreases params.len(),
{
    if params.len() == 0 || vals.len() == 0 {
        scopes
    } else {
        bind_params(
            scopes_set(scopes, lid, params[0], vals[0]),
            lid,
            params.drop_first(),
            vals.drop_first(),
        )
    }
}

/// What one expression evaluates to in state `st`, from scope `sid`: a
/// symbol by lookup along the scope chain, unbound names an error; a
/// combination as a special form or an application; booleans, strings,
/// quoted forms and vectors as themselves, untouched — quoting and
/// vectors are inert.
pub open spec fn eval_spec(e: ScmExpr, st: EnvModel, sid: int, fuel: nat) -> (Result<
    ScmVal,
    RtErrView,
>, EnvModel)
    decreases fuel, scm_size(e), 0nat,
{
    match e {
        ScmExpr::Symbol(s) => (
            match lookup_chain(st.scopes, sid, s) {
                Option::Some(v) => Ok(v),
                Option::None => Err(RtErrView::NameLookup(s)),
            },
            st,
        ),
        ScmExpr::CodeList(items) => eval_codelist_spec(items, st, sid, fuel),
        _ => (Ok(ScmVal::Obj(e)), st),
    }
}

/// What a combination evaluates to: the empty combination is an error;
/// a head symbol naming one of the four reserved forms dispatches to it
/// (reserved names are never resolved through the environment); any
/// other symbol, or a nested combination, is evaluated and applied to
/// the unevaluated tail; any other head kind is an error naming it.
pub open spec fn eval_codelist_spec(items: Seq<ScmExpr>, st: EnvModel, sid: int, fuel: nat) -> (
    Result<ScmVal, RtErrView>,
    EnvModel,
)
    decreases fuel, scm_seq_size(items), 4nat,
{
    if items.len() == 0 {
        (Err(RtErrView::Msg("Executing empty codelist"@)), st)
    } else {
        let head = items[0];
        let tail = items.drop_first();
        match head {
            ScmExpr::Symbol(s) => if s == "define"@ {
                eval_define_spec(tail, st, sid, fuel)
            } else if s == "let"@ {
                eval_let_spec(tail, st, sid, fuel)
            } else if s == "lambda"@ {
                (
                    match lambda_spec(tail, sid) {
                        Ok(v) => Ok::<ScmVal, RtErrView>(v),
                        Err(e) => Err(e),
                    },
                    st,
                )
            } else if s == "if"@ {
                eval_if_spec(tail, st, sid, fuel)
            } else {
                eval_fncall_spec(head, tail, st, sid, fuel)
            },
            ScmExpr::CodeList(_) => eval_fncall_spec(head, tail, st, sid, fuel),
            _ => (
                Err(RtErrView::Msg(debug_render(head) + " found; function name expected"@)),
                st,
            ),
        }
    }
}

/// An ordinary application: the head is evaluated to a value, which is
/// then applied to the unevaluated argument expressions.
pub open spec fn eval_fncall_spec(
    head: ScmExpr,
    tail: Seq<ScmExpr>,
    st: EnvModel,
    sid: int,
    fuel: nat,
) -> (Result<ScmVal, RtErrView>, EnvModel)
    decreases fuel, scm_size(head) + scm_seq_size(tail), 3nat,
{
    let r = eval_spec(head, st, sid, fuel);
    match r.0 {
        Ok(v) => apply_spec(v, tail, r.1, sid, fuel),
        Err(e) => (Err(e), r.1),
    }
}

/// Application of an already-evaluated value: a built-in procedure takes
/// its arguments evaluated left to right, eagerly, the first failure
/// aborting the rest; a closure additionally checks arity exactly, binds
/// each parameter to its argument in a fresh scope whose parent is the
/// closure's captured scope — not the caller's — and evaluates the body
/// there, spending one unit of fuel; every other value is a type error.
pub open spec fn apply_spec(v: ScmVal, args: Seq<ScmExpr>, st: EnvModel, sid: int, fuel: nat) -> (
    Result<ScmVal, RtErrView>,
    EnvModel,
)
    decreases fuel, scm_seq_size(args), 2nat,
{
    match v {
        ScmVal::Native(p) => {
            let r = eval_args_spec(args, st, sid, fuel);
            match r.0 {
                Ok(vals) => apply_native_spec(p, vals, r.1),
                Err(e) => (Err(e), r.1),
            }
        },
        ScmVal::Closure(body, params, captured) => if args.len() != params.len() {
            (Err(RtErrView::Msg(arity_msg(params.len(), args.len()))), st)
        } else {
            let r = eval_args_spec(args, st, sid, fuel);
            match r.0 {
                Ok(vals) => {
                    let lid = r.1.scopes.len() as int;
                    let bound = bind_params(scopes_push(r.1.scopes, captured), lid, params, vals);
                    let st2 = EnvModel { scopes: bound, output: r.1.output };
                    if fuel == 0 {
                        (Err(RtErrView::Msg("recursion depth exceeded"@)), st2)
                    } else {
                        eval_spec(body, st2, lid, (fuel - 1) as nat)
                    }
                },
                Err(e) => (Err(e), r.1),
            }
        },
        _ => (Err(RtErrView::Msg("Expected a function"@)), st),
    }
}

/// The arguments of an application, evaluated left to right in the
/// caller's scope; the first error aborts the rest.
pub open spec fn eval_args_spec(args: Seq<ScmExpr>, st: EnvModel, sid: int, fuel: nat) -> (Result<
    Seq<ScmVal>,
    RtErrView,
>, EnvModel)
    decreases fuel, scm_seq_size(args), 1nat,
    via eval_args_spec_decreases
{
    if args.len() == 0 {
        (Ok(Seq::empty()), st)
    } else {
        let r = eval_spec(args[0], st, sid, fuel);
        match r.0 {
            Ok(v) => {
                let rest = eval_args_spec(args.drop_first(), r.1, sid, fuel);
                (
                    match rest.0 {
                        Ok(vs) => Ok(seq![v] + vs),
                        Err(e) => Err(e),
                    },
                    rest.1,
                )
            },
            Err(e) => (Err(e), r.1),
        }
    }
}

/// What one binding form yields: `(name value)` evaluates the value in
/// the current scope; `((name params...) body)` builds a closure that
/// captures the current scope, without evaluating anything; anything
/// else is an error.
pub open spec fn eval_binding_spec(tail: Seq<ScmExpr>, st: EnvModel, sid: int, fuel: nat) -> (
    Result<(Seq<char>, ScmVal), RtErrView>,
    EnvModel,
)
    decreases fuel, scm_seq_size(tail), 2nat,
    via eval_binding_spec_decreases
{
    if tail.len() != 2 {
        (Err(RtErrView::Msg("Expected 2 arguments"@)), st)
    } else {
        match tail[0] {
            ScmExpr::Symbol(name) => {
                let r = eval_spec(tail[1], st, sid, fuel);
                match r.0 {
                    Ok(v) => (Ok((name, v)), r.1),
                    Err(e) => (Err(e), r.1),
                }
            },
            ScmExpr::CodeList(lst) => if lst.len() == 0 {
                (Err(RtErrView::Msg("Empty assignment list"@)), st)
            } else {
                match lst[0] {
                    ScmExpr::Symbol(fn_name) => match read_params_spec(lst.drop_first()) {
                        Ok(ps) => (Ok((fn_name, ScmVal::Closure(tail[1], ps, sid))), st),
                        Err(e) => (Err(e), st),
                    },
                    _ => (Err(RtErrView::Msg("You can't name a function that"@)), st),
                }
            },
            _ => (Err(RtErrView::Msg("You can't name a variable that"@)), st),
        }
    }
}

/// What `define` does: evaluates its binding, then binds the name
/// globally — clearing any shadow of it in the scope the `define` ran in,
/// so the fresh global is visible from there at once. The result is the
/// unspecified value.
pub open spec fn eval_define_spec(tail: Seq<ScmExpr>, st: EnvModel, sid: int, fuel: nat) -> (
    Result<ScmVal, RtErrView>,
    EnvModel,
)
    decreases fuel, scm_seq_size(tail), 3nat,
{
    let r = eval_binding_spec(tail, st, sid, fuel);
    match r.0 {
        Ok((name, v)) => (
            Ok(ScmVal::Unspecified),
            EnvModel { scopes: scopes_set_global(r.1.scopes, sid, name, v), output: r.1.output },
        ),
        Err(e) => (Err(e), r.1),
    }
}

/// The bindings of a `let`, installed one by one: each must be a
/// two-element combination; its value is evaluated in the scope the
/// `let` appears in (`sid`), and the binding lands in the `let`'s fresh
/// body scope (`lid`), visible only there.
pub open spec fn eval_let_bindings_spec(
    bindings: Seq<ScmExpr>,
    st: EnvModel,
    sid: int,
    lid: int,
    fuel: nat,
) -> (Result<(), RtErrView>, EnvModel)
    decreases fuel, scm_seq_size(bindings), 3nat,
    via eval_let_bindings_spec_decreases
{
    if bindings.len() == 0 {
        (Ok(()), st)
    } else {
        match bindings[0] {
            ScmExpr::CodeList(pair) => {
                let r = eval_binding_spec(pair, st, sid, fuel);
                match r.0 {
                    Ok((name, v)) => eval_let_bindings_spec(
                        bindings.drop_first(),
                        EnvModel {
                            scopes: scopes_set(r.1.scopes, lid, name, v),
                            output: r.1.output,
                        },
                        sid,
                        lid,
                        fuel,
                    ),
                    Err(e) => (Err(e), r.1),
                }
            },
            _ => (Err(RtErrView::Msg("Let bindings should be 2 element lists"@)), st),
        }
    }
}

/// A sequence of body forms, evaluated in order; the value of the last
/// one is the result, and the first error aborts the rest.
pub open spec fn eval_body_spec(forms: Seq<ScmExpr>, st: EnvModel, sid: int, fuel: nat) -> (
    Result<ScmVal, RtErrView>,
    EnvModel,
)
    decreases fuel, scm_seq_size(forms), 1nat,
    via eval_body_spec_decreases
{
    if forms.len() == 0 {
        (Err(RtErrView::Msg("No let result"@)), st)
    } else if forms.len() == 1 {
        eval_spec(forms[0], st, sid, fuel)
    } else {
        let r = eval_spec(forms[0], st, sid, fuel);
        match r.0 {
            Ok(_) => eval_body_spec(forms.drop_first(), r.1, sid, fuel),
            Err(e) => (Err(e), r.1),
        }
    }
}

/// What `let` does: its first operand must be a combination of binding
/// pairs. A fresh scope is created whose parent is the scope the `let`
/// appears in; the bindings are installed there; and the remaining
/// operands are evaluated in that scope in order, the last one's value
/// the result of the whole form. The bindings are visible only inside
/// the body: they do not leak into the enclosing scope.
pub open spec fn eval_let_spec(tail: Seq<ScmExpr>, st: EnvModel, sid: int, fuel: nat) -> (Result<
    ScmVal,
    RtErrView,
>, EnvModel)
    decreases fuel, scm_seq_size(tail), 3nat,
    via eval_let_spec_decreases
{
    if tail.len() < 2 {
        (Err(RtErrView::Msg("let should have at least 2 arguments"@)), st)
    } else {
        match tail[0] {
            ScmExpr::CodeList(bindings) => {
                let lid = st.scopes.len() as int;
                let st1 = EnvModel { scopes: scopes_push(st.scopes, sid), output: st.output };
                let r = eval_let_bindings_spec(bindings, st1, sid, lid, fuel);
                match r.0 {
                    Ok(_) => eval_body_spec(tail.drop_first(), r.1, lid, fuel),
                    Err(e) => (Err(e), r.1),
                }
            },
            _ => (Err(RtErrView::Msg("You incorrect let form"@)), st),
        }
    }
}

/// What `if` does: fewer than two operands is an error; otherwise the
/// condition is evaluated, and the then-branch is taken exactly when the
/// result is the boolean-true value — every other value takes the
/// else-branch, or yields the unspecified value when there is none.
pub open spec fn eval_if_spec(tail: Seq<ScmExpr>, st: EnvModel, sid: int, fuel: nat) -> (Result<
    ScmVal,
    RtErrView,
>, EnvModel)
    decreases fuel, scm_seq_size(tail), 3nat,
    via eval_if_spec_decreases
{
    if tail.len() < 2 {
        (
            Err(
                RtErrView::Msg(
                    "If statement needs to at least specify a condition and something to do on true"@,
                ),
            ),
            st,
        )
    } else {
        let r = eval_spec(tail[0], st, sid, fuel);
        match r.0 {
            Ok(v) => if v == ScmVal::Obj(ScmExpr::Bool(true)) {
                eval_spec(tail[1], r.1, sid, fuel)
            } else if tail.len() >= 3 {
                eval_spec(tail[2], r.1, sid, fuel)
            } else {
                (Ok(ScmVal::Unspecified), r.1)
            },
            Err(e) => (Err(e), r.1),
        }
    }
}

#[via_fn]
proof fn eval_args_spec_decreases(args: Seq<ScmExpr>, st: EnvModel, sid: int, fuel: nat) {
    if args.len() > 0 {
        crate::scm_static::scm_size_pos(args[0]);
        crate::scm_static::scm_seq_size_index(args, 0);
    }
}

#[via_fn]
proof fn eval_binding_spec_decreases(tail: Seq<ScmExpr>, st: EnvModel, sid: int, fuel: nat) {
    if tail.len() == 2 {
        crate::scm_static::scm_seq_size_index(tail, 1);
    }
}

#[via_fn]
proof fn eval_let_bindings_spec_decreases(
    bindings: Seq<ScmExpr>,
    st: EnvModel,
    sid: int,
    lid: int,
    fuel: nat,
) {
    if bindings.len() > 0 {
        crate::scm_static::scm_size_pos(bindings[0]);
        crate::scm_static::scm_seq_size_index(bindings, 0);
    }
}

#[via_fn]
proof fn eval_body_spec_decreases(forms: Seq<ScmExpr>, st: EnvModel, sid: int, fuel: nat) {
    if forms.len() > 0 {
        crate::scm_static::scm_size_pos(forms[0]);
        crate::scm_static::scm_seq_size_index(forms, 0);
    }
}

#[via_fn]
proof fn eval_let_spec_decreases(tail: Seq<ScmExpr>, st: EnvModel, sid: int, fuel: nat) {
    if tail.len() >= 2 {
        crate::scm_static::scm_size_pos(tail[0]);
        crate::scm_static::scm_seq_size_index(tail, 0);
    }
}

#[via_fn]
proof fn eval_if_spec_decreases(tail: Seq<ScmExpr>, st: EnvModel, sid: int, fuel: nat) {
    if tail.len() >= 2 {
        crate::scm_static::scm_seq_size_index(tail, 0);
        crate::scm_static::scm_seq_size_index(tail, 1);
        if tail.len() >= 3 {
            crate::scm_static::scm_seq_size_index(tail, 2);
        }
    }
}

} // verus!
