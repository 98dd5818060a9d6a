//! The standard library surface: the built-in procedures the evaluator
//! can apply, and the global environment that holds them.

use vstd::prelude::*;
use vstd::string::StringExecFns;

use crate::env::{scopes_wf, Environment, ScopeModel};
use crate::runtime::{
    rt_view, rts_view, NativeProc, RuntimeError, RuntimeObject, ScmVal,
};
use crate::scm_static::SchemeObject;
use crate::semantics::{apply_native_spec, cat_spec, render_val, render_vals, render_vals_rest};

verus! {

impl RuntimeObject {
    /// Render for normal display: an object as itself, procedures and
    /// the unspecified value by their kind — exactly [`render_val`].
    pub fn to_display_string(&self) -> (r: String)
        ensures
            r@ == render_val(rt_view(*self)),
    {
        match self {
            RuntimeObject::SchemeObject(o) => o.to_display_string(),
            RuntimeObject::RFunc(_) => "Built-in function".to_owned(),
            RuntimeObject::SFunc(_, _, _) => "Scheme function".to_owned(),
            RuntimeObject::Unspecified => "None".to_owned(),
        }
    }
}

/// Concatenates the string values among `vals` from index `i` on; a
/// value that is not a string is an error.
fn cat_from(vals: &Vec<RuntimeObject>, i: usize) -> (r: Result<String, RuntimeError>)
    requires
        i <= vals@.len(),
    ensures
        ({
            let s = cat_spec(rts_view(vals@).skip(i as int));
            match s {
                Ok(text) => r is Ok && r->Ok_0@ == text,
                Err(e) => r is Err && r->Err_0@ == e,
            }
        }),
    decreases vals@.len() - i,
{
    let ghost rest = rts_view(vals@).skip(i as int);
    proof {
        if i < vals@.len() {
            assert(rest[0] == rts_view(vals@)[i as int]);
            assert(rest.drop_first() =~= rts_view(vals@).skip(i + 1));
        }
    }
    if i == vals.len() {
        return Ok(String::new());
    }
    match &vals[i] {
        RuntimeObject::SchemeObject(SchemeObject::String(s)) => {
            match cat_from(vals, i + 1) {
                Ok(tail_text) => {
                    let mut out = s.clone();
                    out.append(tail_text.as_str());
                    Ok(out)
                },
                Err(e) => Err(e),
            }
        },
        _ => Err(RuntimeError::Msg("Expected string arguments".to_owned())),
    }
}

/// Renders the values from index `i` on, each preceded by one space.
fn render_rest_from(vals: &Vec<RuntimeObject>, i: usize) -> (r: String)
    requires
        i <= vals@.len(),
    ensures
        r@ == render_vals_rest(rts_view(vals@).skip(i as int)),
    decreases vals@.len() - i,
{
    let ghost rest = rts_view(vals@).skip(i as int);
    proof {
        if i < vals@.len() {
            assert(rest[0] == rts_view(vals@)[i as int]);
            assert(rest.drop_first() =~= rts_view(vals@).skip(i + 1));
        }
    }
    if i == vals.len() {
        return String::new();
    }
    let mut out = String::new();
    crate::tokenise::push_char(&mut out, ' ');
    let head = vals[i].to_display_string();
    out.append(head.as_str());
    let tail_text = render_rest_from(vals, i + 1);
    out.append(tail_text.as_str());
    proof {
        assert(out@ =~= render_vals_rest(rest));
    }
    out
}

/// Renders `vals` separated by single spaces: one line of `display`
/// output.
fn render_line(vals: &Vec<RuntimeObject>) -> (r: String)
    ensures
        r@ == render_vals(rts_view(vals@)),
{
    if vals.len() == 0 {
        proof {
            assert(rts_view(vals@).len() == 0);
        }
        return String::new();
    }
    let mut out = vals[0].to_display_string();
    let rest = render_rest_from(vals, 1);
    out.append(rest.as_str());
    proof {
        assert(rts_view(vals@)[0] == rt_view(vals@[0]));
        assert(rts_view(vals@).drop_first() =~= rts_view(vals@).skip(1));
        assert(out@ =~= render_vals(rts_view(vals@)));
    }
    out
}

/// Applies a built-in procedure to already-evaluated arguments: exactly
/// [`apply_native_spec`]. `cat` concatenates string values, `display`
/// appends one rendered line to the runtime state's output log,
/// `newline` returns the newline string, and `exit` reports the exit
/// signal that the front end turns into process termination.
pub(crate) fn apply_native(
    p: NativeProc,
    vals: &Vec<RuntimeObject>,
    env: &mut Environment,
) -> (r: Result<RuntimeObject, RuntimeError>)
    ensures
        ({
            let s = apply_native_spec(p, rts_view(vals@), old(env)@);
            crate::runtime::rres_view(r) == s.0 && final(env)@ == s.1
        }),
        final(env)@.scopes == old(env)@.scopes,
{
    match p {
        NativeProc::Cat => {
            proof {
                assert(rts_view(vals@).skip(0) =~= rts_view(vals@));
            }
            match cat_from(vals, 0) {
                Ok(text) => Ok(RuntimeObject::SchemeObject(SchemeObject::String(text))),
                Err(e) => Err(e),
            }
        },
        NativeProc::Display => {
            let line = render_line(vals);
            env.append_output(line);
            Ok(RuntimeObject::Unspecified)
        },
        NativeProc::Newline => Ok(
            RuntimeObject::SchemeObject(SchemeObject::String("\n".to_owned())),
        ),
        NativeProc::Exit => Err(RuntimeError::Exit),
    }
}

/// The global bindings of the standard library: `display`, `exit` and
/// `newline`.
pub open spec fn std_bindings() -> Map<Seq<char>, ScmVal> {
    Map::<Seq<char>, ScmVal>::empty().insert("display"@, ScmVal::Native(NativeProc::Display))
        .insert("exit"@, ScmVal::Native(NativeProc::Exit)).insert(
        "newline"@,
        ScmVal::Native(NativeProc::Newline),
    )
}

/// Returns a runtime state whose global scope holds the standard
/// library.
pub fn get_std_env() -> (r: Environment)
    ensures
        r@.scopes =~= seq![ScopeModel { parent: Option::None, names: std_bindings() }],
        r@.output =~= Seq::<Seq<char>>::empty(),
        scopes_wf(r@.scopes),
{
    let mut env = Environment::new();
    env.set(0, "display".to_owned(), RuntimeObject::RFunc(NativeProc::Display));
    env.set(0, "exit".to_owned(), RuntimeObject::RFunc(NativeProc::Exit));
    env.set(0, "newline".to_owned(), RuntimeObject::RFunc(NativeProc::Newline));
    env.shrink(0);
    proof {
        assert(env@.scopes =~= seq![ScopeModel { parent: Option::None, names: std_bindings() }]);
    }
    env
}

} // verus!
