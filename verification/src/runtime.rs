//! Runtime objects: the values that evaluation produces. A runtime object
//! is a syntax tree returned as data, a built-in procedure, a scheme
//! closure, or the unspecified result of a side-effecting form.

use vstd::prelude::*;
use vstd::string::StringExecFns;

use crate::scm_static::{so_view, ScmExpr, SchemeObject};

verus! {

/// The built-in (host) procedures: a closed set, applied by the evaluator
/// through a fixed calling convention.
#[derive(Clone, Copy, Debug, PartialEq, Eq, Structural)]
pub enum NativeProc {
    /// Concatenates string values.
    Cat,
    /// Writes its arguments to the runtime's output log.
    Display,
    /// Asks the front end to terminate the session.
    Exit,
    /// Returns the newline string.
    Newline,
}

/// A scheme object which can result from the execution of scheme code.
#[derive(Debug, PartialEq)]
pub enum RuntimeObject {
    /// A `SchemeObject` returned as data.
    SchemeObject(SchemeObject),
    /// A built-in procedure.
    RFunc(NativeProc),
    /// A scheme closure: body, argument names, and the scope that was
    /// current when the closure was made (its captured environment).
    SFunc(SchemeObject, Vec<String>, usize),
    /// The unspecified result of side-effecting forms such as `define`.
    Unspecified,
}

/// Mathematical model of a [`RuntimeObject`].
pub enum ScmVal {
    Obj(ScmExpr),
    Native(NativeProc),
    Closure(ScmExpr, Seq<Seq<char>>, int),
    Unspecified,
}

/// A sequence of strings, seen as a sequence of character sequences.
pub open spec fn strs_view(names: Seq<String>) -> Seq<Seq<char>> {
    Seq::new(names.len(), |i: int| names[i]@)
}

/// The model of one runtime object.
pub open spec fn rt_view(r: RuntimeObject) -> ScmVal {
    match r {
        RuntimeObject::SchemeObject(o) => ScmVal::Obj(so_view(o)),
        RuntimeObject::RFunc(p) => ScmVal::Native(p),
        RuntimeObject::SFunc(body, params, sid) => ScmVal::Closure(
            so_view(body),
            strs_view(params@),
            sid as int,
        ),
        RuntimeObject::Unspecified => ScmVal::Unspecified,
    }
}

impl View for RuntimeObject {
    type V = ScmVal;

    open spec fn view(&self) -> ScmVal {
        rt_view(*self)
    }
}

/// A value is well formed for an arena of `n` scopes when every scope it
/// captures exists.
pub open spec fn val_wf(v: ScmVal, n: int) -> bool {
    match v {
        ScmVal::Closure(_, _, sid) => 0 <= sid < n,
        _ => true,
    }
}

impl RuntimeObject {
    /// A deep copy: a new runtime object with the same model.
    pub fn duplicate(&self) -> (r: RuntimeObject)
        ensures
            r@ == self@,
    {
        match self {
            RuntimeObject::SchemeObject(o) => RuntimeObject::SchemeObject(o.duplicate()),
            RuntimeObject::RFunc(p) => RuntimeObject::RFunc(*p),
            RuntimeObject::SFunc(body, params, sid) => {
                let ps = clone_strings(params);
                proof {
                    assert(strs_view(ps@) =~= strs_view(params@));
                }
                RuntimeObject::SFunc(body.duplicate(), ps, *sid)
            },
            RuntimeObject::Unspecified => RuntimeObject::Unspecified,
        }
    }
}

/// Copies a vector of strings element by element.
fn clone_strings(names: &Vec<String>) -> (r: Vec<String>)
    ensures
        r@.len() == names@.len(),
        forall|i: int| 0 <= i < names@.len() ==> r@[i]@ == names@[i]@,
{
    let mut r: Vec<String> = Vec::new();
    let mut i: usize = 0;
    while i < names.len()
        invariant
            i <= names@.len(),
            r@.len() == i,
            forall|k: int| 0 <= k < i ==> r@[k]@ == names@[k]@,
        decreases names@.len() - i,
    {
        r.push(names[i].clone());
        i = i + 1;
    }
    r
}

/// A result of evaluation, seen at the model level.
pub open spec fn rres_view(r: Result<RuntimeObject, RuntimeError>) -> Result<ScmVal, RtErrView> {
    match r {
        Ok(v) => Ok(rt_view(v)),
        Err(e) => Err(e@),
    }
}

/// A sequence of runtime objects, seen at the model level.
pub open spec fn rts_view(s: Seq<RuntimeObject>) -> Seq<ScmVal> {
    Seq::new(s.len(), |i: int| rt_view(s[i]))
}

pub broadcast proof fn strs_view_push(s: Seq<String>, v: String)
    ensures
        #[trigger] strs_view(s.push(v)) == strs_view(s).push(v@),
{
    assert(strs_view(s.push(v)) =~= strs_view(s).push(v@));
}

pub broadcast proof fn rts_view_push(s: Seq<RuntimeObject>, v: RuntimeObject)
    ensures
        #[trigger] rts_view(s.push(v)) == rts_view(s).push(rt_view(v)),
{
    assert(rts_view(s.push(v)) =~= rts_view(s).push(rt_view(v)));
}

/// Creates a `RuntimeObject::SchemeObject`.
impl From<SchemeObject> for RuntimeObject {
    fn from(o: SchemeObject) -> (r: RuntimeObject) {
        RuntimeObject::SchemeObject(o)
    }
}

impl vstd::std_specs::convert::FromSpecImpl<SchemeObject> for RuntimeObject {
    open spec fn obeys_from_spec() -> bool {
        true
    }

    open spec fn from_spec(o: SchemeObject) -> RuntimeObject {
        RuntimeObject::SchemeObject(o)
    }
}

/// Creates a `RuntimeObject` holding a string value.
impl From<String> for RuntimeObject {
    fn from(s: String) -> (r: RuntimeObject) {
        RuntimeObject::SchemeObject(SchemeObject::String(s))
    }
}

impl vstd::std_specs::convert::FromSpecImpl<String> for RuntimeObject {
    open spec fn obeys_from_spec() -> bool {
        true
    }

    open spec fn from_spec(s: String) -> RuntimeObject {
        RuntimeObject::SchemeObject(SchemeObject::String(s))
    }
}

/// Creates a `RuntimeObject` holding a boolean value.
impl From<bool> for RuntimeObject {
    fn from(b: bool) -> (r: RuntimeObject) {
        RuntimeObject::SchemeObject(SchemeObject::Bool(b))
    }
}

impl vstd::std_specs::convert::FromSpecImpl<bool> for RuntimeObject {
    open spec fn obeys_from_spec() -> bool {
        true
    }

    open spec fn from_spec(b: bool) -> RuntimeObject {
        RuntimeObject::SchemeObject(SchemeObject::Bool(b))
    }
}

/// Possible runtime errors.
#[derive(Debug, PartialEq)]
pub enum RuntimeError {
    /// Misc. runtime error.
    Msg(String),
    /// Name lookup error (reporting the name of the unbound variable).
    NameLookup(String),
    /// The `exit` built-in ran: the front end should end the session.
    Exit,
}

/// Mathematical model of a [`RuntimeError`].
pub enum RtErrView {
    Msg(Seq<char>),
    NameLookup(Seq<char>),
    Exit,
}

impl View for RuntimeError {
    type V = RtErrView;

    open spec fn view(&self) -> RtErrView {
        match self {
            RuntimeError::Msg(s) => RtErrView::Msg(s@),
            RuntimeError::NameLookup(s) => RtErrView::NameLookup(s@),
            RuntimeError::Exit => RtErrView::Exit,
        }
    }
}

/// How a runtime error displays: a plain message as itself; an unbound
/// name that happens to be a reserved word as a usage hint for that
/// special form, since reserved words are never environment-bound; any
/// other unbound name by naming it.
pub open spec fn runtime_err_text(e: RtErrView) -> Seq<char> {
    match e {
        RtErrView::Msg(s) => s,
        RtErrView::Exit => "exit"@,
        RtErrView::NameLookup(s) => if s == "define"@ {
            "Built-in: define: (define name value) | (define (function_name arg) (body arg)"@
        } else if s == "let"@ {
            "Built-in: let: (let ((name1 value1)\n                     (name2 value2))\n                    (body name1 name2))"@
        } else if s == "lambda"@ {
            "Built-in: lambda: (lambda (arg1 arg2) (body arg1 arg2))"@
        } else if s == "if"@ {
            "Built-in: if: (if cond true_body false_body)"@
        } else {
            "Undefined binding: "@ + s
        },
    }
}

impl RuntimeError {
    /// The error's display text: exactly [`runtime_err_text`] of the model.
    pub fn to_display_string(&self) -> (r: String)
        ensures
            r@ == runtime_err_text(self@),
    {
        match self {
            RuntimeError::Msg(s) => s.clone(),
            RuntimeError::Exit => "exit".to_owned(),
            RuntimeError::NameLookup(s) => {
                if crate::str_eq(s.as_str(), "define") {
                    "Built-in: define: (define name value) | (define (function_name arg) (body arg)".to_owned()
                } else if crate::str_eq(s.as_str(), "let") {
                    "Built-in: let: (let ((name1 value1)\n                     (name2 value2))\n                    (body name1 name2))".to_owned()
                } else if crate::str_eq(s.as_str(), "lambda") {
                    "Built-in: lambda: (lambda (arg1 arg2) (body arg1 arg2))".to_owned()
                } else if crate::str_eq(s.as_str(), "if") {
                    "Built-in: if: (if cond true_body false_body)".to_owned()
                } else {
                    let mut out = "Undefined binding: ".to_owned();
                    out.append(s.as_str());
                    out
                }
            },
        }
    }
}

} // verus!
