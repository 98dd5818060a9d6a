//! The syntax tree produced by the reader, and its mathematical model.

use vstd::prelude::*;
use vstd::string::StringExecFns;

verus! {

/// A scheme object as parsed from source code.
#[derive(Debug, PartialEq)]
pub enum SchemeObject {
    /// A boolean value: `#t` or `#f`.
    Bool(bool),
    /// A symbol, e.g. a variable name.
    Symbol(String),
    /// A string literal, e.g. `"HELLO"`, with the quotes stripped.
    String(String),
    /// An unquoted parenthesized form `( ... )`: a procedure call or a
    /// special form once evaluated.
    CodeList(Vec<SchemeObject>),
    /// A quoted form `'( ... )`: inert data, never evaluated as a call.
    QuotedList(Vec<SchemeObject>),
    /// A vector `#( ... )`: inert data.
    Vector(Vec<SchemeObject>),
}

/// Mathematical model of a [`SchemeObject`]: the same tree with strings as
/// character sequences.
pub enum ScmExpr {
    Bool(bool),
    Symbol(Seq<char>),
    Str(Seq<char>),
    CodeList(Seq<ScmExpr>),
    QuotedList(Seq<ScmExpr>),
    Vector(Seq<ScmExpr>),
}

/// The model of one syntax tree.
pub open spec fn so_view(e: SchemeObject) -> ScmExpr
    decreases e,
{
    match e {
        SchemeObject::Bool(b) => ScmExpr::Bool(b),
        SchemeObject::Symbol(s) => ScmExpr::Symbol(s@),
        SchemeObject::String(s) => ScmExpr::Str(s@),
        SchemeObject::CodeList(items) => ScmExpr::CodeList(so_seq_view(items@)),
        SchemeObject::QuotedList(items) => ScmExpr::QuotedList(so_seq_view(items@)),
        SchemeObject::Vector(items) => ScmExpr::Vector(so_seq_view(items@)),
    }
}

/// The models of a sequence of syntax trees, element by element.
pub open spec fn so_seq_view(items: Seq<SchemeObject>) -> Seq<ScmExpr>
    decreases items,
{
    if items.len() == 0 {
        Seq::empty()
    } else {
        seq![so_view(items[0])] + so_seq_view(items.drop_first())
    }
}

pub broadcast proof fn so_seq_view_props(items: Seq<SchemeObject>)
    ensures
        (#[trigger] so_seq_view(items)).len() == items.len(),
        forall|i: int| 0 <= i < items.len() ==> so_seq_view(items)[i] == so_view(items[i]),
    decreases items.len(),
{
    if items.len() > 0 {
        so_seq_view_props(items.drop_first());
    }
}

pub broadcast proof fn so_seq_view_push(items: Seq<SchemeObject>, x: SchemeObject)
    ensures
        #[trigger] so_seq_view(items.push(x)) == so_seq_view(items).push(so_view(x)),
    decreases items.len(),
{
    if items.len() == 0 {
        assert(items.push(x).drop_first() =~= Seq::<SchemeObject>::empty());
        assert(items.push(x)[0] == x);
        assert(so_seq_view(Seq::<SchemeObject>::empty()) =~= Seq::<ScmExpr>::empty());
        assert(so_seq_view(items.push(x)) == seq![so_view(x)] + so_seq_view(
            items.push(x).drop_first(),
        ));
        assert(so_seq_view(items.push(x)) =~= so_seq_view(items).push(so_view(x)));
    } else {
        so_seq_view_push(items.drop_first(), x);
        assert(items.push(x).drop_first() =~= items.drop_first().push(x));
        assert(so_seq_view(items.push(x)) =~= so_seq_view(items).push(so_view(x)));
    }
}

impl View for SchemeObject {
    type V = ScmExpr;

    open spec fn view(&self) -> ScmExpr {
        so_view(*self)
    }
}

/// The size of a syntax tree: one for each node. Evaluation recurses on
/// strictly smaller trees, so this measures its termination.
pub open spec fn scm_size(e: ScmExpr) -> nat
    decreases e,
{
    match e {
        ScmExpr::Bool(_) => 1,
        ScmExpr::Symbol(_) => 1,
        ScmExpr::Str(_) => 1,
        ScmExpr::CodeList(items) => 1 + scm_seq_size(items),
        ScmExpr::QuotedList(items) => 1 + scm_seq_size(items),
        ScmExpr::Vector(items) => 1 + scm_seq_size(items),
    }
}

/// The summed size of a sequence of syntax trees.
pub open spec fn scm_seq_size(items: Seq<ScmExpr>) -> nat
    decreases items,
{
    if items.len() == 0 {
        0
    } else {
        scm_size(items[0]) + scm_seq_size(items.drop_first())
    }
}

pub broadcast proof fn scm_size_pos(e: ScmExpr)
    ensures
        #[trigger] scm_size(e) >= 1,
{
}

pub broadcast proof fn scm_seq_size_index(items: Seq<ScmExpr>, i: int)
    requires
        0 <= i < items.len(),
    ensures
        #[trigger] scm_size(items[i]) <= scm_seq_size(items),
    decreases items.len(),
{
    if i > 0 {
        scm_seq_size_index(items.drop_first(), i - 1);
    } else {
        assert(scm_size(items[0]) <= scm_seq_size(items));
    }
}

impl SchemeObject {
    /// A deep copy: a new tree with the same model.
    pub fn duplicate(&self) -> (r: SchemeObject)
        ensures
            r@ == self@,
        decreases *self,
    {
        match self {
            SchemeObject::Bool(b) => SchemeObject::Bool(*b),
            SchemeObject::Symbol(s) => SchemeObject::Symbol(s.clone()),
            SchemeObject::String(s) => SchemeObject::String(s.clone()),
            SchemeObject::CodeList(items) => SchemeObject::CodeList(dup_vec(items)),
            SchemeObject::QuotedList(items) => SchemeObject::QuotedList(dup_vec(items)),
            SchemeObject::Vector(items) => SchemeObject::Vector(dup_vec(items)),
        }
    }
}

/// Deep-copies each element of a vector of syntax trees.
fn dup_vec(items: &Vec<SchemeObject>) -> (r: Vec<SchemeObject>)
    ensures
        so_seq_view(r@) == so_seq_view(items@),
    decreases *items,
{
    broadcast use so_seq_view_props;

    let mut r: Vec<SchemeObject> = Vec::new();
    let mut j: usize = 0;
    while j < items.len()
        invariant
            j <= items@.len(),
            r@.len() == j,
            forall|k: int| 0 <= k < j ==> r@[k]@ == items@[k]@,
        decreases items@.len() - j,
    {
        let e = items[j].duplicate();
        r.push(e);
        j = j + 1;
    }
    proof {
        assert(so_seq_view(r@) =~= so_seq_view(items@)) by {
            so_seq_views_equal(r@, items@);
        }
    }
    r
}

/// Two vectors of trees whose elements have equal models have equal
/// sequence models.
pub proof fn so_seq_views_equal(a: Seq<SchemeObject>, b: Seq<SchemeObject>)
    requires
        a.len() == b.len(),
        forall|k: int| 0 <= k < a.len() ==> a[k]@ == b[k]@,
    ensures
        so_seq_view(a) == so_seq_view(b),
    decreases a.len(),
{
    if a.len() > 0 {
        so_seq_views_equal(a.drop_first(), b.drop_first());
        assert(so_seq_view(a) =~= so_seq_view(b));
    } else {
        assert(so_seq_view(a) =~= so_seq_view(b));
    }
}

/// How a syntax tree prints for normal display: booleans as `#t` / `#f`,
/// symbols and strings as their text, lists as `( ... )`, quoted lists with
/// a leading `'`, vectors as `[ ... ]`, with the elements debug-rendered
/// and separated by single spaces.
pub open spec fn display_render(e: ScmExpr) -> Seq<char>
    decreases e, 0nat,
{
    match e {
        ScmExpr::Bool(b) => if b {
            "#t"@
        } else {
            "#f"@
        },
        ScmExpr::Symbol(s) => s,
        ScmExpr::Str(s) => s,
        ScmExpr::CodeList(items) => seq!['('] + join_render(items) + seq![')'],
        ScmExpr::QuotedList(items) => seq!['\'', '('] + join_render(items) + seq![')'],
        ScmExpr::Vector(items) => seq!['['] + join_render(items) + seq![']'],
    }
}

/// How a syntax tree prints as source code: like [`display_render`], but
/// string literals keep their quotes.
pub open spec fn debug_render(e: ScmExpr) -> Seq<char>
    decreases e, 1nat,
{
    match e {
        ScmExpr::Str(s) => seq!['"'] + s + seq!['"'],
        _ => display_render(e),
    }
}

/// The debug renderings of `items`, separated by single spaces.
pub open spec fn join_render(items: Seq<ScmExpr>) -> Seq<char>
    decreases items, 2nat,
{
    if items.len() == 0 {
        Seq::empty()
    } else {
        debug_render(items[0]) + rest_render(items.drop_first())
    }
}

/// The debug renderings of `items`, each preceded by one space.
pub open spec fn rest_render(items: Seq<ScmExpr>) -> Seq<char>
    decreases items, 3nat,
{
    if items.len() == 0 {
        Seq::empty()
    } else {
        seq![' '] + debug_render(items[0]) + rest_render(items.drop_first())
    }
}

impl SchemeObject {
    /// Render for normal display: exactly [`display_render`] of the model.
    pub fn to_display_string(&self) -> (r: String)
        ensures
            r@ == display_render(self@),
        decreases *self, 0nat,
    {
        match self {
            SchemeObject::Bool(b) => {
                if *b {
                    "#t".to_owned()
                } else {
                    "#f".to_owned()
                }
            },
            SchemeObject::Symbol(s) => s.clone(),
            SchemeObject::String(s) => s.clone(),
            SchemeObject::CodeList(items) => print_code_lst(items, '(', ')'),
            SchemeObject::QuotedList(items) => {
                let mut out = String::new();
                crate::tokenise::push_char(&mut out, '\'');
                let body = print_code_lst(items, '(', ')');
                out.append(body.as_str());
                proof {
                    assert(out@ =~= display_render(self@));
                }
                out
            },
            SchemeObject::Vector(items) => print_code_lst(items, '[', ']'),
        }
    }

    /// Render as source code: exactly [`debug_render`] of the model.
    pub fn to_debug_string(&self) -> (r: String)
        ensures
            r@ == debug_render(self@),
        decreases *self, 1nat,
    {
        match self {
            SchemeObject::String(s) => {
                let mut out = String::new();
                crate::tokenise::push_char(&mut out, '"');
                out.append(s.as_str());
                crate::tokenise::push_char(&mut out, '"');
                proof {
                    assert(out@ =~= debug_render(self@));
                }
                out
            },
            _ => self.to_display_string(),
        }
    }
}

/// Renders a list of syntax trees between the given brackets, the elements
/// debug-rendered and separated by single spaces.
fn print_code_lst(items: &Vec<SchemeObject>, open_c: char, close_c: char) -> (r: String)
    ensures
        r@ == seq![open_c] + join_render(so_seq_view(items@)) + seq![close_c],
    decreases *items, 2nat,
{
    broadcast use so_seq_view_props;

    let ghost model = so_seq_view(items@);
    let mut out = String::new();
    crate::tokenise::push_char(&mut out, open_c);
    if items.len() > 0 {
        let first = items[0].to_debug_string();
        out.append(first.as_str());
        proof {
            assert(model.drop_first() =~= model.skip(1));
            assert(out@ + rest_render(model.skip(1)) =~= seq![open_c] + join_render(model));
        }
        let mut j: usize = 1;
        while j < items.len()
            invariant
                1 <= j <= items@.len(),
                model == so_seq_view(items@),
                model.len() == items@.len(),
                forall|k: int| 0 <= k < items@.len() ==> model[k] == so_view(items@[k]),
                out@ + rest_render(model.skip(j as int)) == seq![open_c] + join_render(model),
            decreases items@.len() - j,
        {
            let ghost before = out@;
            crate::tokenise::push_char(&mut out, ' ');
            let next = items[j].to_debug_string();
            out.append(next.as_str());
            proof {
                let rest = model.skip(j as int);
                assert(rest[0] == model[j as int]);
                assert(rest.drop_first() =~= model.skip(j + 1));
                assert(rest_render(rest) == seq![' '] + debug_render(model[j as int])
                    + rest_render(model.skip(j + 1)));
                assert(out@ =~= before + seq![' '] + debug_render(model[j as int]));
                assert(out@ + rest_render(model.skip(j + 1)) =~= before + rest_render(rest));
            }
            j = j + 1;
        }
        proof {
            assert(model.skip(items@.len() as int).len() == 0);
            assert(out@ =~= seq![open_c] + join_render(model));
        }
    } else {
        proof {
            assert(out@ =~= seq![open_c] + join_render(model));
        }
    }
    crate::tokenise::push_char(&mut out, close_c);
    proof {
        assert(out@ =~= seq![open_c] + join_render(model) + seq![close_c]);
    }
    out
}

/// Types that can be turned into a `SchemeObject::Symbol` without error.
pub trait SymFrom<T: View<V = Seq<char>>> {
    /// Create a `SchemeObject::Symbol` whose name is the characters of `s`.
    fn sym_from(s: T) -> (r: SchemeObject)
        ensures
            r@ == ScmExpr::Symbol(s@),
    ;
}

impl<'a> SymFrom<&'a str> for SchemeObject {
    fn sym_from(s: &'a str) -> (r: SchemeObject) {
        SchemeObject::Symbol(s.to_owned())
    }
}

impl<'a> SymFrom<&'a String> for SchemeObject {
    fn sym_from(s: &'a String) -> (r: SchemeObject) {
        SchemeObject::Symbol(s.clone())
    }
}

impl SymFrom<String> for SchemeObject {
    fn sym_from(s: String) -> (r: SchemeObject) {
        SchemeObject::Symbol(s)
    }
}

/// Creates a `SchemeObject::String`.
impl From<String> for SchemeObject {
    fn from(s: String) -> (r: SchemeObject) {
        SchemeObject::String(s)
    }
}

impl vstd::std_specs::convert::FromSpecImpl<String> for SchemeObject {
    open spec fn obeys_from_spec() -> bool {
        true
    }

    open spec fn from_spec(s: String) -> SchemeObject {
        SchemeObject::String(s)
    }
}

/// Creates a `SchemeObject::Bool`.
impl From<bool> for SchemeObject {
    fn from(b: bool) -> (r: SchemeObject) {
        SchemeObject::Bool(b)
    }
}

impl vstd::std_specs::convert::FromSpecImpl<bool> for SchemeObject {
    open spec fn obeys_from_spec() -> bool {
        true
    }

    open spec fn from_spec(b: bool) -> SchemeObject {
        SchemeObject::Bool(b)
    }
}

} // verus!
