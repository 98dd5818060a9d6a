//! Name lookup: a chain of mutable name-to-value scopes.
//!
//! Scopes live in an arena and refer to their parents by index, so any
//! number of closures can keep a scope alive; scope 0 is the global
//! environment, the unique scope with no parent, and every other scope's
//! parent was created before it. The arena also carries the output log
//! that the `display` built-in appends to, for the front end to drain.

use vstd::prelude::*;

use crate::runtime::{rt_view, val_wf, RuntimeObject, ScmVal};
use crate::str_eq;

verus! {

/// Mathematical model of one scope: its parent's index, if any, and its
/// bindings as a map from names to values.
pub struct ScopeModel {
    pub parent: Option<int>,
    pub names: Map<Seq<char>, ScmVal>,
}

/// Mathematical model of the whole runtime state: every scope ever
/// created, and the output log.
pub struct EnvModel {
    pub scopes: Seq<ScopeModel>,
    pub output: Seq<Seq<char>>,
}

/// The bindings of an association list, later entries shadowing earlier
/// ones.
pub open spec fn names_map(s: Seq<(String, RuntimeObject)>) -> Map<Seq<char>, ScmVal>
    decreases s.len(),
{
    if s.len() == 0 {
        Map::empty()
    } else {
        names_map(s.drop_last()).insert(s.last().0@, rt_view(s.last().1))
    }
}

/// A well-formed arena: scope 0 is the one scope with no parent, every
/// other scope's parent comes before it, and every closure stored
/// anywhere captures a scope of the arena.
pub open spec fn scopes_wf(scopes: Seq<ScopeModel>) -> bool {
    &&& scopes.len() >= 1
    &&& forall|i: int|
        0 <= i < scopes.len() ==> match (#[trigger] scopes[i]).parent {
            Option::None => i == 0,
            Option::Some(p) => i > 0 && 0 <= p < i,
        }
    &&& forall|i: int, k: Seq<char>|
        0 <= i < scopes.len() && #[trigger] scopes[i].names.contains_key(k) ==> val_wf(
            scopes[i].names[k],
            scopes.len() as int,
        )
}

/// How evaluation may change the runtime state: scopes are never
/// removed, and the arena stays well formed.
pub open spec fn state_ok(pre: EnvModel, post: EnvModel) -> bool {
    &&& scopes_wf(post.scopes)
    &&& pre.scopes.len() <= post.scopes.len()
}

/// What looking a name up from scope `sid` yields: the nearest binding
/// along the parent chain, if there is one.
pub open spec fn lookup_chain(scopes: Seq<ScopeModel>, sid: int, name: Seq<char>) -> Option<ScmVal>
    decreases sid,
{
    if sid < 0 || sid >= scopes.len() {
        Option::None
    } else if scopes[sid].names.contains_key(name) {
        Option::Some(scopes[sid].names[name])
    } else {
        match scopes[sid].parent {
            Option::Some(p) => if 0 <= p < sid {
                lookup_chain(scopes, p, name)
            } else {
                Option::None
            },
            Option::None => Option::None,
        }
    }
}

/// The arena after binding `name` to `v` in scope `sid` alone.
pub open spec fn scopes_set(
    scopes: Seq<ScopeModel>,
    sid: int,
    name: Seq<char>,
    v: ScmVal,
) -> Seq<ScopeModel> {
    scopes.update(
        sid,
        ScopeModel { parent: scopes[sid].parent, names: scopes[sid].names.insert(name, v) },
    )
}

/// The arena after a global definition issued from scope `sid`: any
/// binding of `name` in that scope alone is removed, so that it no longer
/// shadows the fresh global, and `name` is bound to `v` in the global
/// scope.
pub open spec fn scopes_set_global(
    scopes: Seq<ScopeModel>,
    sid: int,
    name: Seq<char>,
    v: ScmVal,
) -> Seq<ScopeModel> {
    let cleared = scopes.update(
        sid,
        ScopeModel { parent: scopes[sid].parent, names: scopes[sid].names.remove(name) },
    );
    cleared.update(
        0,
        ScopeModel { parent: cleared[0].parent, names: cleared[0].names.insert(name, v) },
    )
}

/// The arena after creating a child scope of `parent`, with no bindings.
pub open spec fn scopes_push(scopes: Seq<ScopeModel>, parent: int) -> Seq<ScopeModel> {
    scopes.push(ScopeModel { parent: Option::Some(parent), names: Map::empty() })
}

/// Binding a well-formed value keeps the arena well formed.
pub proof fn lemma_wf_set(scopes: Seq<ScopeModel>, sid: int, name: Seq<char>, v: ScmVal)
    requires
        scopes_wf(scopes),
        0 <= sid < scopes.len(),
        val_wf(v, scopes.len() as int),
    ensures
        scopes_wf(scopes_set(scopes, sid, name, v)),
{
}

/// A global definition of a well-formed value keeps the arena well
/// formed.
pub proof fn lemma_wf_set_global(scopes: Seq<ScopeModel>, sid: int, name: Seq<char>, v: ScmVal)
    requires
        scopes_wf(scopes),
        0 <= sid < scopes.len(),
        val_wf(v, scopes.len() as int),
    ensures
        scopes_wf(scopes_set_global(scopes, sid, name, v)),
{
}

/// A new scope under a valid parent keeps the arena well formed.
pub proof fn lemma_wf_push(scopes: Seq<ScopeModel>, parent: int)
    requires
        scopes_wf(scopes),
        0 <= parent < scopes.len(),
    ensures
        scopes_wf(scopes_push(scopes, parent)),
{
    let r = scopes_push(scopes, parent);
    assert forall|i: int, k: Seq<char>|
        0 <= i < r.len() && #[trigger] r[i].names.contains_key(k) implies val_wf(
        r[i].names[k],
        r.len() as int,
    ) by {
        if i < scopes.len() {
            assert(scopes[i].names.contains_key(k));
        }
    }
}

/// Whatever lookup finds in a well-formed arena is itself well formed.
pub proof fn lemma_lookup_wf(scopes: Seq<ScopeModel>, sid: int, name: Seq<char>)
    requires
        scopes_wf(scopes),
        lookup_chain(scopes, sid, name) is Some,
    ensures
        val_wf(lookup_chain(scopes, sid, name)->Some_0, scopes.len() as int),
    decreases sid,
{
    if 0 <= sid < scopes.len() {
        if scopes[sid].names.contains_key(name) {
        } else {
            match scopes[sid].parent {
                Option::Some(p) => {
                    if 0 <= p < sid {
                        lemma_lookup_wf(scopes, p, name);
                    }
                },
                Option::None => {},
            }
        }
    }
}

/// One scope of the arena.
struct Scope {
    parent: Option<usize>,
    names: Vec<(String, RuntimeObject)>,
}

impl Scope {
    /// The model of this scope.
    spec fn model(&self) -> ScopeModel {
        ScopeModel {
            parent: match self.parent {
                Option::Some(p) => Option::Some(p as int),
                Option::None => Option::None,
            },
            names: names_map(self.names@),
        }
    }
}

/// Stores every scope from which variables are looked up, and the output
/// log of the `display` built-in.
pub struct Environment {
    scopes: Vec<Scope>,
    output: Vec<String>,
}

impl View for Environment {
    type V = EnvModel;

    closed spec fn view(&self) -> EnvModel {
        EnvModel {
            scopes: Seq::new(self.scopes@.len(), |i: int| self.scopes@[i].model()),
            output: Seq::new(self.output@.len(), |i: int| self.output@[i]@),
        }
    }
}

/// Looks `name` up in one association list, the latest binding first.
fn assoc_find(names: &Vec<(String, RuntimeObject)>, name: &String) -> (r: Option<RuntimeObject>)
    ensures
        match r {
            Option::Some(v) => names_map(names@).contains_key(name@) && v@ == names_map(
                names@,
            ).index(name@),
            Option::None => !names_map(names@).contains_key(name@),
        },
{
    proof {
        assert(names@.take(names@.len() as int) =~= names@);
    }
    let mut i: usize = names.len();
    while i > 0
        invariant
            i <= names@.len(),
            names_map(names@).contains_key(name@) == names_map(
                names@.take(i as int),
            ).contains_key(name@),
            names_map(names@).contains_key(name@) ==> names_map(names@)[name@] == names_map(
                names@.take(i as int),
            )[name@],
        decreases i,
    {
        i = i - 1;
        let entry = &names[i];
        proof {
            assert(names@.take(i + 1).drop_last() =~= names@.take(i as int));
            assert(names@.take(i + 1).last() == names@[i as int]);
        }
        if str_eq(entry.0.as_str(), name.as_str()) {
            return Option::Some(entry.1.duplicate());
        }
    }
    proof {
        assert(names@.take(0) =~= Seq::<(String, RuntimeObject)>::empty());
    }
    Option::None
}

/// Appends a binding to an association list: the map gains it, shadowing
/// any earlier entry of the same name.
fn assoc_set(names: &mut Vec<(String, RuntimeObject)>, name: String, val: RuntimeObject)
    ensures
        names_map(final(names)@) == names_map(old(names)@).insert(name@, val@),
{
    let ghost before = names@;
    names.push((name, val));
    proof {
        assert(names@.drop_last() =~= before);
    }
}

/// Removes every binding of `name` from an association list.
fn assoc_remove(names: &mut Vec<(String, RuntimeObject)>, name: &String)
    ensures
        names_map(final(names)@) == names_map(old(names)@).remove(name@),
{
    let ghost whole = names@;
    let mut kept: Vec<(String, RuntimeObject)> = Vec::new();
    let mut i: usize = 0;
    while i < names.len()
        invariant
            i <= whole.len(),
            names@ == whole,
            names_map(kept@) == names_map(whole.take(i as int)).remove(name@),
        decreases whole.len() - i,
    {
        let entry = &names[i];
        proof {
            assert(whole.take(i + 1).drop_last() =~= whole.take(i as int));
            assert(whole.take(i + 1).last() == whole[i as int]);
        }
        let ghost kept_before = kept@;
        if !str_eq(entry.0.as_str(), name.as_str()) {
            kept.push((entry.0.clone(), entry.1.duplicate()));
            proof {
                let k = whole[i as int].0@;
                let v = rt_view(whole[i as int].1);
                assert(kept@.drop_last() =~= kept_before);
                assert(names_map(kept@) == names_map(kept_before).insert(k, v));
                assert(names_map(whole.take(i as int)).insert(k, v).remove(name@)
                    =~= names_map(whole.take(i as int)).remove(name@).insert(k, v));
            }
        } else {
            proof {
                let k = whole[i as int].0@;
                assert(k == name@);
                assert(names_map(whole.take(i as int)).insert(
                    k,
                    rt_view(whole[i as int].1),
                ).remove(name@) =~= names_map(whole.take(i as int)).remove(name@));
            }
        }
        i = i + 1;
    }
    proof {
        assert(whole.take(whole.len() as int) =~= whole);
    }
    *names = kept;
}

impl Environment {
    /// Create a new runtime state: an arena holding just the global
    /// scope, and an empty output log.
    pub fn new() -> (r: Environment)
        ensures
            r@.scopes =~= seq![
                ScopeModel { parent: Option::None, names: Map::<Seq<char>, ScmVal>::empty() },
            ],
            r@.output =~= Seq::<Seq<char>>::empty(),
            scopes_wf(r@.scopes),
    {
        let mut scopes: Vec<Scope> = Vec::new();
        scopes.push(Scope { parent: Option::None, names: Vec::new() });
        let r = Environment { scopes, output: Vec::new() };
        proof {
            assert(r@.scopes =~= seq![
                ScopeModel { parent: Option::None, names: Map::<Seq<char>, ScmVal>::empty() },
            ]);
        }
        r
    }

    /// How many scopes the arena holds.
    pub fn scope_count(&self) -> (n: usize)
        ensures
            n == self@.scopes.len(),
    {
        self.scopes.len()
    }

    /// Create a new scope whose parent is `parent`, and hand back its
    /// index.
    pub fn new_scope(&mut self, parent: usize) -> (sid: usize)
        requires
            parent < old(self)@.scopes.len(),
        ensures
            sid == old(self)@.scopes.len(),
            final(self)@.scopes =~= scopes_push(old(self)@.scopes, parent as int),
            final(self)@.output == old(self)@.output,
    {
        let sid = self.scopes.len();
        self.scopes.push(Scope { parent: Option::Some(parent), names: Vec::new() });
        proof {
            assert(final(self)@.scopes =~= scopes_push(old(self)@.scopes, parent as int));
            assert(final(self)@.output =~= old(self)@.output);
        }
        sid
    }

    /// Look a variable up from scope `sid`: this scope's bindings first,
    /// then the parent chain.
    pub fn lookup(&self, sid: usize, name: &String) -> (r: Option<RuntimeObject>)
        requires
            scopes_wf(self@.scopes),
            sid < self@.scopes.len(),
        ensures
            match r {
                Option::Some(v) => lookup_chain(self@.scopes, sid as int, name@)
                    == Option::Some(v@),
                Option::None => lookup_chain(self@.scopes, sid as int, name@) is None,
            },
    {
        let mut cur: usize = sid;
        loop
            invariant
                scopes_wf(self@.scopes),
                cur < self@.scopes.len(),
                lookup_chain(self@.scopes, sid as int, name@) == lookup_chain(
                    self@.scopes,
                    cur as int,
                    name@,
                ),
            decreases cur,
        {
            let found = assoc_find(&self.scopes[cur].names, name);
            proof {
                assert(self@.scopes[cur as int] == self.scopes@[cur as int].model());
            }
            match found {
                Option::Some(v) => {
                    return Option::Some(v);
                },
                Option::None => {
                    match self.scopes[cur].parent {
                        Option::Some(p) => {
                            cur = p;
                        },
                        Option::None => {
                            return Option::None;
                        },
                    }
                },
            }
        }
    }

    /// Bind `name` to `val` in scope `sid` alone.
    pub fn set(&mut self, sid: usize, name: String, val: RuntimeObject)
        requires
            sid < old(self)@.scopes.len(),
        ensures
            final(self)@.scopes =~= scopes_set(old(self)@.scopes, sid as int, name@, val@),
            final(self)@.output == old(self)@.output,
    {
        let ghost name_v = name@;
        let ghost val_v = val@;
        assoc_set(&mut self.scopes[sid].names, name, val);
        proof {
            assert(final(self)@.scopes =~= scopes_set(old(self)@.scopes, sid as int, name_v, val_v));
            assert(final(self)@.output =~= old(self)@.output);
        }
    }

    /// Bind `name` to `val` in the global scope, and clear any binding of
    /// `name` in scope `sid` itself so that the new global is visible
    /// from there at once.
    pub fn set_global(&mut self, sid: usize, name: String, val: RuntimeObject)
        requires
            scopes_wf(old(self)@.scopes),
            sid < old(self)@.scopes.len(),
        ensures
            final(self)@.scopes =~= scopes_set_global(old(self)@.scopes, sid as int, name@, val@),
            final(self)@.output == old(self)@.output,
    {
        let ghost name_v = name@;
        let ghost val_v = val@;
        assoc_remove(&mut self.scopes[sid].names, &name);
        proof {
            let cleared = self@.scopes;
            assert(cleared =~= old(self)@.scopes.update(
                sid as int,
                ScopeModel {
                    parent: old(self)@.scopes[sid as int].parent,
                    names: old(self)@.scopes[sid as int].names.remove(name_v),
                },
            ));
            assert forall|i: int, k: Seq<char>|
                0 <= i < cleared.len() && #[trigger] cleared[i].names.contains_key(k) implies
                val_wf(cleared[i].names[k], cleared.len() as int) by {
                assert(old(self)@.scopes[i].names.contains_key(k));
                assert(cleared[i].names[k] == old(self)@.scopes[i].names[k]);
            }
            assert(scopes_wf(cleared));
        }
        self.set_global_priv(sid, name, val);
        proof {
            assert(final(self)@.scopes =~= scopes_set_global(
                old(self)@.scopes,
                sid as int,
                name_v,
                val_v,
            ));
        }
    }

    /// The root of the parent chain that starts at `sid`: always the
    /// global scope.
    fn find_root(&self, sid: usize) -> (r: usize)
        requires
            scopes_wf(self@.scopes),
            sid < self@.scopes.len(),
        ensures
            r == 0,
    {
        let mut cur: usize = sid;
        loop
            invariant
                scopes_wf(self@.scopes),
                cur < self@.scopes.len(),
            decreases cur,
        {
            proof {
                assert(self@.scopes[cur as int] == self.scopes@[cur as int].model());
            }
            match self.scopes[cur].parent {
                Option::Some(p) => {
                    proof {
                        assert(self@.scopes[cur as int].parent == Option::Some(p as int));
                        assert(p < cur);
                    }
                    cur = p;
                },
                Option::None => {
                    proof {
                        assert(self@.scopes[cur as int].parent is None);
                        assert(cur == 0);
                    }
                    return cur;
                },
            }
        }
    }

    /// Only does the traversal to the global scope; scope `sid`'s own
    /// bindings are not touched.
    fn set_global_priv(&mut self, sid: usize, name: String, val: RuntimeObject)
        requires
            scopes_wf(old(self)@.scopes),
            sid < old(self)@.scopes.len(),
        ensures
            final(self)@.scopes =~= scopes_set(old(self)@.scopes, 0, name@, val@),
            final(self)@.output == old(self)@.output,
    {
        let root = self.find_root(sid);
        let ghost name_v = name@;
        let ghost val_v = val@;
        assoc_set(&mut self.scopes[root].names, name, val);
        proof {
            assert(final(self)@.scopes =~= scopes_set(old(self)@.scopes, 0, name_v, val_v));
            assert(final(self)@.output =~= old(self)@.output);
        }
    }

    /// The parent of scope `sid`, if it has one.
    pub fn get_parent(&self, sid: usize) -> (r: Option<usize>)
        requires
            sid < self@.scopes.len(),
        ensures
            match r {
                Option::Some(p) => self@.scopes[sid as int].parent == Option::Some(p as int),
                Option::None => self@.scopes[sid as int].parent is None,
            },
    {
        self.scopes[sid].parent
    }

    /// Change the parent of scope `sid`. The scope tree must stay a tree
    /// rooted in the global scope: only an earlier scope can become the
    /// parent, and the global scope keeps none.
    pub fn set_parent(&mut self, sid: usize, parent: usize)
        requires
            scopes_wf(old(self)@.scopes),
            0 < sid < old(self)@.scopes.len(),
            parent < sid,
        ensures
            final(self)@.scopes =~= old(self)@.scopes.update(
                sid as int,
                ScopeModel {
                    parent: Option::Some(parent as int),
                    names: old(self)@.scopes[sid as int].names,
                },
            ),
            final(self)@.output == old(self)@.output,
            scopes_wf(final(self)@.scopes),
    {
        self.scopes[sid].parent = Option::Some(parent);
        proof {
            assert(final(self)@.scopes =~= old(self)@.scopes.update(
                sid as int,
                ScopeModel {
                    parent: Option::Some(parent as int),
                    names: old(self)@.scopes[sid as int].names,
                },
            ));
            assert(final(self)@.output =~= old(self)@.output);
            let m2 = final(self)@.scopes;
            assert forall|i: int, k: Seq<char>|
                0 <= i < m2.len() && #[trigger] m2[i].names.contains_key(k) implies val_wf(
                m2[i].names[k],
                m2.len() as int,
            ) by {
                assert(old(self)@.scopes[i].names.contains_key(k));
            }
        }
    }

    /// A capacity hint carried over from the original interface: the
    /// logical contents are unchanged.
    pub fn shrink(&mut self, sid: usize)
        requires
            sid < old(self)@.scopes.len(),
        ensures
            *final(self) == *old(self),
    {
    }

    /// Append one rendered line to the output log.
    pub fn append_output(&mut self, text: String)
        ensures
            final(self)@.scopes == old(self)@.scopes,
            final(self)@.output =~= old(self)@.output.push(text@),
    {
        self.output.push(text);
        proof {
            assert(final(self)@.scopes =~= old(self)@.scopes);
            assert(final(self)@.output =~= old(self)@.output.push(text@));
        }
    }

    /// Hand the output log over and clear it, for the front end to print.
    pub fn take_output(&mut self) -> (r: Vec<String>)
        ensures
            crate::runtime::strs_view(r@) =~= old(self)@.output,
            final(self)@.scopes == old(self)@.scopes,
            final(self)@.output =~= Seq::<Seq<char>>::empty(),
    {
        let mut out: Vec<String> = Vec::new();
        core::mem::swap(&mut out, &mut self.output);
        proof {
            assert(crate::runtime::strs_view(out@) =~= old(self)@.output);
            assert(final(self)@.scopes =~= old(self)@.scopes);
            assert(final(self)@.output =~= Seq::<Seq<char>>::empty());
        }
        out
    }
}

} // verus!
