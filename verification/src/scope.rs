//! Scopes: names bound to values, with the mixin and function
//! namespaces kept apart from the variables.

use vstd::prelude::*;
use crate::lexer::Token;
use crate::strutil::str_eq;
use crate::value::{value_model, Value, ValueModel};

verus! {

/// A mixin: parameter names and the body tokens, replayed at each
/// inclusion.
#[derive(Debug)]
pub struct Mixin {
    pub args: Vec<String>,
    pub body: Vec<Token>,
}

/// A user-defined function: parameter names and the body tokens.
#[derive(Debug)]
pub struct Function {
    pub args: Vec<String>,
    pub body: Vec<Token>,
}

/// The mapping a variable namespace stands for: the last write wins.
pub open spec fn scope_map(v: Seq<(String, Value)>) -> Map<Seq<char>, ValueModel>
    decreases v.len(),
{
    if v.len() == 0 {
        Map::empty()
    } else {
        scope_map(v.drop_last()).insert(v.last().0@, value_model(v.last().1))
    }
}

/// Entries after a point that do not bind a name leave its binding alone.
proof fn lemma_scope_map_skip(v: Seq<(String, Value)>, j: int, n: Seq<char>)
    requires
        0 <= j <= v.len(),
        forall|l: int| j <= l < v.len() ==> (#[trigger] v[l].0)@ != n,
    ensures
        scope_map(v).contains_key(n) == scope_map(v.subrange(0, j)).contains_key(n),
        scope_map(v).contains_key(n) ==> scope_map(v)[n] == scope_map(v.subrange(0, j))[n],
    decreases v.len() - j,
{
    if j < v.len() {
        lemma_scope_map_skip(v.drop_last(), j, n);
        assert(v.drop_last() =~= v.subrange(0, v.len() - 1));
        assert(forall|l: int| j <= l < v.drop_last().len() ==> (#[trigger] v.drop_last()[l].0)@ != n);
        assert(v.drop_last().subrange(0, j) =~= v.subrange(0, j));
    } else {
        assert(v.subrange(0, j) =~= v);
    }
}

/// Scopes hold variables; mixins and functions live in namespaces of
/// their own.
#[derive(Debug)]
pub struct Scope {
    pub vars: Vec<(String, Value)>,
    pub mixins: Vec<(String, Mixin)>,
    pub functions: Vec<(String, Function)>,
}

impl Scope {
    /// The mapping the variables stand for.
    pub open spec fn var_map(self) -> Map<Seq<char>, ValueModel> {
        scope_map(self.vars@)
    }

    pub fn new() -> (s: Scope)
        ensures
            s.var_map() == Map::<Seq<char>, ValueModel>::empty(),
            s.mixins@.len() == 0,
            s.functions@.len() == 0,
    {
        let s = Scope { vars: Vec::new(), mixins: Vec::new(), functions: Vec::new() };
        proof {
            assert(s.var_map() =~= Map::<Seq<char>, ValueModel>::empty());
        }
        s
    }

    /// Binds a variable; a later write shadows an earlier one.
    pub fn insert_var(&mut self, name: String, val: Value)
        ensures
            final(self).var_map() == old(self).var_map().insert(name@, value_model(val)),
            final(self).mixins@ == old(self).mixins@,
            final(self).functions@ == old(self).functions@,
    {
        let ghost n: Seq<char> = name@;
        let ghost m: ValueModel = value_model(val);
        self.vars.push((name, val));
        proof {
            assert(self.vars@.drop_last() =~= old(self).vars@);
        }
    }

    /// Looks a variable up; the last write is found.
    pub fn get_var(&self, name: &str) -> (r: Option<Value>)
        ensures
            self.var_map().contains_key(name@) ==> (r matches Some(v) && value_model(v)
                == self.var_map()[name@]),
            !self.var_map().contains_key(name@) ==> r is None,
    {
        let mut j: usize = self.vars.len();
        #[verifier::loop_isolation(false)]
        while j > 0
            invariant
                j <= self.vars@.len(),
                forall|l: int| j <= l < self.vars@.len() ==> (#[trigger] self.vars@[l].0)@ != name@,
            decreases j,
        {
            j = j - 1;
            if str_eq(self.vars[j].0.as_str(), name) {
                let v = self.vars[j].1.clone_value();
                proof {
                    lemma_scope_map_skip(self.vars@, j + 1, name@);
                    assert(self.vars@.subrange(0, j + 1 as int).drop_last() =~= self.vars@.subrange(
                        0,
                        j as int,
                    ));
                    assert(self.vars@.subrange(0, j + 1 as int).last() == self.vars@[j as int]);
                }
                return Some(v);
            }
        }
        proof {
            lemma_scope_map_skip(self.vars@, 0, name@);
            assert(self.vars@.subrange(0, 0) =~= Seq::<(String, Value)>::empty());
        }
        None
    }

    /// Stores a mixin under its name.
    pub fn insert_mixin(&mut self, name: String, m: Mixin)
        ensures
            final(self).mixins@ == old(self).mixins@.push((name, m)),
            final(self).vars@ == old(self).vars@,
            final(self).functions@ == old(self).functions@,
    {
        self.mixins.push((name, m));
    }

    /// Stores a function under its name.
    pub fn insert_function(&mut self, name: String, f: Function)
        ensures
            final(self).functions@ == old(self).functions@.push((name, f)),
            final(self).vars@ == old(self).vars@,
            final(self).mixins@ == old(self).mixins@,
    {
        self.functions.push((name, f));
    }

    /// Finds the last mixin stored under a name.
    pub fn get_mixin_index(&self, name: &str) -> (r: Option<usize>)
        ensures
            r matches Some(j) ==> j < self.mixins@.len() && self.mixins@[j as int].0@ == name@,
            r is None ==> forall|l: int|
                0 <= l < self.mixins@.len() ==> (#[trigger] self.mixins@[l].0)@ != name@,
    {
        let mut j: usize = self.mixins.len();
        #[verifier::loop_isolation(false)]
        while j > 0
            invariant
                j <= self.mixins@.len(),
                forall|l: int|
                    j <= l < self.mixins@.len() ==> (#[trigger] self.mixins@[l].0)@ != name@,
            decreases j,
        {
            j = j - 1;
            if str_eq(self.mixins[j].0.as_str(), name) {
                return Some(j);
            }
        }
        None
    }

    /// Finds the last function stored under a name.
    pub fn get_function_index(&self, name: &str) -> (r: Option<usize>)
        ensures
            r matches Some(j) ==> j < self.functions@.len() && self.functions@[j as int].0@
                == name@,
            r is None ==> forall|l: int|
                0 <= l < self.functions@.len() ==> (#[trigger] self.functions@[l].0)@ != name@,
    {
        let mut j: usize = self.functions.len();
        #[verifier::loop_isolation(false)]
        while j > 0
            invariant
                j <= self.functions@.len(),
                forall|l: int|
                    j <= l < self.functions@.len() ==> (#[trigger] self.functions@[l].0)@ != name@,
            decreases j,
        {
            j = j - 1;
            if str_eq(self.functions[j].0.as_str(), name) {
                return Some(j);
            }
        }
        None
    }
}

} // verus!
