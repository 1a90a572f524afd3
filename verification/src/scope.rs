//! Variable scopes: a global scope plus nested block scopes (an
//! instrument's local variables).

use vstd::prelude::*;

use crate::named_map::NamedMap;

verus! {

/// Looks a name up from the innermost scope outwards.
pub open spec fn lookup_scopes(scopes: Seq<Map<Seq<char>, String>>, k: Seq<char>) -> Option<Seq<char>>
    decreases scopes.len(),
{
    if scopes.len() == 0 {
        None
    } else if scopes.last().contains_key(k) {
        Some(scopes.last()[k]@)
    } else {
        lookup_scopes(scopes.drop_last(), k)
    }
}

/// A stack of variable scopes; the first is the global scope and is never
/// popped.
pub struct ScopeChain {
    scopes: Vec<NamedMap<String>>,
}

impl ScopeChain {
    /// The scopes, outermost (global) first.
    pub closed spec fn view(self) -> Seq<Map<Seq<char>, String>> {
        self.scopes@.map_values(|m: NamedMap<String>| m@)
    }

    /// Well-formed: the global scope exists and no scope holds a name twice.
    pub closed spec fn wf(self) -> bool {
        &&& self.scopes@.len() >= 1
        &&& forall|i: int| 0 <= i < self.scopes@.len() ==> (#[trigger] self.scopes@[i]).wf()
    }

    /// A well-formed chain holds at least the global scope.
    pub proof fn lemma_has_global(self)
        requires
            self.wf(),
        ensures
            self@.len() >= 1,
    {
    }

    /// A chain holding only an empty global scope.
    pub fn new() -> (r: ScopeChain)
        ensures
            r.wf(),
            r@ == seq![Map::<Seq<char>, String>::empty()],
    {
        let mut scopes: Vec<NamedMap<String>> = Vec::new();
        scopes.push(NamedMap::new());
        let r = ScopeChain { scopes };
        assert(r@ =~= seq![Map::<Seq<char>, String>::empty()]);
        r
    }

    /// Number of scopes (at least one).
    pub fn depth(&self) -> (r: usize)
        requires
            self.wf(),
        ensures
            r == self@.len(),
            r >= 1,
    {
        self.scopes.len()
    }

    /// Defines (or redefines) a variable in the global scope.
    pub fn define_global(&mut self, name: String, value: String)
        requires
            old(self).wf(),
        ensures
            final(self).wf(),
            final(self)@ == old(self)@.update(0, old(self)@[0].insert(name@, value)),
    {
        let ghost k = name@;
        let ghost pre = self@;
        let mut g = self.scopes.remove(0);
        g.insert(name, value);
        self.scopes.insert(0, g);
        assert(self@ =~= pre.update(0, pre[0].insert(k, value)));
    }

    /// Defines (or redefines) a variable in the innermost scope.
    pub fn define(&mut self, name: String, value: String)
        requires
            old(self).wf(),
        ensures
            final(self).wf(),
            final(self)@ == old(self)@.update(
                old(self)@.len() - 1,
                old(self)@.last().insert(name@, value),
            ),
    {
        let ghost k = name@;
        let ghost pre = self@;
        let mut top = self.scopes.pop().unwrap();
        top.insert(name, value);
        self.scopes.push(top);
        assert(self@ =~= pre.update(pre.len() - 1, pre.last().insert(k, value)));
    }

    /// Opens a new, empty innermost scope.
    pub fn push_scope(&mut self)
        requires
            old(self).wf(),
        ensures
            final(self).wf(),
            final(self)@ == old(self)@.push(Map::<Seq<char>, String>::empty()),
    {
        let ghost pre = self@;
        self.scopes.push(NamedMap::new());
        assert(self@ =~= pre.push(Map::<Seq<char>, String>::empty()));
    }

    /// Closes the innermost scope; the global scope itself is kept.
    pub fn pop_scope(&mut self)
        requires
            old(self).wf(),
        ensures
            final(self).wf(),
            old(self)@.len() > 1 ==> final(self)@ == old(self)@.drop_last(),
            old(self)@.len() <= 1 ==> final(self)@ == old(self)@,
    {
        let ghost pre = self@;
        if self.scopes.len() > 1 {
            self.scopes.pop();
            assert(self@ =~= pre.drop_last());
        }
    }

    /// The value of `name` in the innermost scope that defines it.
    pub fn resolve(&self, name: &str) -> (r: Option<&str>)
        requires
            self.wf(),
        ensures
            match r {
                Some(v) => lookup_scopes(self@, name@) == Some(v@),
                None => lookup_scopes(self@, name@) is None,
            },
    {
        let mut i: usize = self.scopes.len();
        assert(self@.subrange(0, i as int) =~= self@);
        while i > 0
            invariant
                i <= self.scopes@.len(),
                forall|j: int| 0 <= j < self.scopes@.len() ==> (#[trigger] self.scopes@[j]).wf(),
                lookup_scopes(self@, name@) == lookup_scopes(self@.subrange(0, i as int), name@),
            decreases i,
        {
            let ghost pre = self@.subrange(0, i as int);
            assert(pre.last() == self.scopes@[i - 1]@);
            assert(pre.drop_last() =~= self@.subrange(0, i - 1));
            match self.scopes[i - 1].get(name) {
                Some(v) => {
                    return Some(v.as_str());
                },
                None => {},
            }
            i -= 1;
        }
        None
    }
}

} // verus!
