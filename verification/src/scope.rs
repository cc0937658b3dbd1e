//! Nested lexical scopes: a stack of mappings from names to values, in
//! which an inner binding shadows an outer one of the same name. Each
//! scope is a hash map keyed by the name.

use vstd::prelude::*;
use vstd::hash_map::StringHashMap;

verus! {

/// What `key` is bound to in a stack of scopes: its binding in the
/// innermost scope that binds it. The last scope is the innermost.
pub open spec fn resolve<V>(scopes: Seq<Map<Seq<char>, V>>, key: Seq<char>) -> Option<V>
    decreases scopes.len(),
{
    if scopes.len() == 0 {
        None
    } else if scopes.last().dom().contains(key) {
        Some(scopes.last()[key])
    } else {
        resolve(scopes.drop_last(), key)
    }
}

/// The innermost scope that binds `key`, by its position in the stack,
/// counted from the outermost.
pub open spec fn holder<V>(scopes: Seq<Map<Seq<char>, V>>, key: Seq<char>) -> Option<int>
    decreases scopes.len(),
{
    if scopes.len() == 0 {
        None
    } else if scopes.last().dom().contains(key) {
        Some(scopes.len() - 1)
    } else {
        holder(scopes.drop_last(), key)
    }
}

/// The scope that holds a name is one of the scopes and binds the name to
/// what the name resolves to; no scope inside it binds the name.
pub proof fn lemma_holder<V>(scopes: Seq<Map<Seq<char>, V>>, key: Seq<char>)
    ensures
        match holder(scopes, key) {
            Some(at) => {
                &&& 0 <= at < scopes.len()
                &&& scopes[at].dom().contains(key)
                &&& resolve(scopes, key) == Some(scopes[at][key])
                &&& forall|i: int|
                    at < i < scopes.len() ==> !(#[trigger] scopes[i]).dom().contains(key)
            },
            None => {
                &&& resolve(scopes, key) is None
                &&& forall|i: int|
                    0 <= i < scopes.len() ==> !(#[trigger] scopes[i]).dom().contains(key)
            },
        },
    decreases scopes.len(),
{
    if scopes.len() > 0 && !scopes.last().dom().contains(key) {
        lemma_holder(scopes.drop_last(), key);
        assert forall|i: int| 0 <= i < scopes.len() - 1 implies scopes[i]
            == scopes.drop_last()[i] by {
        }
    }
}

/// A stack of scopes, each a hash map from names to what they are bound
/// to in one block. The scope pushed last is the innermost.
#[verifier::reject_recursive_types(V)]
pub struct NestedScope<V>(Vec<StringHashMap<V>>);

impl<V> View for NestedScope<V> {
    type V = Seq<Map<Seq<char>, V>>;

    closed spec fn view(&self) -> Seq<Map<Seq<char>, V>> {
        Seq::new(self.0@.len(), |i: int| self.0@[i]@)
    }
}

impl<V> NestedScope<V> {
    /// A stack of one scope that binds nothing.
    pub fn empty() -> (r: Self)
        ensures
            r@ == seq![Map::<Seq<char>, V>::empty()],
    {
        let mut scopes = Vec::new();
        scopes.push(StringHashMap::new());
        let r = NestedScope(scopes);
        r
    }

    /// Enters a scope that binds nothing yet.
    pub fn push(&mut self)
        ensures
            final(self)@ == old(self)@.push(Map::<Seq<char>, V>::empty()),
    {
        self.0.push(StringHashMap::new());
    }

    /// Leaves the innermost scope and hands it back.
    pub fn pop(&mut self) -> (r: StringHashMap<V>)
        requires
            old(self)@.len() > 0,
        ensures
            final(self)@ == old(self)@.drop_last(),
            r@ == old(self)@.last(),
    {
        let r = self.0.pop().unwrap();
        r
    }

    /// Binds `k` to `v` in the innermost scope.
    pub fn set(&mut self, k: String, v: V)
        requires
            old(self)@.len() > 0,
        ensures
            final(self)@ == old(self)@.update(
                old(self)@.len() - 1,
                old(self)@.last().insert(k@, v),
            ),
    {
        let mut top = self.0.pop().unwrap();
        top.insert(k, v);
        self.0.push(top);
    }

    /// What `k` is bound to: its binding in the innermost scope that
    /// binds it.
    pub fn get(&self, k: &str) -> (r: Option<&V>)
        ensures
            match r {
                Some(value) => resolve(self@, k@) == Some(*value),
                None => resolve(self@, k@) is None,
            },
    {
        let mut i: usize = self.0.len();
        assert(self@.take(i as int) =~= self@);
        while i > 0
            invariant
                i <= self.0@.len(),
                resolve(self@, k@) == resolve(self@.take(i as int), k@),
            decreases i,
        {
            let ghost upto = self@.take(i as int);
            assert(upto.drop_last() =~= self@.take(i as int - 1));
            i -= 1;
            match self.0[i].get(k) {
                Some(value) => {
                    return Some(value);
                },
                None => {},
            }
        }
        None
    }

    /// Takes the binding of `k` in the innermost scope away, if it has one.
    pub fn unset(&mut self, k: String)
        requires
            old(self)@.len() > 0,
        ensures
            final(self)@ == old(self)@.update(
                old(self)@.len() - 1,
                old(self)@.last().remove(k@),
            ),
    {
        let top = self.0.len() - 1;
        self.0[top].remove(k.as_str());
    }

    /// The innermost scope that binds `k`, by its position counted from
    /// the outermost, and what it binds `k` to.
    pub fn find(&self, k: &str) -> (r: Option<(usize, &V)>)
        ensures
            match r {
                Some((at, value)) => holder(self@, k@) == Some(at as int) && at < self@.len()
                    && self@[at as int].dom().contains(k@) && self@[at as int][k@] == *value,
                None => holder(self@, k@) is None,
            },
    {
        let mut i: usize = self.0.len();
        assert(self@.take(i as int) =~= self@);
        while i > 0
            invariant
                i <= self.0@.len(),
                holder(self@, k@) == holder(self@.take(i as int), k@),
            decreases i,
        {
            let ghost upto = self@.take(i as int);
            assert(upto.drop_last() =~= self@.take(i as int - 1));
            i -= 1;
            match self.0[i].get(k) {
                Some(value) => {
                    return Some((i, value));
                },
                None => {},
            }
        }
        None
    }

    /// What the scope at `depth`, counted from the outermost, binds `k`
    /// to.
    pub fn get_in(&self, depth: usize, k: &str) -> (r: Option<&V>)
        requires
            depth < self@.len(),
        ensures
            match r {
                Some(value) => self@[depth as int].dom().contains(k@) && self@[depth as int][k@]
                    == *value,
                None => !self@[depth as int].dom().contains(k@),
            },
    {
        self.0[depth].get(k)
    }

    /// Binds `k` to `v` in the scope at `depth`, counted from the
    /// outermost.
    pub fn set_in(&mut self, depth: usize, k: String, v: V)
        requires
            depth < old(self)@.len(),
        ensures
            final(self)@ == old(self)@.update(depth as int, old(self)@[depth as int].insert(k@, v)),
    {
        self.0[depth].insert(k, v);
    }

    /// The number of scopes entered and not left.
    pub fn depth(&self) -> (r: usize)
        ensures
            r == self@.len(),
    {
        self.0.len()
    }
}

} // verus!
