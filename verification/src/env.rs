//! The environment: the values that names are bound to.

use vstd::prelude::*;
use vstd::string::*;
use crate::text::str_eq;
use crate::value::{SpecVal, Val};

verus! {

/// A mapping from names to values. Each name is bound at most once.
pub struct Env {
    names: Vec<String>,
    values: Vec<Val>,
}

impl Env {
    /// As many values as names, and no name twice.
    pub closed spec fn wf(&self) -> bool {
        &&& self.names@.len() == self.values@.len()
        &&& forall|i: int, j: int|
            0 <= i < j < self.names@.len() ==> self.names@[i]@ != self.names@[j]@
    }

    /// The index at which a name is bound, if it is bound.
    closed spec fn index_of(&self, name: Seq<char>) -> Option<int> {
        if exists|i: int| 0 <= i < self.names@.len() && self.names@[i]@ == name {
            Some(choose|i: int| 0 <= i < self.names@.len() && self.names@[i]@ == name)
        } else {
            None
        }
    }

    /// An environment that binds no name.
    pub fn new() -> (r: Env)
        ensures
            r.wf(),
            r@ == Map::<Seq<char>, SpecVal>::empty(),
    {
        let r = Env { names: Vec::new(), values: Vec::new() };
        assert(r@ =~= Map::<Seq<char>, SpecVal>::empty());
        r
    }

    /// The value that a name is bound to.
    pub fn lookup(&self, name: &str) -> (r: Option<Val>)
        requires
            self.wf(),
        ensures
            (match r {
                Some(v) => self@.contains_key(name@) && self@[name@] == v@,
                None => !self@.contains_key(name@),
            }),
    {
        let mut i: usize = 0;
        while i < self.names.len()
            invariant
                self.wf(),
                0 <= i <= self.names@.len(),
                forall|j: int| 0 <= j < i ==> self.names@[j]@ != name@,
            decreases self.names@.len() - i,
        {
            if str_eq(self.names[i].as_str(), name) {
                assert(self.index_of(name@) == Some(i as int));
                return Some(self.values[i].clone());
            }
            i = i + 1;
        }
        None
    }

    /// Binds a name to a value, in place of what it was bound to.
    pub fn bind(&mut self, name: String, value: Val)
        requires
            old(self).wf(),
        ensures
            final(self).wf(),
            final(self)@ == old(self)@.insert(name@, value@),
    {
        let mut i: usize = 0;
        while i < self.names.len()
            invariant
                *self == *old(self),
                self.wf(),
                0 <= i <= self.names@.len(),
                forall|j: int| 0 <= j < i ==> self.names@[j]@ != name@,
            decreases self.names@.len() - i,
        {
            if str_eq(self.names[i].as_str(), name.as_str()) {
                let ghost bound = value@;
                self.values[i] = value;
                proof {
                    assert forall|k: Seq<char>| #[trigger]
                        self.index_of(k) == old(self).index_of(k) by {}
                    assert(self.index_of(name@) == Some(i as int));
                    assert(self@ =~= old(self)@.insert(name@, bound));
                }
                return;
            }
            i = i + 1;
        }
        let ghost bound = value@;
        let ghost last = self.names@.len() as int;
        self.names.push(name);
        self.values.push(value);
        proof {
            assert(self.names@[last]@ == name@);
            assert(self.index_of(name@) is Some);
            assert(self.index_of(name@) == Some(last)) by {
                let i = self.index_of(name@)->0;
                if i < last {
                    assert(self.names@[i] == old(self).names@[i]);
                }
            }
            assert forall|k: Seq<char>| k != name@ implies #[trigger] self.index_of(k) == old(
                self,
            ).index_of(k) by {
                if old(self).index_of(k) is Some {
                    let i = old(self).index_of(k)->0;
                    assert(self.names@[i]@ == k);
                    assert(self.index_of(k) is Some);
                }
                if self.index_of(k) is Some {
                    let i = self.index_of(k)->0;
                    assert(old(self).names@[i]@ == k);
                    let j = old(self).index_of(k)->0;
                    assert(self.names@[j]@ == k);
                }
            }
            assert(self@ =~= old(self)@.insert(name@, bound));
        }
    }
}

impl View for Env {
    type V = Map<Seq<char>, SpecVal>;

    closed spec fn view(&self) -> Map<Seq<char>, SpecVal> {
        Map::new(
            |name: Seq<char>| self.index_of(name) is Some,
            |name: Seq<char>| self.values@[self.index_of(name)->0]@,
        )
    }
}

} // verus!
