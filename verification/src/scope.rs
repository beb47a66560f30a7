//! Looking names up in scopes and binding them.

use vstd::prelude::*;
use crate::ast::Text;
use crate::value::{Scope, Value, ValueView, clone_value};

verus! {

/// The first position at or after `from` whose name is `name`.
pub open spec fn first_index<V>(s: Seq<(Text, V)>, name: Text, from: int) -> Option<int>
    decreases s.len() - from,
{
    if from < 0 || from >= s.len() {
        None
    } else if s[from].0 == name {
        Some(from)
    } else {
        first_index(s, name, from + 1)
    }
}

/// The value bound to `name`, if any.
pub open spec fn lookup<V>(s: Seq<(Text, V)>, name: Text) -> Option<V> {
    match first_index(s, name, 0) {
        Some(i) => Some(s[i].1),
        None => None,
    }
}

/// The bindings after `name` has been bound to `v`: rebound in place where it
/// was bound, added at the end where it was not.
pub open spec fn bind<V>(s: Seq<(Text, V)>, name: Text, v: V) -> Seq<(Text, V)> {
    match first_index(s, name, 0) {
        Some(i) => s.update(i, (name, v)),
        None => s.push((name, v)),
    }
}

/// No name is bound twice.
pub open spec fn distinct_names<V>(s: Seq<(Text, V)>) -> bool {
    forall|i: int, j: int| 0 <= i < j < s.len() ==> s[i].0 != s[j].0
}

/// What `first_index` finds is the first binding of the name, and it finds
/// nothing only where the name is not bound.
pub proof fn lemma_first_index<V>(s: Seq<(Text, V)>, name: Text, from: int)
    requires
        0 <= from,
    ensures
        match first_index(s, name, from) {
            Some(i) => from <= i < s.len() && s[i].0 == name && forall|j: int|
                from <= j < i ==> s[j].0 != name,
            None => forall|j: int| from <= j < s.len() ==> s[j].0 != name,
        },
    decreases s.len() - from,
{
    if from < s.len() && s[from].0 != name {
        lemma_first_index(s, name, from + 1);
    }
}

/// After a name has been bound it reads as the new value, every other name
/// reads as before, and names stay distinct.
pub proof fn lemma_bind<V>(s: Seq<(Text, V)>, name: Text, v: V, other: Text)
    ensures
        lookup(bind(s, name, v), name) == Some(v),
        other != name ==> lookup(bind(s, name, v), other) == lookup(s, other),
        distinct_names(s) ==> distinct_names(bind(s, name, v)),
        bind(s, name, v).len() == if lookup(s, name) is Some {
            s.len()
        } else {
            s.len() + 1
        },
{
    let t = bind(s, name, v);
    lemma_first_index(s, name, 0);
    lemma_first_index(t, name, 0);
    lemma_first_index(s, other, 0);
    lemma_first_index(t, other, 0);
    match first_index(s, name, 0) {
        Some(i) => {
            assert(t[i].0 == name);
        },
        None => {
            assert(t[s.len() as int].0 == name);
        },
    }
    if other != name {
        match first_index(s, other, 0) {
            Some(i) => {
                assert(t[i].0 == other);
                assert(t[i] == s[i]);
            },
            None => {},
        }
        match first_index(t, other, 0) {
            Some(i) => {
                assert(i < s.len());
                assert(s[i].0 == other);
            },
            None => {},
        }
    }
}

impl<'a> Scope<'a> {
    /// A scope without bindings.
    pub fn new() -> (r: Self)
        ensures
            r@ == Seq::<(Text, ValueView)>::empty(),
            distinct_names(r@),
    {
        let r = Scope { entries: Vec::new() };
        assert(r@ =~= Seq::<(Text, ValueView)>::empty());
        r
    }

    /// The position of the binding of `name`, if it is bound.
    pub fn position(&self, name: &String) -> (r: Option<usize>)
        ensures
            match r {
                Some(i) => first_index(self@, name@, 0) == Some(i as int),
                None => first_index(self@, name@, 0) is None,
            },
    {
        let mut i: usize = 0;
        while i < self.entries.len()
            invariant
                i <= self.entries.len(),
                self@.len() == self.entries.len(),
                first_index(self@, name@, 0) == first_index(self@, name@, i as int),
            decreases self.entries.len() - i,
        {
            if self.entries[i].0 == *name {
                return Some(i);
            }
            i += 1;
        }
        None
    }

    /// A copy of the value bound to `name`, if it is bound.
    pub fn get(&self, name: &String) -> (r: Option<Value<'a>>)
        ensures
            match r {
                Some(v) => lookup(self@, name@) == Some(v@),
                None => lookup(self@, name@) is None,
            },
    {
        match self.position(name) {
            Some(i) => {
                proof {
                    lemma_first_index(self@, name@, 0);
                }
                Some(clone_value(&self.entries[i].1))
            },
            None => None,
        }
    }

    /// Binds `name` to `value`: defines the name where it is new, rebinds it
    /// where it is bound.
    pub fn insert(&mut self, name: String, value: Value<'a>)
        ensures
            final(self)@ == bind(old(self)@, name@, value@),
            distinct_names(old(self)@) ==> distinct_names(final(self)@),
    {
        proof {
            lemma_bind(self@, name@, value@, name@);
        }
        match self.position(&name) {
            Some(i) => {
                proof {
                    lemma_first_index(self@, name@, 0);
                }
                let ghost before = self@;
                self.entries.set(i, (name, value));
                assert(self@ =~= before.update(i as int, (name@, value@)));
            },
            None => {
                let ghost before = self@;
                self.entries.push((name, value));
                assert(self@ =~= before.push((name@, value@)));
            },
        }
    }
}

} // verus!
