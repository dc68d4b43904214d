//! The variable environment: name-to-value bindings visible to
//! substitution.  Lookups of missing keys yield nothing (the expander
//! turns that into the empty string), never an error.

use vstd::prelude::*;

use crate::chars::str_eq;

verus! {

/// Name-to-value bindings, viewed as a map from name characters to
/// value characters.  The newest binding for a name wins.
pub struct Env {
    items: Vec<(String, String)>,
}

/// The value substitution gives `name`: its binding, or the empty
/// string when it is unbound.
pub open spec fn env_value(m: Map<Seq<char>, Seq<char>>, name: Seq<char>) -> Seq<char> {
    if m.contains_key(name) {
        m[name]
    } else {
        Seq::empty()
    }
}

/// First-match lookup over the binding list.
pub open spec fn assoc(items: Seq<(String, String)>, k: Seq<char>) -> Option<Seq<char>>
    decreases items.len(),
{
    if items.len() == 0 {
        None
    } else if items[0].0@ == k {
        Some(items[0].1@)
    } else {
        assoc(items.drop_first(), k)
    }
}

impl View for Env {
    type V = Map<Seq<char>, Seq<char>>;

    closed spec fn view(&self) -> Map<Seq<char>, Seq<char>> {
        Map::new(
            |k: Seq<char>| assoc(self.items@, k) is Some,
            |k: Seq<char>| assoc(self.items@, k)->0,
        )
    }
}

impl Env {
    /// An empty environment.
    pub fn new() -> (r: Env)
        ensures
            r@ == Map::<Seq<char>, Seq<char>>::empty(),
    {
        let r = Env { items: Vec::new() };
        proof {
            assert(r@ =~= Map::<Seq<char>, Seq<char>>::empty());
        }
        r
    }

    /// Binds `name` to `value`, shadowing any earlier binding.
    pub fn insert(&mut self, name: String, value: String)
        ensures
            final(self)@ == old(self)@.insert(name@, value@),
    {
        let ghost oi = self.items@;
        self.items.insert(0, (name, value));
        proof {
            assert(self.items@.drop_first() =~= oi);
            assert(self@ =~= old(self)@.insert(name@, value@));
        }
    }

    /// Looks the name up; `None` when it is unbound.
    pub fn get(&self, name: &str) -> (r: Option<String>)
        ensures
            r is Some <==> self@.contains_key(name@),
            r is Some ==> r->0@ == self@[name@],
    {
        let mut i: usize = 0;
        proof {
            assert(self.items@.skip(0) =~= self.items@);
        }
        while i < self.items.len()
            invariant
                i <= self.items@.len(),
                assoc(self.items@, name@) == assoc(self.items@.skip(i as int), name@),
            decreases self.items@.len() - i,
        {
            proof {
                assert(self.items@.skip(i as int)[0] == self.items@[i as int]);
                assert(self.items@.skip(i as int).drop_first() =~= self.items@.skip(
                    i as int + 1,
                ));
            }
            if str_eq(self.items[i].0.as_str(), name) {
                let v = self.items[i].1.clone();
                return Some(v);
            }
            i = i + 1;
        }
        proof {
            assert(self.items@.skip(self.items@.len() as int) =~= Seq::<(
                String,
                String,
            )>::empty());
        }
        None
    }
}

} // verus!
