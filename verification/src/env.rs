//! Environments: lists of assignments of values to variable names.
//!
//! An [`Env`] is applied in order, so a later assignment to a name replaces
//! an earlier one. Its view is the map that results.

use crate::text::{bytes_eq, bytes_of, copy_bytes, lit};
use vstd::prelude::*;

verus! {

/// The map that a list of assignments results in.
pub open spec fn env_map(entries: Seq<(Seq<u8>, Seq<u8>)>) -> Map<Seq<u8>, Seq<u8>>
    decreases entries.len(),
{
    if entries.len() == 0 {
        Map::empty()
    } else {
        env_map(entries.drop_last()).insert(entries.last().0, entries.last().1)
    }
}

/// Assignments made one after the other give the later ones the last word.
pub proof fn lemma_env_map_add(a: Seq<(Seq<u8>, Seq<u8>)>, b: Seq<(Seq<u8>, Seq<u8>)>)
    ensures
        env_map(a + b) == env_map(a).union_prefer_right(env_map(b)),
    decreases b.len(),
{
    if b.len() == 0 {
        assert(a + b =~= a);
        assert(env_map(a).union_prefer_right(env_map(b)) =~= env_map(a));
    } else {
        lemma_env_map_add(a, b.drop_last());
        assert((a + b).drop_last() =~= a + b.drop_last());
        assert((a + b).last() == b.last());
        assert(env_map(a + b) =~= env_map(a).union_prefer_right(env_map(b)));
    }
}

/// A list of assignments of values to variable names.
#[derive(Debug, PartialEq, Eq)]
pub struct Env {
    vars: Vec<(Vec<u8>, Vec<u8>)>,
}

impl Env {
    /// The assignments in the order in which they apply.
    pub closed spec fn entries(&self) -> Seq<(Seq<u8>, Seq<u8>)> {
        Seq::new(self.vars@.len(), |i: int| (self.vars@[i].0@, self.vars@[i].1@))
    }
}

impl View for Env {
    type V = Map<Seq<u8>, Seq<u8>>;

    open spec fn view(&self) -> Map<Seq<u8>, Seq<u8>> {
        env_map(self.entries())
    }
}

impl Clone for Env {
    fn clone(&self) -> (out: Self)
        ensures
            out.entries() == self.entries(),
    {
        let mut out = Env::new();
        out.extend(self);
        assert(Seq::<(Seq<u8>, Seq<u8>)>::empty() + self.entries() =~= self.entries());
        out
    }
}

impl Env {
    /// The environment that assigns nothing.
    pub fn new() -> (out: Self)
        ensures
            out.entries() == Seq::<(Seq<u8>, Seq<u8>)>::empty(),
    {
        let out = Env { vars: Vec::new() };
        assert(out.entries() =~= Seq::empty());
        out
    }

    /// The number of assignments.
    pub fn len(&self) -> (n: usize)
        ensures
            n == self.entries().len(),
    {
        self.vars.len()
    }

    /// The name that assignment `i` is to.
    pub fn name(&self, i: usize) -> (out: &Vec<u8>)
        requires
            i < self.entries().len(),
        ensures
            out@ == self.entries()[i as int].0,
    {
        &self.vars[i].0
    }

    /// The value that assignment `i` gives.
    pub fn value(&self, i: usize) -> (out: &Vec<u8>)
        requires
            i < self.entries().len(),
        ensures
            out@ == self.entries()[i as int].1,
    {
        &self.vars[i].1
    }

    /// Adds the assignment of `value` to `name` after all others.
    pub fn set(&mut self, name: Vec<u8>, value: Vec<u8>)
        ensures
            final(self).entries() == old(self).entries().push((name@, value@)),
            final(self)@ == old(self)@.insert(name@, value@),
    {
        let ghost before = self.entries();
        self.vars.push((name, value));
        assert(self.entries() =~= before.push((name@, value@)));
        assert(self.entries().drop_last() =~= before);
    }

    /// Adds the assignment of the text `value` to the name `name`.
    pub fn set_str(&mut self, name: &str, value: &str)
        ensures
            final(self).entries() == old(self).entries().push((lit(name), lit(value))),
            final(self)@ == old(self)@.insert(lit(name), lit(value)),
    {
        self.set(bytes_of(name), bytes_of(value));
    }

    /// Adds the assignments of `other` after all others.
    pub fn extend(&mut self, other: &Env)
        ensures
            final(self).entries() == old(self).entries() + other.entries(),
            final(self)@ == old(self)@.union_prefer_right(other@),
    {
        let mut i: usize = 0;
        assert(old(self).entries() + other.entries().take(0) =~= old(self).entries());
        while i < other.vars.len()
            invariant
                i <= other.vars.len(),
                self.entries() == old(self).entries() + other.entries().take(i as int),
            decreases other.vars.len() - i,
        {
            let name = copy_bytes(&other.vars[i].0);
            let value = copy_bytes(&other.vars[i].1);
            self.set(name, value);
            assert(other.entries().take(i + 1) =~= other.entries().take(i as int).push(
                other.entries()[i as int],
            ));
            assert(self.entries() =~= old(self).entries() + other.entries().take(i + 1));
            i += 1;
        }
        assert(other.entries().take(other.entries().len() as int) =~= other.entries());
        proof {
            lemma_env_map_add(old(self).entries(), other.entries());
        }
    }

    /// The value that `name` ends up with, if it is assigned at all.
    pub fn get(&self, name: &Vec<u8>) -> (out: Option<&Vec<u8>>)
        ensures
            match out {
                Some(value) => self@.dom().contains(name@) && self@[name@] == value@,
                None => !self@.dom().contains(name@),
            },
    {
        let ghost all = self.entries();
        let mut i: usize = self.vars.len();
        assert(all.take(i as int) =~= all);
        while i > 0
            invariant
                i <= self.vars.len(),
                all == self.entries(),
                env_map(all).dom().contains(name@) == env_map(all.take(i as int)).dom().contains(
                    name@,
                ),
                env_map(all).dom().contains(name@) ==> env_map(all)[name@] == env_map(
                    all.take(i as int),
                )[name@],
            decreases i,
        {
            i -= 1;
            proof {
                assert(all.take(i + 1).drop_last() =~= all.take(i as int));
                assert(all.take(i + 1).last() == all[i as int]);
                assert(all[i as int].0 == self.vars@[i as int].0@);
                assert(all[i as int].1 == self.vars@[i as int].1@);
            }
            if bytes_eq(&self.vars[i].0, name) {
                return Some(&self.vars[i].1);
            }
        }
        assert(all.take(0) =~= Seq::empty());
        None
    }

    /// The value that the name `name` ends up with, if it is assigned at all.
    pub fn get_str(&self, name: &str) -> (out: Option<&Vec<u8>>)
        ensures
            match out {
                Some(value) => self@.dom().contains(lit(name)) && self@[lit(name)] == value@,
                None => !self@.dom().contains(lit(name)),
            },
    {
        let key = bytes_of(name);
        self.get(&key)
    }
}

} // verus!
