//! Sets of column names.

use crate::text::same_text;
use vstd::prelude::*;

verus! {

/// A set of column names. No name is held twice.
#[derive(Debug)]
pub struct ColumnSet {
    names: Vec<String>,
}

/// The names that stand in `list`.
pub open spec fn names_in(list: Seq<String>) -> Set<Seq<char>> {
    Set::new(|name: Seq<char>| exists|i: int| 0 <= i < list.len() && #[trigger] list[i]@ == name)
}

impl ColumnSet {
    #[verifier::type_invariant]
    spec fn distinct(self) -> bool {
        forall|i: int, j: int|
            0 <= i < j < self.names@.len() ==> self.names@[i]@ != self.names@[j]@
    }

    /// The names held.
    pub closed spec fn view(&self) -> Set<Seq<char>> {
        names_in(self.names@)
    }

    /// The empty set.
    pub fn new() -> (r: Self)
        ensures
            r@ == Set::<Seq<char>>::empty(),
    {
        let r = ColumnSet { names: Vec::new() };
        assert(r@ =~= Set::<Seq<char>>::empty());
        r
    }

    /// Whether `name` is held.
    pub fn contains(&self, name: &str) -> (r: bool)
        ensures
            r == self@.contains(name@),
    {
        for i in 0..self.names.len()
            invariant
                forall|j: int| 0 <= j < i ==> self.names@[j]@ != name@,
        {
            if same_text(self.names[i].as_str(), name) {
                return true;
            }
        }
        false
    }

    /// Adds `name`; returns whether it is new.
    pub fn insert(&mut self, name: String) -> (r: bool)
        ensures
            final(self)@ == old(self)@.insert(name@),
            r == !old(self)@.contains(name@),
    {
        if self.contains(name.as_str()) {
            assert(self@ =~= self@.insert(name@));
            return false;
        }
        proof {
            use_type_invariant(&*self);
        }
        let ghost before = self.names@;
        let mut names: Vec<String> = Vec::new();
        std::mem::swap(&mut self.names, &mut names);
        names.push(name);
        self.names = names;
        proof {
            assert(self.names@ == before.push(name));
            assert(self.names@.last()@ == name@);
            assert forall|other: Seq<char>| self@.contains(other) == names_in(before).insert(
                name@,
            ).contains(other) by {
                if names_in(before).contains(other) {
                    let i = choose|i: int| 0 <= i < before.len() && #[trigger] before[i]@ == other;
                    assert(self.names@[i]@ == other);
                }
            }
            assert(self@ =~= names_in(before).insert(name@));
        }
        true
    }

    /// The names of a list.
    pub fn from_list(list: &Vec<String>) -> (r: Self)
        ensures
            r@ == names_in(list@),
    {
        let mut r = ColumnSet::new();
        assert(r@ =~= names_in(list@.take(0)));
        for i in 0..list.len()
            invariant
                r@ == names_in(list@.take(i as int)),
        {
            r.insert(list[i].clone());
            proof {
                let part = list@.take(i as int);
                let more = list@.take(i + 1);
                assert(more =~= part.push(list@[i as int]));
                assert(more[i as int]@ == list@[i as int]@);
                assert forall|name: Seq<char>| names_in(more).contains(name) == names_in(
                    part,
                ).insert(list@[i as int]@).contains(name) by {
                    if names_in(part).contains(name) {
                        let j = choose|j: int| 0 <= j < part.len() && #[trigger] part[j]@ == name;
                        assert(more[j]@ == name);
                    }
                }
                assert(names_in(more) =~= names_in(part).insert(list@[i as int]@));
            }
        }
        assert(list@.take(list@.len() as int) =~= list@);
        r
    }

    /// A name that is also in `other`.
    pub fn shared<'a>(&'a self, other: &ColumnSet) -> (r: Option<&'a String>)
        ensures
            r is None <==> self@.disjoint(other@),
            r matches Some(name) ==> self@.contains(name@) && other@.contains(name@),
    {
        for i in 0..self.names.len()
            invariant
                forall|j: int| 0 <= j < i ==> !other@.contains(#[trigger] self.names@[j]@),
        {
            if other.contains(self.names[i].as_str()) {
                assert(self@.contains(self.names@[i as int]@));
                return Some(&self.names[i]);
            }
        }
        None
    }
}

} // verus!
