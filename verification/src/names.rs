//! Finite sets of names (user ids, argument keys) kept as vectors of strings.

use vstd::prelude::*;

verus! {

/// The set of strings that occur in `names`.
pub open spec fn names_of(names: Seq<String>) -> Set<Seq<char>> {
    Set::new(|s: Seq<char>| exists|i: int| 0 <= i < names.len() && #[trigger] names[i]@ == s)
}

/// Appending a name adds exactly that name to the set.
pub proof fn lemma_names_of_push(names: Seq<String>, name: String)
    ensures
        names_of(names.push(name)) == names_of(names).insert(name@),
{
    let grown = names.push(name);
    assert forall|s: Seq<char>| names_of(grown).contains(s) == names_of(names).insert(
        name@,
    ).contains(s) by {
        if names_of(grown).contains(s) {
            let i = choose|i: int| 0 <= i < grown.len() && #[trigger] grown[i]@ == s;
            if i < names.len() {
                assert(names[i]@ == s);
            }
        }
        if names_of(names).contains(s) {
            let i = choose|i: int| 0 <= i < names.len() && #[trigger] names[i]@ == s;
            assert(grown[i]@ == s);
        }
        if s == name@ {
            assert(grown[names.len() as int]@ == s);
        }
    }
    assert(names_of(grown) =~= names_of(names).insert(name@));
}

/// A set of names. Order and repetition in the backing vector carry no meaning.
pub struct NameSet {
    names: Vec<String>,
}

impl View for NameSet {
    type V = Set<Seq<char>>;

    closed spec fn view(&self) -> Set<Seq<char>> {
        names_of(self.names@)
    }
}

impl Clone for NameSet {
    fn clone(&self) -> (copy: Self)
        ensures
            copy@ == self@,
    {
        let names = self.names.clone();
        assert(names@ =~= self.names@);
        NameSet { names }
    }
}

impl NameSet {
    /// The empty set.
    pub fn new() -> (set: Self)
        ensures
            set@ == Set::<Seq<char>>::empty(),
    {
        let set = NameSet { names: Vec::new() };
        assert(set@ =~= Set::<Seq<char>>::empty());
        set
    }

    /// The set of the strings in `names`.
    pub fn from_vec(names: Vec<String>) -> (set: Self)
        ensures
            set@ == names_of(names@),
    {
        NameSet { names }
    }

    /// The members, each at least once.
    pub fn to_vec(&self) -> (names: Vec<String>)
        ensures
            names_of(names@) == self@,
    {
        let names = self.names.clone();
        assert(names@ =~= self.names@);
        names
    }

    /// Whether `name` is a member.
    pub fn contains(&self, name: &String) -> (found: bool)
        ensures
            found == self@.contains(name@),
    {
        let mut i: usize = 0;
        while i < self.names.len()
            invariant
                i <= self.names.len(),
                forall|j: int| 0 <= j < i ==> self.names@[j]@ != name@,
            decreases self.names.len() - i,
        {
            if self.names[i] == *name {
                return true;
            }
            i += 1;
        }
        false
    }

    /// Adds `name`.
    pub fn insert(&mut self, name: String)
        ensures
            final(self)@ == old(self)@.insert(name@),
    {
        proof {
            lemma_names_of_push(self.names@, name);
        }
        self.names.push(name);
    }

    /// Whether every member of `self` is a member of `other`.
    pub fn is_subset_of(&self, other: &NameSet) -> (included: bool)
        ensures
            included == self@.subset_of(other@),
    {
        let mut i: usize = 0;
        while i < self.names.len()
            invariant
                i <= self.names.len(),
                forall|j: int| 0 <= j < i ==> other@.contains(#[trigger] self.names@[j]@),
            decreases self.names.len() - i,
        {
            if !other.contains(&self.names[i]) {
                assert(self@.contains(self.names@[i as int]@));
                return false;
            }
            i += 1;
        }
        true
    }

    /// Whether the two sets have the same members.
    pub fn same_as(&self, other: &NameSet) -> (same: bool)
        ensures
            same == (self@ == other@),
    {
        let same = self.is_subset_of(other) && other.is_subset_of(self);
        proof {
            if same {
                assert(self@ =~= other@);
            }
        }
        same
    }

    /// Adds every member of `other`.
    pub fn extend(&mut self, other: &NameSet)
        ensures
            final(self)@ == old(self)@.union(other@),
    {
        let mut i: usize = 0;
        while i < other.names.len()
            invariant
                i <= other.names.len(),
                self@ == old(self)@.union(names_of(other.names@.take(i as int))),
            decreases other.names.len() - i,
        {
            let name = other.names[i].clone();
            proof {
                lemma_names_of_push(other.names@.take(i as int), name);
                assert(other.names@.take(i as int).push(name) =~= other.names@.take(i + 1));
                assert(old(self)@.union(names_of(other.names@.take(i as int))).insert(name@)
                    =~= old(self)@.union(names_of(other.names@.take(i as int)).insert(name@)));
            }
            self.insert(name);
            i += 1;
        }
        proof {
            assert(other.names@.take(i as int) =~= other.names@);
        }
    }

    /// Whether the set has no member.
    pub fn is_empty(&self) -> (empty: bool)
        ensures
            empty == (self@ == Set::<Seq<char>>::empty()),
    {
        let empty = self.names.len() == 0;
        proof {
            if empty {
                assert(self@ =~= Set::<Seq<char>>::empty());
            } else {
                assert(self@.contains(self.names@[0]@));
            }
        }
        empty
    }
}

} // verus!
