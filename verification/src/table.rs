//! Finite maps from keys (names, identifiers) to values, kept as lists.

use crate::ids::ExternalID;
use vstd::prelude::*;

verus! {

/// A key of a table: a value with a model, which can be compared and copied
/// by that model.
pub trait Key: View + Sized {
    /// Whether the two keys have the same model.
    fn same(&self, other: &Self) -> (same: bool)
        ensures
            same == (self@ == other@),
    ;

    /// A key with the same model.
    fn copy(&self) -> (copy: Self)
        ensures
            copy@ == self@,
    ;
}

impl Key for String {
    fn same(&self, other: &Self) -> (same: bool) {
        *self == *other
    }

    fn copy(&self) -> (copy: Self) {
        self.clone()
    }
}

impl View for ExternalID {
    type V = ExternalID;

    open spec fn view(&self) -> ExternalID {
        *self
    }
}

impl Key for ExternalID {
    fn same(&self, other: &Self) -> (same: bool) {
        *self == *other
    }

    fn copy(&self) -> (copy: Self) {
        *self
    }
}

/// The map that a list of bindings stands for; of two bindings of one name
/// the later one counts.
pub open spec fn bindings<K: View, V>(entries: Seq<(K, V)>) -> Map<K::V, V>
    decreases entries.len(),
{
    if entries.len() == 0 {
        Map::empty()
    } else {
        bindings(entries.drop_last()).insert(entries.last().0@, entries.last().1)
    }
}

/// No name is bound twice.
pub open spec fn distinct_names<K: View, V>(entries: Seq<(K, V)>) -> bool {
    forall|i: int, j: int|
        0 <= i < entries.len() && 0 <= j < entries.len() && i != j ==> (#[trigger] entries[i]).0@
            != (#[trigger] entries[j]).0@
}

/// The names bound by `entries` are exactly the names that occur in it.
pub proof fn lemma_bindings_dom<K: View, V>(entries: Seq<(K, V)>)
    ensures
        forall|k: K::V|
            bindings(entries).contains_key(k) <==> exists|i: int|
                0 <= i < entries.len() && (#[trigger] entries[i]).0@ == k,
    decreases entries.len(),
{
    if entries.len() > 0 {
        let front = entries.drop_last();
        lemma_bindings_dom(front);
        assert forall|k: K::V|
            bindings(entries).contains_key(k) <==> exists|i: int|
                0 <= i < entries.len() && (#[trigger] entries[i]).0@ == k by {
            if bindings(entries).contains_key(k) {
                if k == entries.last().0@ {
                    assert(entries[entries.len() - 1].0@ == k);
                } else {
                    assert(bindings(front).contains_key(k));
                    let i = choose|i: int| 0 <= i < front.len() && (#[trigger] front[i]).0@ == k;
                    assert(entries[i].0@ == k);
                }
            }
            if exists|i: int| 0 <= i < entries.len() && (#[trigger] entries[i]).0@ == k {
                let i = choose|i: int| 0 <= i < entries.len() && (#[trigger] entries[i]).0@ == k;
                if i < front.len() {
                    assert(front[i].0@ == k);
                    assert(bindings(front).contains_key(k));
                }
            }
        }
    }
}

/// Where no name is bound twice, each entry is the binding of its name.
pub proof fn lemma_bindings_at<K: View, V>(entries: Seq<(K, V)>, i: int)
    requires
        distinct_names(entries),
        0 <= i < entries.len(),
    ensures
        bindings(entries).contains_key(entries[i].0@),
        bindings(entries)[entries[i].0@] == entries[i].1,
    decreases entries.len(),
{
    let front = entries.drop_last();
    if i < entries.len() - 1 {
        assert(distinct_names(front)) by {
            assert forall|a: int, b: int|
                0 <= a < front.len() && 0 <= b < front.len() && a != b implies (
            #[trigger] front[a]).0@ != (#[trigger] front[b]).0@ by {
                assert(entries[a].0@ != entries[b].0@);
            }
        }
        lemma_bindings_at(front, i);
        assert(front[i] == entries[i]);
        assert(entries[i].0@ != entries[entries.len() - 1].0@);
    }
}

/// A map from keys to values, kept as a list in which no key occurs twice.
pub struct Table<K: View, V> {
    entries: Vec<(K, V)>,
}

/// A table keyed by names.
pub type NameMap<V> = Table<String, V>;

/// A table keyed by identifiers.
pub type IdMap<V> = Table<ExternalID, V>;

impl<K: View, V> View for Table<K, V> {
    type V = Map<K::V, V>;

    closed spec fn view(&self) -> Map<K::V, V> {
        bindings(self.entries@)
    }
}

impl<K: View, V> Table<K, V> {
    #[verifier::type_invariant]
    spec fn distinct(&self) -> bool {
        distinct_names(self.entries@)
    }
}

impl<K: Key, V> Table<K, V> {
    /// The bindings in the order in which their names were first bound.
    pub closed spec fn entries(&self) -> Seq<(K, V)> {
        self.entries@
    }

    /// The list and the map agree: each entry is the binding of its name, and
    /// each bound name has an entry.
    pub open spec fn listed(&self) -> bool {
        &&& distinct_names(self.entries())
        &&& self@ == bindings(self.entries())
        &&& forall|i: int|
            0 <= i < self.entries().len() ==> self@.contains_key((#[trigger] self.entries()[i]).0@)
                && self@[self.entries()[i].0@] == self.entries()[i].1
        &&& forall|k: K::V|
            self@.contains_key(k) ==> exists|i: int|
                0 <= i < self.entries().len() && (#[trigger] self.entries()[i]).0@ == k
    }

    /// The empty map.
    pub fn new() -> (map: Self)
        ensures
            map@ == Map::<K::V, V>::empty(),
            map.entries().len() == 0,
    {
        Table { entries: Vec::new() }
    }

    /// The number of bindings.
    pub fn len(&self) -> (n: usize)
        ensures
            n == self.entries().len(),
            self.listed(),
    {
        proof {
            use_type_invariant(self);
            lemma_bindings_dom(self.entries@);
            assert forall|i: int| 0 <= i < self.entries@.len() implies self@.contains_key(
                (#[trigger] self.entries@[i]).0@,
            ) && self@[self.entries@[i].0@] == self.entries@[i].1 by {
                lemma_bindings_at(self.entries@, i);
            }
        }
        self.entries.len()
    }

    /// The name of the binding at `index`.
    pub fn name_at(&self, index: usize) -> (name: &K)
        requires
            index < self.entries().len(),
        ensures
            *name == self.entries()[index as int].0,
    {
        &self.entries[index].0
    }

    /// The value of the binding at `index`.
    pub fn value_at(&self, index: usize) -> (value: &V)
        requires
            index < self.entries().len(),
        ensures
            *value == self.entries()[index as int].1,
    {
        &self.entries[index].1
    }

    /// The index of the binding of `name`, if it is bound.
    pub fn position(&self, name: &K) -> (found: Option<usize>)
        ensures
            self.listed(),
            found matches Some(i) ==> i < self.entries().len() && self.entries()[i as int].0@
                == name@ && self@.contains_key(name@),
            found is None ==> !self@.contains_key(name@),
    {
        let n = self.len();
        let mut i: usize = 0;
        while i < n
            invariant
                i <= n,
                n == self.entries@.len(),
                self.listed(),
                forall|j: int| 0 <= j < i ==> (#[trigger] self.entries@[j]).0@ != name@,
            decreases n - i,
        {
            if self.entries[i].0.same(name) {
                return Some(i);
            }
            i += 1;
        }
        None
    }

    /// Whether `name` is bound.
    pub fn contains_key(&self, name: &K) -> (bound: bool)
        ensures
            bound == self@.contains_key(name@),
    {
        self.position(name).is_some()
    }

    /// The value bound to `name`, if any.
    pub fn get(&self, name: &K) -> (value: Option<&V>)
        ensures
            value matches Some(v) ==> self@.contains_key(name@) && *v == self@[name@],
            value is None ==> !self@.contains_key(name@),
    {
        match self.position(name) {
            Some(i) => Some(&self.entries[i].1),
            None => None,
        }
    }

    /// Binds `name` to `value`, in place of an earlier binding of `name`.
    pub fn insert(&mut self, name: K, value: V)
        ensures
            final(self)@ == old(self)@.insert(name@, value),
    {
        let found = self.position(&name);
        proof {
            use_type_invariant(&*self);
        }
        let mut entries: Vec<(K, V)> = Vec::new();
        core::mem::swap(&mut entries, &mut self.entries);
        match found {
            Some(i) => {
                proof {
                    lemma_replace(entries@, i as int, name, value);
                }
                entries.set(i, (name, value));
            },
            None => {
                proof {
                    lemma_bindings_dom(entries@);
                    assert(entries@.push((name, value)).drop_last() =~= entries@);
                }
                entries.push((name, value));
            },
        }
        core::mem::swap(&mut entries, &mut self.entries);
    }

    /// Unbinds `name` and hands out the value that it was bound to, if any.
    pub fn remove(&mut self, name: &K) -> (value: Option<V>)
        ensures
            final(self)@ == old(self)@.remove(name@),
            old(self)@.contains_key(name@) ==> value == Some(old(self)@[name@]),
            !old(self)@.contains_key(name@) ==> value is None,
    {
        let found = self.position(name);
        proof {
            use_type_invariant(&*self);
        }
        match found {
            Some(i) => {
                let mut entries: Vec<(K, V)> = Vec::new();
                core::mem::swap(&mut entries, &mut self.entries);
                proof {
                    lemma_remove(entries@, i as int);
                }
                let entry = entries.remove(i);
                core::mem::swap(&mut entries, &mut self.entries);
                Some(entry.1)
            },
            None => {
                assert(self@.remove(name@) =~= self@);
                None
            },
        }
    }
}

impl<K: Key, V: Clone> Clone for Table<K, V> {
    /// A table with the same keys in the same order, each bound to a clone
    /// of its value.
    fn clone(&self) -> (copy: Self)
        ensures
            self.listed(),
            copy.listed(),
            copy.entries().len() == self.entries().len(),
            forall|i: int|
                0 <= i < self.entries().len() ==> (#[trigger] copy.entries()[i]).0@
                    == self.entries()[i].0@ && cloned::<V>(
                    self.entries()[i].1,
                    copy.entries()[i].1,
                ),
    {
        let n = self.len();
        proof {
            use_type_invariant(self);
        }
        let mut entries: Vec<(K, V)> = Vec::new();
        let mut i: usize = 0;
        while i < n
            invariant
                i <= n,
                n == self.entries@.len(),
                entries@.len() == i,
                forall|j: int|
                    0 <= j < i ==> (#[trigger] entries@[j]).0@ == self.entries@[j].0@ && cloned::<
                        V,
                    >(self.entries@[j].1, entries@[j].1),
            decreases n - i,
        {
            let key = self.entries[i].0.copy();
            let value = self.entries[i].1.clone();
            entries.push((key, value));
            i += 1;
        }
        proof {
            assert forall|a: int, b: int|
                0 <= a < entries@.len() && 0 <= b < entries@.len() && a != b implies (
            #[trigger] entries@[a]).0@ != (#[trigger] entries@[b]).0@ by {
                assert(self.entries@[a].0@ != self.entries@[b].0@);
            }
        }
        let copy = Table { entries };
        let m = copy.len();
        copy
    }
}

/// Replacing the value of the entry at `i` rebinds its name and keeps the
/// other bindings.
pub proof fn lemma_replace<K: View, V>(entries: Seq<(K, V)>, i: int, name: K, value: V)
    requires
        distinct_names(entries),
        0 <= i < entries.len(),
        entries[i].0@ == name@,
    ensures
        distinct_names(entries.update(i, (name, value))),
        bindings(entries.update(i, (name, value))) == bindings(entries).insert(name@, value),
{
    let updated = entries.update(i, (name, value));
    assert(distinct_names(updated)) by {
        assert forall|a: int, b: int|
            0 <= a < updated.len() && 0 <= b < updated.len() && a != b implies (
        #[trigger] updated[a]).0@ != (#[trigger] updated[b]).0@ by {
            assert(entries[a].0@ != entries[b].0@);
        }
    }
    lemma_bindings_dom(entries);
    lemma_bindings_dom(updated);
    let target = bindings(entries).insert(name@, value);
    assert forall|k: K::V| bindings(updated).contains_key(k) == target.contains_key(k) by {
        if bindings(updated).contains_key(k) {
            let a = choose|a: int| 0 <= a < updated.len() && (#[trigger] updated[a]).0@ == k;
            if a != i {
                assert(entries[a].0@ == k);
            }
        }
        if target.contains_key(k) && k != name@ {
            let a = choose|a: int| 0 <= a < entries.len() && (#[trigger] entries[a]).0@ == k;
            assert(updated[a].0@ == k);
        }
        if k == name@ {
            assert(updated[i].0@ == k);
        }
    }
    assert forall|k: K::V| bindings(updated).contains_key(k) implies bindings(updated)[k]
        == target[k] by {
        let a = choose|a: int| 0 <= a < updated.len() && (#[trigger] updated[a]).0@ == k;
        lemma_bindings_at(updated, a);
        if a != i {
            lemma_bindings_at(entries, a);
        }
    }
    assert(bindings(updated) =~= target);
}

/// Taking the entry at `i` out unbinds its name and keeps the other
/// bindings.
pub proof fn lemma_remove<K: View, V>(entries: Seq<(K, V)>, i: int)
    requires
        distinct_names(entries),
        0 <= i < entries.len(),
    ensures
        distinct_names(entries.remove(i)),
        bindings(entries.remove(i)) == bindings(entries).remove(entries[i].0@),
        bindings(entries).contains_key(entries[i].0@),
        bindings(entries)[entries[i].0@] == entries[i].1,
{
    let rest = entries.remove(i);
    assert(distinct_names(rest)) by {
        assert forall|a: int, b: int|
            0 <= a < rest.len() && 0 <= b < rest.len() && a != b implies (#[trigger] rest[a]).0@
            != (#[trigger] rest[b]).0@ by {
            let a0 = if a < i { a } else { a + 1 };
            let b0 = if b < i { b } else { b + 1 };
            assert(entries[a0].0@ != entries[b0].0@);
        }
    }
    lemma_bindings_dom(entries);
    lemma_bindings_dom(rest);
    lemma_bindings_at(entries, i);
    let target = bindings(entries).remove(entries[i].0@);
    assert forall|k: K::V| bindings(rest).contains_key(k) == target.contains_key(k) by {
        if bindings(rest).contains_key(k) {
            let a = choose|a: int| 0 <= a < rest.len() && (#[trigger] rest[a]).0@ == k;
            let a0 = if a < i { a } else { a + 1 };
            assert(entries[a0].0@ == k);
            assert(entries[a0].0@ != entries[i].0@);
        }
        if target.contains_key(k) {
            let a = choose|a: int| 0 <= a < entries.len() && (#[trigger] entries[a]).0@ == k;
            let a1 = if a < i { a } else { a - 1 };
            assert(rest[a1].0@ == k);
        }
    }
    assert forall|k: K::V| bindings(rest).contains_key(k) implies bindings(rest)[k]
        == target[k] by {
        let a = choose|a: int| 0 <= a < rest.len() && (#[trigger] rest[a]).0@ == k;
        let a0 = if a < i { a } else { a + 1 };
        lemma_bindings_at(rest, a);
        lemma_bindings_at(entries, a0);
    }
    assert(bindings(rest) =~= target);
}

/// Two lists that bind the same names in the same order, to values that
/// `project` does not tell apart, stand for maps that `project` does not
/// tell apart.
pub proof fn lemma_bindings_agree<K: View, V, W>(
    a: Seq<(K, V)>,
    b: Seq<(K, V)>,
    project: spec_fn(V) -> W,
)
    requires
        a.len() == b.len(),
        forall|i: int|
            0 <= i < a.len() ==> (#[trigger] a[i]).0@ == b[i].0@ && project(a[i].1) == project(
                b[i].1,
            ),
    ensures
        bindings(a).map_values(project) == bindings(b).map_values(project),
    decreases a.len(),
{
    if a.len() > 0 {
        lemma_bindings_agree(a.drop_last(), b.drop_last(), project);
        let ka = a.last().0@;
        assert(a[a.len() - 1].0@ == b[a.len() - 1].0@);
        assert(bindings(a).map_values(project) =~= bindings(a.drop_last()).map_values(
            project,
        ).insert(ka, project(a.last().1)));
        assert(bindings(b).map_values(project) =~= bindings(b.drop_last()).map_values(
            project,
        ).insert(ka, project(b.last().1)));
    } else {
        assert(bindings(a).map_values(project) =~= bindings(b).map_values(project));
    }
}

/// A list in which no name occurs twice binds as many names as it has
/// entries.
pub proof fn lemma_size<K: View, V>(entries: Seq<(K, V)>)
    requires
        distinct_names(entries),
    ensures
        bindings(entries).dom().finite(),
        bindings(entries).dom().len() == entries.len(),
    decreases entries.len(),
{
    if entries.len() == 0 {
        assert(bindings(entries).dom() =~= Set::<K::V>::empty());
    } else {
        let front = entries.drop_last();
        assert(distinct_names(front)) by {
            assert forall|a: int, b: int|
                0 <= a < front.len() && 0 <= b < front.len() && a != b implies (
            #[trigger] front[a]).0@ != (#[trigger] front[b]).0@ by {
                assert(entries[a].0@ != entries[b].0@);
            }
        }
        lemma_size(front);
        lemma_bindings_dom(front);
        let key = entries.last().0@;
        assert(!bindings(front).dom().contains(key)) by {
            if bindings(front).contains_key(key) {
                let i = choose|i: int| 0 <= i < front.len() && (#[trigger] front[i]).0@ == key;
                assert(entries[i].0@ != entries[entries.len() - 1].0@);
            }
        }
        assert(bindings(entries).dom() =~= bindings(front).dom().insert(key));
    }
}

} // verus!
