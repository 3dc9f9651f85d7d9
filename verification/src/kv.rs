//! The key-value store: byte keys, byte values, no atomicity across keys.

use crate::table::{Key, Table};
use vstd::prelude::*;

verus! {

impl Key for Vec<u8> {
    fn same(&self, other: &Self) -> (same: bool) {
        let same = *self == *other;
        proof {
            if same {
                assert(self@ =~= other@);
            }
        }
        same
    }

    fn copy(&self) -> (copy: Self) {
        let copy = self.clone();
        assert(copy@ =~= self@);
        copy
    }
}

/// A store of byte values under byte keys.
pub struct KvStore {
    blobs: Table<Vec<u8>, Vec<u8>>,
}

impl View for KvStore {
    type V = Map<Seq<u8>, Seq<u8>>;

    closed spec fn view(&self) -> Map<Seq<u8>, Seq<u8>> {
        self.blobs@.map_values(|value: Vec<u8>| value@)
    }
}

/// One key with its value, as an enumeration hands it out.
pub struct Pair {
    pub key: Vec<u8>,
    pub value: Vec<u8>,
}

impl KvStore {
    /// The empty store.
    pub fn new() -> (store: Self)
        ensures
            store@ == Map::<Seq<u8>, Seq<u8>>::empty(),
    {
        let store = KvStore { blobs: Table::new() };
        assert(store@ =~= Map::<Seq<u8>, Seq<u8>>::empty());
        store
    }

    /// The value under `key`, if there is one.
    pub fn get(&self, key: &Vec<u8>) -> (value: Option<Vec<u8>>)
        ensures
            self@.contains_key(key@) ==> value.is_some() && value.unwrap()@ == self@[key@],
            !self@.contains_key(key@) ==> value.is_none(),
    {
        match self.blobs.get(key) {
            None => None,
            Some(found) => {
                let value = found.clone();
                assert(value@ =~= found@);
                Some(value)
            },
        }
    }

    /// Whether there is a value under `key`.
    pub fn contains(&self, key: &Vec<u8>) -> (present: bool)
        ensures
            present == self@.contains_key(key@),
    {
        self.blobs.contains_key(key)
    }

    /// Stores `value` under `key`, over what was there.
    pub fn put(&mut self, key: Vec<u8>, value: Vec<u8>)
        ensures
            final(self)@ == old(self)@.insert(key@, value@),
    {
        self.blobs.insert(key, value);
        assert(self@ =~= old(self)@.insert(key@, value@));
    }

    /// Removes what is under `key`. Nothing happens where there is nothing.
    pub fn delete(&mut self, key: &Vec<u8>)
        ensures
            final(self)@ == old(self)@.remove(key@),
    {
        let _ = self.blobs.remove(key);
        assert(self@ =~= old(self)@.remove(key@));
    }

    /// Stores `new` under `key` where the value there is `expected`, and says
    /// whether it did.
    pub fn compare_and_swap(&mut self, key: &Vec<u8>, expected: &Vec<u8>, new: Vec<u8>) -> (swapped:
        bool)
        ensures
            swapped == (old(self)@.contains_key(key@) && old(self)@[key@] == expected@),
            swapped ==> final(self)@ == old(self)@.insert(key@, new@),
            !swapped ==> final(self)@ == old(self)@,
    {
        let matches = match self.blobs.get(key) {
            None => false,
            Some(current) => current.same(expected),
        };
        if matches {
            self.put(key.copy(), new);
        }
        matches
    }

    /// The keys that begin with `prefix`, each with its value.
    pub fn enumerate(&self, prefix: &Vec<u8>) -> (pairs: Vec<Pair>)
        ensures
            forall|i: int|
                0 <= i < pairs@.len() ==> prefix@.is_prefix_of((#[trigger] pairs@[i]).key@)
                    && self@.contains_key(pairs@[i].key@) && self@[pairs@[i].key@]
                    == pairs@[i].value@,
            forall|key: Seq<u8>|
                self@.contains_key(key) && prefix@.is_prefix_of(key) ==> exists|i: int|
                    0 <= i < pairs@.len() && (#[trigger] pairs@[i]).key@ == key,
            forall|i: int, j: int|
                0 <= i < j < pairs@.len() ==> (#[trigger] pairs@[i]).key@ != (
                #[trigger] pairs@[j]).key@,
    {
        let n = self.blobs.len();
        let mut pairs: Vec<Pair> = Vec::new();
        let ghost mut origin: Seq<int> = Seq::empty();
        let mut i: usize = 0;
        while i < n
            invariant
                i <= n,
                n == self.blobs.entries().len(),
                self.blobs.listed(),
                origin.len() == pairs@.len(),
                forall|a: int|
                    0 <= a < pairs@.len() ==> 0 <= (#[trigger] origin[a]) < i && pairs@[a].key@
                        == self.blobs.entries()[origin[a]].0@ && pairs@[a].value@
                        == self.blobs.entries()[origin[a]].1@ && prefix@.is_prefix_of(
                        pairs@[a].key@,
                    ),
                forall|a: int, b: int|
                    0 <= a < b < pairs@.len() ==> (#[trigger] origin[a]) < (#[trigger] origin[b]),
                forall|j: int|
                    0 <= j < i && prefix@.is_prefix_of((#[trigger] self.blobs.entries()[j]).0@)
                        ==> exists|a: int| 0 <= a < pairs@.len() && (#[trigger] origin[a]) == j,
            decreases n - i,
        {
            let key = self.blobs.name_at(i);
            if starts_with(key, prefix) {
                let value = self.blobs.value_at(i);
                let pair = Pair { key: key.copy(), value: value.copy() };
                let ghost before = origin;
                pairs.push(pair);
                proof {
                    origin = origin.push(i as int);
                    assert forall|j: int|
                        0 <= j < i + 1 && prefix@.is_prefix_of(
                            (#[trigger] self.blobs.entries()[j]).0@,
                        ) implies exists|a: int|
                        0 <= a < pairs@.len() && (#[trigger] origin[a]) == j by {
                        if j < i {
                            let a = choose|a: int|
                                0 <= a < before.len() && (#[trigger] before[a]) == j;
                            assert(origin[a] == j);
                        } else {
                            assert(origin[pairs@.len() - 1] == j);
                        }
                    }
                }
            }
            i += 1;
        }
        proof {
            assert forall|a: int| 0 <= a < pairs@.len() implies prefix@.is_prefix_of(
                (#[trigger] pairs@[a]).key@,
            ) && self@.contains_key(pairs@[a].key@) && self@[pairs@[a].key@]
                == pairs@[a].value@ by {
                let j = origin[a];
                assert(self.blobs@.contains_key(self.blobs.entries()[j].0@));
            }
            assert forall|key: Seq<u8>|
                self@.contains_key(key) && prefix@.is_prefix_of(key) implies exists|a: int|
                0 <= a < pairs@.len() && (#[trigger] pairs@[a]).key@ == key by {
                let j = choose|j: int|
                    0 <= j < self.blobs.entries().len() && (#[trigger] self.blobs.entries()[j]).0@
                        == key;
                let a = choose|a: int| 0 <= a < pairs@.len() && (#[trigger] origin[a]) == j;
                assert(pairs@[a].key@ == key);
            }
            assert forall|a: int, b: int| 0 <= a < b < pairs@.len() implies (
            #[trigger] pairs@[a]).key@ != (#[trigger] pairs@[b]).key@ by {
                assert(origin[a] < origin[b]);
                assert(self.blobs.entries()[origin[a]].0@ != self.blobs.entries()[origin[b]].0@);
            }
        }
        pairs
    }
}

/// Whether `bytes` begins with `prefix`.
pub fn starts_with(bytes: &Vec<u8>, prefix: &Vec<u8>) -> (begins: bool)
    ensures
        begins == prefix@.is_prefix_of(bytes@),
{
    if prefix.len() > bytes.len() {
        return false;
    }
    let mut i: usize = 0;
    while i < prefix.len()
        invariant
            i <= prefix@.len(),
            prefix@.len() <= bytes@.len(),
            forall|j: int| 0 <= j < i ==> prefix@[j] == bytes@[j],
        decreases prefix@.len() - i,
    {
        if prefix[i] != bytes[i] {
            assert(bytes@.subrange(0, prefix@.len() as int)[i as int] != prefix@[i as int]);
            return false;
        }
        i += 1;
    }
    assert(prefix@ =~= bytes@.subrange(0, prefix@.len() as int));
    true
}

} // verus!
