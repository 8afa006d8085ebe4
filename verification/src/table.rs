//! A table from strings to values, in which no key occurs twice. The
//! entries keep the order in which their keys were first inserted.

use vstd::prelude::*;

verus! {

/// A table from strings to values of type `V`.
#[derive(Debug, PartialEq, Eq)]
pub struct Table<V> {
    keys: Vec<String>,
    values: Vec<V>,
}

/// The table with the entries `keys[i] -> values[i]`.
pub open spec fn table_of<V>(keys: Seq<Seq<char>>, values: Seq<V>) -> Map<Seq<char>, V> {
    Map::new(
        |k: Seq<char>| keys.contains(k),
        |k: Seq<char>| values[keys.index_of(k)],
    )
}

impl<V: Clone> Clone for Table<V> {
    /// A table with the same keys, in the same order, and with a clone of
    /// each value.
    fn clone(&self) -> (copy: Self)
        ensures
            copy.keys() == self.keys(),
            copy.values().len() == self.values().len(),
            copy.wf(),
    {
        proof {
            use_type_invariant(self);
        }
        let ghost all = self.keys.deep_view();
        let mut keys: Vec<String> = Vec::new();
        let mut values: Vec<V> = Vec::new();
        let mut i: usize = 0;
        assert(keys.deep_view() =~= all.take(0));
        while i < self.keys.len()
            invariant
                i <= self.keys.len(),
                self.keys.len() == self.values.len(),
                all == self.keys.deep_view(),
                keys.deep_view() == all.take(i as int),
                values.len() == i,
            decreases self.keys.len() - i,
        {
            let ghost before = keys.deep_view();
            keys.push(self.keys[i].clone());
            values.push(self.values[i].clone());
            assert(keys.deep_view() =~= before.push(all[i as int]));
            assert(all.take(i + 1) =~= all.take(i as int).push(all[i as int]));
            i += 1;
        }
        assert(all.take(self.keys.len() as int) =~= all);
        Table { keys, values }
    }
}

impl<V> Table<V> {
    #[verifier::type_invariant]
    spec fn inv(&self) -> bool {
        self.wf()
    }

    /// The keys, in the order of the entries.
    pub closed spec fn keys(&self) -> Seq<Seq<char>> {
        self.keys.deep_view()
    }

    /// The values, in the order of the entries.
    pub closed spec fn values(&self) -> Seq<V> {
        self.values@
    }

    /// There is one value for each key, and no key occurs twice. Every
    /// table is so.
    pub open spec fn wf(&self) -> bool {
        self.keys().len() == self.values().len() && self.keys().no_duplicates()
    }

    /// The table as a map.
    pub open spec fn view(&self) -> Map<Seq<char>, V> {
        table_of(self.keys(), self.values())
    }

    /// The empty table.
    pub fn new() -> (table: Table<V>)
        ensures
            table.keys() == Seq::<Seq<char>>::empty(),
            table.values() == Seq::<V>::empty(),
            table@ == Map::<Seq<char>, V>::empty(),
            table.wf(),
    {
        let keys: Vec<String> = Vec::new();
        let values: Vec<V> = Vec::new();
        assert(keys.deep_view() =~= Seq::empty());
        let table = Table { keys, values };
        assert(table@ =~= Map::<Seq<char>, V>::empty());
        table
    }

    /// The number of entries.
    pub fn len(&self) -> (n: usize)
        ensures
            n == self.keys().len(),
            self.wf(),
    {
        proof {
            use_type_invariant(self);
        }
        assert(self.keys.deep_view().len() == self.keys.len());
        self.keys.len()
    }

    /// The key of the entry at `i`.
    pub fn key_at(&self, i: usize) -> (key: &String)
        requires
            i < self.keys().len(),
        ensures
            key@ == self.keys()[i as int],
    {
        assert(self.keys.deep_view().len() == self.keys.len());
        &self.keys[i]
    }

    /// The value of the entry at `i`.
    pub fn value_at(&self, i: usize) -> (value: &V)
        requires
            i < self.keys().len(),
        ensures
            *value == self.values()[i as int],
            self.wf(),
    {
        proof {
            use_type_invariant(self);
        }
        assert(self.keys.deep_view().len() == self.keys.len());
        &self.values[i]
    }

    /// Where the entry for `key` stands, if there is one.
    pub fn position(&self, key: &str) -> (position: Option<usize>)
        ensures
            self.wf(),
            position is Some <==> self.keys().contains(key@),
            position matches Some(i) ==> i < self.keys().len() && self.keys()[i as int] == key@
                && i == self.keys().index_of(key@),
    {
        proof {
            use_type_invariant(self);
        }
        let ghost keys = self.keys.deep_view();
        assert(keys.len() == self.keys.len());
        let mut i: usize = 0;
        while i < self.keys.len()
            invariant
                i <= self.keys.len(),
                keys == self.keys.deep_view(),
                keys.len() == self.keys.len(),
                keys.no_duplicates(),
                self.wf(),
                forall|k: int| 0 <= k < i ==> keys[k] != key@,
            decreases self.keys.len() - i,
        {
            if self.keys[i].as_str().eq(key) {
                assert(keys[i as int] == key@);
                assert(keys.contains(key@));
                let ghost j = keys.index_of(key@);
                assert(keys[j] == key@);
                return Some(i);
            }
            i += 1;
        }
        None
    }

    /// The value stored for `key`.
    pub fn get(&self, key: &str) -> (value: Option<&V>)
        ensures
            self.wf(),
            value is Some <==> self@.contains_key(key@),
            value matches Some(v) ==> *v == self@[key@],
    {
        match self.position(key) {
            Some(i) => {
                Some(&self.values[i])
            },
            None => None,
        }
    }

    /// Stores `value` for `key`. A value that was stored for `key` before
    /// is replaced and its entry keeps its place; a new entry goes to the
    /// end.
    pub fn insert(&mut self, key: String, value: V)
        ensures
            old(self).wf(),
            final(self).wf(),
            final(self)@ == old(self)@.insert(key@, value),
            old(self).keys().contains(key@) ==> final(self).keys() == old(self).keys()
                && final(self).values() == old(self).values().update(
                old(self).keys().index_of(key@),
                value,
            ),
            !old(self).keys().contains(key@) ==> final(self).keys() == old(self).keys().push(key@)
                && final(self).values() == old(self).values().push(value),
    {
        let ghost old_keys = self.keys.deep_view();
        let ghost old_values = self.values@;
        let found = self.position(key.as_str());
        let mut taken = Table::new();
        core::mem::swap(self, &mut taken);
        let Table { keys, values } = taken;
        let mut keys = keys;
        let mut values = values;
        match found {
            Some(i) => {
                values.set(i, value);
                proof {
                    assert(table_of(keys.deep_view(), values@) =~= table_of(
                        old_keys,
                        old_values,
                    ).insert(key@, value)) by {
                        assert forall|k: Seq<char>| old_keys.contains(k) && k != key@ implies old_keys.index_of(
                            k,
                        ) != i by {
                            let j = old_keys.index_of(k);
                            assert(old_keys[j] == k);
                        }
                    }
                }
            },
            None => {
                keys.push(key);
                values.push(value);
                proof {
                    let new_keys = keys.deep_view();
                    assert(new_keys =~= old_keys.push(key@));
                    assert(new_keys.no_duplicates());
                    assert forall|k: Seq<char>| new_keys.contains(k) <==> (old_keys.contains(k)
                        || k == key@) by {
                        if old_keys.contains(k) {
                            let j = old_keys.index_of(k);
                            assert(new_keys[j] == k);
                        }
                        if k == key@ {
                            assert(new_keys[new_keys.len() - 1] == k);
                        }
                    }
                    assert forall|k: Seq<char>| new_keys.contains(k) implies (
                    #[trigger] new_keys.index_of(k)) == (if k == key@ {
                        old_keys.len() as int
                    } else {
                        old_keys.index_of(k)
                    }) by {
                        let j = new_keys.index_of(k);
                        assert(new_keys[j] == k);
                        if k == key@ {
                            assert(new_keys[old_keys.len() as int] == k);
                        } else {
                            let j0 = old_keys.index_of(k);
                            assert(old_keys[j0] == k);
                            assert(new_keys[j0] == k);
                        }
                    }
                    assert(table_of(new_keys, values@) =~= table_of(old_keys, old_values).insert(
                        key@,
                        value,
                    ));
                }
            },
        }
        *self = Table { keys, values };
    }

    /// Removes the entry for `key` and hands its value out. The other
    /// entries keep their order.
    pub fn remove(&mut self, key: &str) -> (value: Option<V>)
        ensures
            old(self).wf(),
            final(self).wf(),
            final(self)@ == old(self)@.remove(key@),
            value is Some <==> old(self)@.contains_key(key@),
            value matches Some(v) ==> v == old(self)@[key@],
            old(self).keys().contains(key@) ==> final(self).keys() == old(self).keys().remove(
                old(self).keys().index_of(key@),
            ) && final(self).values() == old(self).values().remove(
                old(self).keys().index_of(key@),
            ),
            !old(self).keys().contains(key@) ==> final(self).keys() == old(self).keys()
                && final(self).values() == old(self).values(),
    {
        let ghost old_keys = self.keys.deep_view();
        let ghost old_values = self.values@;
        match self.position(key) {
            Some(i) => {
                let mut taken = Table::new();
                core::mem::swap(self, &mut taken);
                let Table { keys, values } = taken;
                let mut keys = keys;
                let mut values = values;
                keys.remove(i);
                let value = values.remove(i);
                proof {
                    let new_keys = keys.deep_view();
                    assert(new_keys =~= old_keys.remove(i as int));
                    assert(new_keys.no_duplicates()) by {
                        assert forall|a: int, b: int|
                            0 <= a < new_keys.len() && 0 <= b < new_keys.len() && a != b implies new_keys[a]
                            != new_keys[b] by {
                            let a0 = if a < i { a } else { a + 1 };
                            let b0 = if b < i { b } else { b + 1 };
                            assert(new_keys[a] == old_keys[a0]);
                            assert(new_keys[b] == old_keys[b0]);
                        }
                    }
                    assert forall|k: Seq<char>| new_keys.contains(k) <==> (old_keys.contains(k)
                        && k != key@) by {
                        if new_keys.contains(k) {
                            let a = new_keys.index_of(k);
                            assert(new_keys[a] == k);
                            let a0 = if a < i { a } else { a + 1 };
                            assert(old_keys[a0] == k);
                        }
                        if old_keys.contains(k) && k != key@ {
                            let a0 = old_keys.index_of(k);
                            assert(old_keys[a0] == k);
                            let a = if a0 < i { a0 } else { a0 - 1 };
                            assert(new_keys[a] == k);
                        }
                    }
                    assert forall|k: Seq<char>| new_keys.contains(k) implies values@[new_keys.index_of(
                        k,
                    )] == old_values[old_keys.index_of(k)] by {
                        let a = new_keys.index_of(k);
                        assert(new_keys[a] == k);
                        let a0 = if a < i { a } else { a + 1 };
                        assert(old_keys[a0] == k);
                        let b0 = old_keys.index_of(k);
                        assert(old_keys[b0] == k);
                        assert(a0 == b0);
                    }
                    assert(table_of(new_keys, values@) =~= table_of(old_keys, old_values).remove(
                        key@,
                    ));
                }
                *self = Table { keys, values };
                Some(value)
            },
            None => {
                assert(self@ =~= table_of(old_keys, old_values).remove(key@));
                None
            },
        }
    }
}

} // verus!
