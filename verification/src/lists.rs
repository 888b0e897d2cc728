//! Lists filed under keys: what is queued for each worker, or for each agent.

use crate::table::{table_get, table_insert, table_keys, table_remove};
use fnv::FnvHashMap;
use std::hash::Hash;
use vstd::prelude::*;
use vstd::std_specs::hash::obeys_key_model;

verus! {

/// The items that are bound for one key.
#[derive(Debug, Clone, PartialEq, Eq)]
pub struct Batch<K, T> {
    pub key: K,
    pub items: Vec<T>,
}

/// The items that a sequence of batches holds for `key`: those of the batch
/// with that key (of the last one, should there be several), and none where
/// there is no such batch.
pub open spec fn batch_at<K, T>(batches: Seq<Batch<K, T>>, key: K) -> Seq<T>
    decreases batches.len(),
{
    if batches.len() == 0 {
        Seq::empty()
    } else if batches.last().key == key {
        batches.last().items@
    } else {
        batch_at(batches.drop_last(), key)
    }
}

/// The number of items in all the batches together.
pub open spec fn batch_total<K, T>(batches: Seq<Batch<K, T>>) -> nat
    decreases batches.len(),
{
    if batches.len() == 0 {
        0
    } else {
        batch_total(batches.drop_last()) + batches.last().items@.len()
    }
}

/// Whether the batches are of distinct keys, and none of them is empty.
pub open spec fn batches_proper<K, T>(batches: Seq<Batch<K, T>>) -> bool {
    &&& forall|i: int, j: int|
        0 <= i < j < batches.len() ==> (#[trigger] batches[i]).key != (#[trigger] batches[j]).key
    &&& forall|i: int| 0 <= i < batches.len() ==> (#[trigger] batches[i]).items@.len() > 0
}

/// Lists of items, filed under keys.
pub struct Lists<K, T> {
    table: FnvHashMap<K, Vec<T>>,
}

impl<K: Hash + Eq + Copy, T> Lists<K, T> {
    /// The lists by their keys.
    pub closed spec fn view(&self) -> Map<K, Seq<T>> {
        Map::new(|k: K| self.table@.contains_key(k), |k: K| self.table@[k]@)
    }

    /// The list filed under `key`: empty where nothing is filed.
    pub open spec fn at(&self, key: K) -> Seq<T> {
        if self@.contains_key(key) {
            self@[key]
        } else {
            Seq::empty()
        }
    }

    pub fn new() -> (lists: Lists<K, T>)
        ensures
            lists@ == Map::<K, Seq<T>>::empty(),
    {
        let lists = Lists { table: FnvHashMap::default() };
        lists
    }

    /// Appends `item` to the list filed under `key`.
    pub fn add(&mut self, key: K, item: T)
        requires
            obeys_key_model::<K>(),
        ensures
            final(self)@ == old(self)@.insert(key, old(self).at(key).push(item)),
    {
        let mut list = match table_remove(&mut self.table, &key) {
            Some(list) => list,
            None => Vec::new(),
        };
        list.push(item);
        table_insert(&mut self.table, key, list);
    }

    /// The list filed under `key`, if one is.
    pub fn get(&self, key: K) -> (list: Option<&Vec<T>>)
        requires
            obeys_key_model::<K>(),
        ensures
            match list {
                Some(list) => self@.contains_key(key) && list@ == self@[key],
                None => !self@.contains_key(key),
            },
    {
        table_get(&self.table, &key)
    }

    /// The keys under which a list is filed, each once, in the order of
    /// the table's walk.
    pub fn keys(&self) -> (keys: Vec<K>)
        requires
            obeys_key_model::<K>(),
        ensures
            keys@.no_duplicates(),
            keys@.to_set() == self@.dom(),
    {
        let keys = table_keys(&self.table);
        assert(self@.dom() =~= self.table@.dom());
        keys
    }

    /// Takes out the list filed under `key`, if one is.
    pub fn take(&mut self, key: K) -> (list: Option<Vec<T>>)
        requires
            obeys_key_model::<K>(),
        ensures
            final(self)@ == old(self)@.remove(key),
            match list {
                Some(list) => old(self)@.contains_key(key) && list@ == old(self)@[key],
                None => !old(self)@.contains_key(key),
            },
    {
        let list = table_remove(&mut self.table, &key);
        list
    }

    /// Forgets all lists.
    pub fn clear(&mut self)
        ensures
            final(self)@ == Map::<K, Seq<T>>::empty(),
    {
        self.table.clear();
    }

    /// Takes out every list that holds an item, each as a batch of its key.
    /// The order of the batches is that of the table's walk.
    pub fn drain(&mut self) -> (batches: Vec<Batch<K, T>>)
        requires
            obeys_key_model::<K>(),
        ensures
            final(self)@ == Map::<K, Seq<T>>::empty(),
            batches_proper(batches@),
            forall|key: K| batch_at(batches@, key) == old(self).at(key),
    {
        let keys = table_keys(&self.table);
        let mut batches: Vec<Batch<K, T>> = Vec::new();
        let mut i: usize = 0;
        while i < keys.len()
            invariant
                obeys_key_model::<K>(),
                0 <= i <= keys.len(),
                keys@.no_duplicates(),
                keys@.to_set() == old(self).table@.dom(),
                self.table@ == old(self).table@.remove_keys(keys@.subrange(0, i as int).to_set()),
                batches_proper(batches@),
                forall|k: K|
                    #[trigger] batch_at(batches@, k) == (if keys@.subrange(0, i as int).contains(
                        k,
                    ) {
                        old(self).at(k)
                    } else {
                        Seq::empty()
                    }),
                forall|j: int|
                    0 <= j < batches.len() ==> keys@.subrange(0, i as int).contains(
                        (#[trigger] batches[j]).key,
                    ),
            decreases keys.len() - i,
        {
            let key = keys[i];
            let ghost before = batches@;
            let ghost done = keys@.subrange(0, i as int);
            let ghost now = keys@.subrange(0, i + 1);
            proof {
                assert forall|k: K| now.contains(k) <==> (done.contains(k) || k == key) by {
                    if k == key {
                        assert(now[done.len() as int] == k);
                    }
                }
            }
            let taken = table_remove(&mut self.table, &key);
            match taken {
                Some(items) => {
                    if items.len() > 0 {
                        batches.push(Batch { key, items });
                        proof {
                            assert(batches@.drop_last() =~= before);
                            assert forall|k: K|
                                #[trigger] batch_at(batches@, k) == (if now.contains(k) {
                                    old(self).at(k)
                                } else {
                                    Seq::empty()
                                }) by {
                                assert(batch_at(before, k) == (if done.contains(k) {
                                    old(self).at(k)
                                } else {
                                    Seq::empty()
                                }));
                            }
                        }
                    }
                },
                None => {},
            }
            i = i + 1;
        }
        proof {
            assert(keys@.subrange(0, i as int) =~= keys@);
        }
        batches
    }
}

/// Among batches of distinct keys, what is held for the key of a batch is
/// what that batch holds; and nothing is held for a key that no batch has.
pub proof fn lemma_batch_at_proper<K, T>(batches: Seq<Batch<K, T>>)
    requires
        batches_proper(batches),
    ensures
        forall|i: int|
            0 <= i < batches.len() ==> batch_at(batches, (#[trigger] batches[i]).key)
                == batches[i].items@,
        forall|key: K|
            (forall|i: int| 0 <= i < batches.len() ==> (#[trigger] batches[i]).key != key)
                ==> #[trigger] batch_at(batches, key) == Seq::<T>::empty(),
    decreases batches.len(),
{
    if batches.len() > 0 {
        let rest = batches.drop_last();
        lemma_batch_at_proper(rest);
        assert forall|i: int| 0 <= i < batches.len() implies batch_at(
            batches,
            (#[trigger] batches[i]).key,
        ) == batches[i].items@ by {
            if i < rest.len() {
                assert(rest[i] == batches[i]);
            }
        }
        assert forall|key: K|
            (forall|i: int|
                0 <= i < batches.len() ==> (#[trigger] batches[i]).key
                    != key) implies #[trigger] batch_at(batches, key) == Seq::<T>::empty() by {
            assert(batch_at(rest, key) == Seq::<T>::empty());
        }
    }
}

} // verus!
