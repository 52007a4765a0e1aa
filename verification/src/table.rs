//! Values kept by key.

use vstd::prelude::*;

use crate::search::{lemma_place_from, lemma_place_from_is, place_from};

verus! {

/// What a value can be kept by.
pub trait Key {
    /// What tells one key from another.
    type Id;

    /// What tells this key from another.
    spec fn id(&self) -> Self::Id;

    /// Whether this key is the same as another.
    fn is(&self, other: &Self) -> (r: bool)
        ensures
            r == (self.id() == other.id()),
    ;
}

impl Key for String {
    type Id = Seq<char>;

    open spec fn id(&self) -> Seq<char> {
        self@
    }

    fn is(&self, other: &String) -> bool {
        *self == *other
    }
}

/// A value for each of some keys.
#[derive(Debug)]
pub struct Table<K, V> {
    items: Vec<(K, V)>,
}

/// Values by pane id.
pub type PaneMap<V> = Table<String, V>;

/// Being the item of a key.
spec fn has_key<K: Key, V>(id: K::Id) -> spec_fn((K, V)) -> bool {
    |item: (K, V)| item.0.id() == id
}

spec fn item_place<K: Key, V>(items: Seq<(K, V)>, id: K::Id) -> int {
    place_from(items, has_key::<K, V>(id), 0)
}

impl<K: Key, V> View for Table<K, V> {
    type V = Map<K::Id, V>;

    closed spec fn view(&self) -> Map<K::Id, V> {
        Map::new(
            |id: K::Id| item_place(self.items@, id) < self.items@.len(),
            |id: K::Id| self.items@[item_place(self.items@, id)].1,
        )
    }
}

impl<K: Key, V: DeepView> DeepView for Table<K, V> {
    type V = Map<K::Id, V::V>;

    open spec fn deep_view(&self) -> Map<K::Id, V::V> {
        self@.map_values(|value: V| value.deep_view())
    }
}

impl<K: Key, V> Table<K, V> {
    /// A table without any value.
    pub fn new() -> (r: Self)
        ensures
            r@ == Map::<K::Id, V>::empty(),
    {
        let r = Table { items: Vec::new() };
        assert(r@ =~= Map::<K::Id, V>::empty());
        r
    }

    fn find(&self, key: &K) -> (k: usize)
        ensures
            k == item_place(self.items@, key.id()),
            k <= self.items@.len(),
    {
        let ghost pred = has_key::<K, V>(key.id());
        let mut k: usize = 0;
        while k < self.items.len() && !self.items[k].0.is(key)
            invariant
                pred == has_key::<K, V>(key.id()),
                k <= self.items@.len(),
                item_place(self.items@, key.id()) == place_from(self.items@, pred, k as int),
            decreases self.items@.len() - k,
        {
            k += 1;
        }
        k
    }

    /// The value of a key, if there is one.
    pub fn get(&self, key: &K) -> (r: Option<&V>)
        ensures
            r is Some <==> self@.contains_key(key.id()),
            r is Some ==> *r->0 == self@[key.id()],
    {
        let k = self.find(key);
        if k < self.items.len() {
            Some(&self.items[k].1)
        } else {
            None
        }
    }

    /// Gives a key a value, in the place of any that it had.
    pub fn insert(&mut self, key: K, value: V)
        ensures
            final(self)@ == old(self)@.insert(key.id(), value),
    {
        let ghost before = self.items@;
        let ghost id = key.id();
        let k = self.find(&key);
        proof {
            lemma_place_from(before, has_key::<K, V>(id), 0);
        }
        if k < self.items.len() {
            self.items[k] = (key, value);
        } else {
            self.items.push((key, value));
        }
        let ghost after = self.items@;
        proof {
            assert forall|other: K::Id|
                #![trigger item_place(after, other)]
                other == id ==> item_place(after, other) == k by {
                if other == id {
                    lemma_place_from_is(after, has_key::<K, V>(id), 0, k as int);
                }
            }
            assert forall|other: K::Id|
                #![trigger item_place(after, other)]
                other != id ==> {
                    let p = item_place(before, other);
                    &&& p < before.len() ==> item_place(after, other) == p && after[p]
                        == before[p]
                    &&& p == before.len() ==> item_place(after, other) == after.len()
                    &&& 0 <= p <= before.len()
                } by {
                if other != id {
                    let pred = has_key::<K, V>(other);
                    lemma_place_from(before, pred, 0);
                    let p = item_place(before, other);
                    assert forall|i: int| 0 <= i < p implies !pred(#[trigger] after[i]) by {
                        if i != k {
                            assert(after[i] == before[i]);
                        }
                    }
                    if p < before.len() {
                        assert(after[p] == before[p]);
                        lemma_place_from_is(after, pred, 0, p);
                    } else {
                        lemma_place_from_is(after, pred, 0, after.len() as int);
                    }
                }
            }
            assert(self@ =~= old(self)@.insert(id, value));
        }
    }
}

} // verus!
